//! The per-stream logic: buffering of writes into full chunks, consumption of
//! received chunks by reads, and the half-duplex shutdown state machine.
//!
//! A `Stream` performs no I/O: the chunks it produces are appended to an
//! outbox that the caller sends toward the channel, and the chunks that the
//! channel delivers are handed to it by the caller.

use vstd::prelude::*;
use crate::api::{encode, Chunk, ChunkType, ClientId, ID_DATA, ID_END, MAX_PAYLOAD_LENGTH};

verus! {

broadcast use vstd::seq_lib::group_seq_properties;

/// Which halves of a stream are still open.
#[derive(Clone, Copy, Debug, PartialEq, Eq, Structural)]
pub enum StreamState {
    /// Both halves open.
    ReadWrite,
    /// The local write half is closed; inbound data is still drained.
    ReadOnly,
    /// The peer has ended; locally buffered data may still be pushed.
    WriteOnly,
    /// Terminal: reads give end of stream, writes fail.
    Closed,
}

/// What a shutdown closes.
#[derive(Clone, Copy, Debug, PartialEq, Eq, Structural)]
pub enum CloseMode {
    Read,
    Write,
    Both,
}

#[derive(Clone, Copy, Debug, PartialEq, Eq, Structural)]
pub enum StreamError {
    /// The write half was closed locally.
    BrokenPipe,
    /// The stream is closed.
    ConnectionAborted,
}

/// The shutdown table: the next state, and whether the transition ends the
/// local write direction (which sends End, once).
pub open spec fn spec_close(s: StreamState, m: CloseMode) -> (StreamState, bool) {
    match (s, m) {
        (StreamState::ReadWrite, CloseMode::Read) => (StreamState::WriteOnly, false),
        (StreamState::ReadWrite, CloseMode::Write) => (StreamState::ReadOnly, true),
        (StreamState::ReadWrite, CloseMode::Both) => (StreamState::Closed, true),
        (StreamState::ReadOnly, CloseMode::Read) => (StreamState::Closed, false),
        (StreamState::ReadOnly, CloseMode::Write) => (StreamState::Closed, true),
        (StreamState::ReadOnly, CloseMode::Both) => (StreamState::Closed, true),
        (StreamState::WriteOnly, CloseMode::Both) => (StreamState::Closed, false),
        (s, _) => (s, false),
    }
}

/// Whether writes are accepted in state `s`.
pub open spec fn can_write(s: StreamState) -> bool {
    s == StreamState::ReadWrite || s == StreamState::WriteOnly
}

/// Whether reads can deliver data in state `s`.
pub open spec fn can_read(s: StreamState) -> bool {
    s == StreamState::ReadWrite || s == StreamState::ReadOnly
}

/// The shutdown table as an executable function.
pub fn close_transition(s: StreamState, m: CloseMode) -> (r: (StreamState, bool))
    ensures
        r == spec_close(s, m),
{
    match (s, m) {
        (StreamState::ReadWrite, CloseMode::Read) => (StreamState::WriteOnly, false),
        (StreamState::ReadWrite, CloseMode::Write) => (StreamState::ReadOnly, true),
        (StreamState::ReadWrite, CloseMode::Both) => (StreamState::Closed, true),
        (StreamState::ReadOnly, CloseMode::Read) => (StreamState::Closed, false),
        (StreamState::ReadOnly, CloseMode::Write) => (StreamState::Closed, true),
        (StreamState::ReadOnly, CloseMode::Both) => (StreamState::Closed, true),
        (StreamState::WriteOnly, CloseMode::Both) => (StreamState::Closed, false),
        (s, _) => (s, false),
    }
}

/// The payloads of a sequence of chunks.
pub open spec fn payloads(s: Seq<Chunk>) -> Seq<Seq<u8>> {
    s.map_values(|c: Chunk| c.spec_payload())
}

/// `added` are well-formed Data chunks of `client_id`, each carrying a full
/// payload of `MAX_PAYLOAD_LENGTH` bytes.
pub open spec fn full_data_chunks(added: Seq<Chunk>, client_id: ClientId) -> bool {
    forall|i: int|
        0 <= i < added.len() ==> {
            &&& (#[trigger] added[i]).wf()
            &&& added[i]@ == encode(client_id, ID_DATA, added[i].spec_payload())
            &&& added[i].spec_payload().len() == MAX_PAYLOAD_LENGTH
        }
}

/// The chunks appended to an outbox by one call.
pub open spec fn appended(before: Seq<Chunk>, after: Seq<Chunk>) -> Seq<Chunk> {
    after.subrange(before.len() as int, after.len() as int)
}

/// `after` is `before` with chunks appended.
pub open spec fn extends(before: Seq<Chunk>, after: Seq<Chunk>) -> bool {
    before.len() <= after.len() && after.subrange(0, before.len() as int) == before
}

/// One logical stream of a client.
pub struct Stream {
    client_id: ClientId,
    state: StreamState,
    end_sent: bool,
    pending: Vec<u8>,
    last: Option<Chunk>,
    offset: usize,
}

impl Stream {
    pub closed spec fn spec_client_id(&self) -> ClientId {
        self.client_id
    }

    pub closed spec fn spec_state(&self) -> StreamState {
        self.state
    }

    /// Whether this stream has sent its End chunk.
    pub closed spec fn spec_end_sent(&self) -> bool {
        self.end_sent
    }

    /// Written bytes not yet sent: fewer than a full chunk.
    pub closed spec fn spec_pending(&self) -> Seq<u8> {
        self.pending@
    }

    /// Received bytes not yet read.
    pub closed spec fn spec_unread(&self) -> Seq<u8> {
        match self.last {
            Some(c) => c.spec_payload().subrange(self.offset as int, c.spec_payload().len() as int),
            None => Seq::empty(),
        }
    }

    pub closed spec fn wf(&self) -> bool {
        &&& self.pending@.len() < MAX_PAYLOAD_LENGTH
        &&& !can_write(self.state) ==> self.pending@.len() == 0
        &&& match self.last {
            Some(c) => c.wf() && self.offset < c.spec_payload().len(),
            None => true,
        }
    }

    /// A fresh stream of `client_id`, both halves open.
    pub fn new(client_id: ClientId) -> (r: Stream)
        ensures
            r.wf(),
            r.spec_client_id() == client_id,
            r.spec_state() == StreamState::ReadWrite,
            !r.spec_end_sent(),
            r.spec_pending() == Seq::<u8>::empty(),
            r.spec_pending().len() < MAX_PAYLOAD_LENGTH,
            r.spec_unread() == Seq::<u8>::empty(),
    {
        Stream {
            client_id,
            state: StreamState::ReadWrite,
            end_sent: false,
            pending: Vec::new(),
            last: None,
            offset: 0,
        }
    }

    pub fn client_id(&self) -> (r: ClientId)
        ensures
            r == self.spec_client_id(),
    {
        self.client_id
    }

    /// Whether received bytes wait to be read; `receive` is only for when
    /// none do.
    pub fn has_unread(&self) -> (r: bool)
        requires
            self.wf(),
        ensures
            r == (self.spec_unread().len() > 0),
    {
        self.last.is_some()
    }

    pub fn state(&self) -> (r: StreamState)
        ensures
            r == self.spec_state(),
    {
        self.state
    }

    /// Emits the pending bytes as one Data chunk, if there are any.
    fn emit_pending(&mut self, out: &mut Vec<Chunk>)
        requires
            old(self).pending@.len() <= MAX_PAYLOAD_LENGTH,
        ensures
            final(self).pending@ == Seq::<u8>::empty(),
            final(self).client_id == old(self).client_id,
            final(self).state == old(self).state,
            final(self).end_sent == old(self).end_sent,
            final(self).last == old(self).last,
            final(self).offset == old(self).offset,
            extends(old(out)@, final(out)@),
            old(self).pending@.len() == 0 ==> final(out)@ == old(out)@,
            old(self).pending@.len() > 0 ==> {
                &&& final(out)@.len() == old(out)@.len() + 1
                &&& final(out)@.last().wf()
                &&& final(out)@.last()@ == encode(old(self).client_id, ID_DATA, old(self).pending@)
                &&& final(out)@.last().spec_payload() == old(self).pending@
            },
    {
        if self.pending.len() > 0 {
            match Chunk::data(self.client_id, self.pending.as_slice()) {
                Ok(c) => {
                    proof {
                        crate::api::lemma_encode_fields(self.client_id, ID_DATA, self.pending@);
                    }
                    out.push(c);
                },
                Err(_) => {},
            }
            self.pending.clear();
        }
        assert(out@.subrange(0, old(out)@.len() as int) =~= old(out)@);
    }

    /// Buffers `data` for sending. Every time the buffer fills, its content
    /// leaves as one full Data chunk; the bytes that do not fill a chunk stay
    /// buffered until a later write or a flush. All of `data` is accepted.
    /// Fails with `BrokenPipe` when the local write half is closed, and with
    /// `ConnectionAborted` when the stream is closed.
    pub fn write(&mut self, data: &[u8], out: &mut Vec<Chunk>) -> (r: Result<usize, StreamError>)
        requires
            old(self).wf(),
        ensures
            final(self).wf(),
            final(self).spec_pending().len() < MAX_PAYLOAD_LENGTH,
            final(self).spec_client_id() == old(self).spec_client_id(),
            final(self).spec_state() == old(self).spec_state(),
            final(self).spec_end_sent() == old(self).spec_end_sent(),
            final(self).spec_unread() == old(self).spec_unread(),
            extends(old(out)@, final(out)@),
            old(self).spec_state() == StreamState::ReadOnly ==> r == Err::<usize, StreamError>(
                StreamError::BrokenPipe,
            ),
            old(self).spec_state() == StreamState::Closed ==> r == Err::<usize, StreamError>(
                StreamError::ConnectionAborted,
            ),
            r is Err ==> final(out)@ == old(out)@ && final(self).spec_pending()
                == old(self).spec_pending(),
            can_write(old(self).spec_state()) ==> {
                let added = appended(old(out)@, final(out)@);
                &&& r == Ok::<usize, StreamError>(data@.len() as usize)
                &&& full_data_chunks(added, old(self).spec_client_id())
                &&& payloads(added).flatten() + final(self).spec_pending() == old(self).spec_pending()
                    + data@
                &&& added.len() as int == (old(self).spec_pending().len() + data@.len()) as int
                    / (MAX_PAYLOAD_LENGTH as int)
                &&& final(self).spec_pending().len() as int == (old(self).spec_pending().len()
                    + data@.len()) as int % (MAX_PAYLOAD_LENGTH as int)
            },
    {
        assert(out@.subrange(0, out@.len() as int) =~= out@);
        match self.state {
            StreamState::ReadOnly => {
                return Err(StreamError::BrokenPipe);
            },
            StreamState::Closed => {
                return Err(StreamError::ConnectionAborted);
            },
            _ => {},
        }
        let ghost out0 = out@;
        let ghost pend0 = self.pending@;
        let ghost unread0 = self.spec_unread();
        let mut i: usize = 0;
        proof {
            assert(appended(out0, out@) =~= Seq::<Chunk>::empty());
            assert(payloads(appended(out0, out@)) =~= Seq::<Seq<u8>>::empty());
            assert(data@.subrange(0, 0) =~= Seq::<u8>::empty());
            assert(payloads(appended(out0, out@)).flatten() + self.pending@ =~= pend0 + data@.subrange(0, 0));
        }
        while i < data.len()
            invariant
                self.wf(),
                can_write(self.state),
                self.client_id == old(self).client_id,
                self.state == old(self).state,
                self.end_sent == old(self).end_sent,
                self.last == old(self).last,
                self.offset == old(self).offset,
                out0 == old(out)@,
                pend0 == old(self).pending@,
                i <= data@.len(),
                extends(out0, out@),
                full_data_chunks(appended(out0, out@), self.client_id),
                payloads(appended(out0, out@)).flatten() + self.pending@ == pend0 + data@.subrange(
                    0,
                    i as int,
                ),
                appended(out0, out@).len() * MAX_PAYLOAD_LENGTH + self.pending@.len() == pend0.len()
                    + i,
            decreases data@.len() - i,
        {
            let ghost added0 = appended(out0, out@);
            let ghost p0 = self.pending@;
            self.pending.push(data[i]);
            i = i + 1;
            proof {
                assert(data@.subrange(0, i as int) =~= data@.subrange(0, i - 1).push(data@[i - 1]));
                assert(self.pending@ =~= p0.push(data@[i - 1]));
                assert(payloads(added0).flatten() + self.pending@ =~= (payloads(added0).flatten() + p0).push(data@[i - 1]));
                assert(payloads(added0).flatten() + self.pending@ =~= pend0 + data@.subrange(0, i as int));
            }
            if self.pending.len() == MAX_PAYLOAD_LENGTH {
                let ghost full = self.pending@;
                self.emit_pending(out);
                proof {
                    let added1 = appended(out0, out@);
                    assert(added1 =~= added0.push(out@.last()));
                    assert(added1.len() == added0.len() + 1);
                    assert(added1.len() * MAX_PAYLOAD_LENGTH == added0.len() * MAX_PAYLOAD_LENGTH
                        + MAX_PAYLOAD_LENGTH) by (nonlinear_arith)
                        requires
                            added1.len() == added0.len() + 1,
                    ;
                    assert(payloads(added1) =~= payloads(added0).push(full));
                    added0.map_values(|c: Chunk| c.spec_payload()).lemma_flatten_push(full);
                    assert(payloads(added1).flatten() + self.pending@ =~= payloads(added0).flatten() + full);
                    assert(out@.subrange(0, out0.len() as int) =~= out0);
                    assert forall|k: int| 0 <= k < added1.len() implies {
                        &&& (#[trigger] added1[k]).wf()
                        &&& added1[k]@ == encode(self.client_id, ID_DATA, added1[k].spec_payload())
                        &&& added1[k].spec_payload().len() == MAX_PAYLOAD_LENGTH
                    } by {
                        if k < added0.len() {
                            assert(added1[k] == added0[k]);
                        }
                    }
                }
            }
        }
        assert(data@.subrange(0, i as int) =~= data@);
        assert(self.spec_unread() == unread0);
        proof {
            vstd::arithmetic::div_mod::lemma_fundamental_div_mod_converse(
                (pend0.len() + data@.len()) as int,
                MAX_PAYLOAD_LENGTH as int,
                appended(out0, out@).len() as int,
                self.pending@.len() as int,
            );
        }
        Ok(data.len())
    }

    /// Sends the buffered bytes as one Data chunk, if there are any; with
    /// nothing buffered it does nothing.
    pub fn flush(&mut self, out: &mut Vec<Chunk>) -> (r: Result<(), StreamError>)
        requires
            old(self).wf(),
        ensures
            r is Ok,
            final(self).wf(),
            final(self).spec_client_id() == old(self).spec_client_id(),
            final(self).spec_state() == old(self).spec_state(),
            final(self).spec_end_sent() == old(self).spec_end_sent(),
            final(self).spec_unread() == old(self).spec_unread(),
            final(self).spec_pending() == Seq::<u8>::empty(),
            final(self).spec_pending().len() < MAX_PAYLOAD_LENGTH,
            extends(old(out)@, final(out)@),
            old(self).spec_pending().len() == 0 ==> final(out)@ == old(out)@,
            old(self).spec_pending().len() > 0 ==> {
                &&& final(out)@.len() == old(out)@.len() + 1
                &&& final(out)@.last().wf()
                &&& final(out)@.last()@ == encode(
                    old(self).spec_client_id(),
                    ID_DATA,
                    old(self).spec_pending(),
                )
                &&& final(out)@.last().spec_payload() == old(self).spec_pending()
            },
    {
        self.emit_pending(out);
        Ok(())
    }

    /// Applies the shutdown table. A transition that closes the local write
    /// half first sends the buffered bytes as a Data chunk; one that ends the
    /// write direction sends End, unless End was already sent. A transition
    /// that closes the read half drops the received bytes not yet read.
    pub fn close(&mut self, mode: CloseMode, out: &mut Vec<Chunk>)
        requires
            old(self).wf(),
        ensures
            ({
                let (next, ends) = spec_close(old(self).spec_state(), mode);
                let flushed = can_write(old(self).spec_state()) && !can_write(next)
                    && old(self).spec_pending().len() > 0;
                let ended = ends && !old(self).spec_end_sent();
                let n0 = old(out)@.len();
                &&& final(self).wf()
                &&& final(self).spec_pending().len() < MAX_PAYLOAD_LENGTH
                &&& final(self).spec_client_id() == old(self).spec_client_id()
                &&& final(self).spec_state() == next
                &&& final(self).spec_end_sent() == (old(self).spec_end_sent() || ends)
                &&& final(self).spec_pending() == if can_write(next) {
                    old(self).spec_pending()
                } else {
                    Seq::<u8>::empty()
                }
                &&& final(self).spec_unread() == if can_read(next) {
                    old(self).spec_unread()
                } else {
                    Seq::<u8>::empty()
                }
                &&& extends(old(out)@, final(out)@)
                &&& final(out)@.len() == n0 + (if flushed { 1int } else { 0int }) + (if ended {
                    1int
                } else {
                    0int
                })
                &&& flushed ==> final(out)@[n0 as int].wf() && final(out)@[n0 as int]@ == encode(
                    old(self).spec_client_id(),
                    ID_DATA,
                    old(self).spec_pending(),
                )
                &&& ended ==> final(out)@.last().wf() && final(out)@.last()@ == encode(
                    old(self).spec_client_id(),
                    ID_END,
                    Seq::empty(),
                )
            }),
    {
        let ghost out0 = out@;
        let (next, ends) = close_transition(self.state, mode);
        if can_write_exec(self.state) && !can_write_exec(next) {
            self.emit_pending(out);
        }
        let ghost out1 = out@;
        if ends && !self.end_sent {
            out.push(Chunk::end(self.client_id));
        }
        if ends {
            self.end_sent = true;
        }
        if !can_read_exec(next) {
            self.last = None;
            self.offset = 0;
        }
        self.state = next;
        proof {
            assert(out@.subrange(0, out0.len() as int) =~= out0);
            if out@.len() > out1.len() && out1.len() > out0.len() {
                assert(out@[out0.len() as int] == out1[out0.len() as int]);
            }
        }
    }

    /// Hands out up to `max` received bytes that earlier reads left.
    /// `Some` of nothing is the end of the stream, when the read half is
    /// closed; `None` means that nothing is buffered and a chunk must be
    /// received.
    pub fn read_buffered(&mut self, max: usize) -> (r: Option<Vec<u8>>)
        requires
            old(self).wf(),
        ensures
            final(self).wf(),
            final(self).spec_client_id() == old(self).spec_client_id(),
            final(self).spec_state() == old(self).spec_state(),
            final(self).spec_end_sent() == old(self).spec_end_sent(),
            final(self).spec_pending() == old(self).spec_pending(),
            !can_read(old(self).spec_state()) ==> r is Some && r->Some_0@.len() == 0
                && final(self).spec_unread() == old(self).spec_unread(),
            can_read(old(self).spec_state()) && old(self).spec_unread().len() == 0 ==> r is None
                && final(self).spec_unread() == old(self).spec_unread(),
            can_read(old(self).spec_state()) && old(self).spec_unread().len() > 0 ==> {
                &&& r is Some
                &&& r->Some_0@.len() == vstd::math::min(max as int, old(self).spec_unread().len() as int)
                &&& r->Some_0@ + final(self).spec_unread() == old(self).spec_unread()
            },
    {
        if !can_read_exec(self.state) {
            return Some(Vec::new());
        }
        let offset = self.offset;
        let (v, len) = match &self.last {
            None => {
                return None;
            },
            Some(c) => {
                let p = c.payload();
                let avail = p.len() - offset;
                let n = if max < avail {
                    max
                } else {
                    avail
                };
                (copy_range(p, offset, offset + n), p.len())
            },
        };
        let ghost unread0 = self.spec_unread();
        if offset + v.len() == len {
            self.last = None;
            self.offset = 0;
            assert(v@ =~= unread0);
        } else {
            self.offset = offset + v.len();
            assert(v@ + self.spec_unread() =~= unread0);
        }
        Some(v)
    }

    /// Takes a chunk delivered for this stream, when nothing received is left
    /// unread, and hands out up to `max` bytes of it; the rest stays for later
    /// reads. An End chunk closes the read half and gives the end of the
    /// stream (nothing). With the read half closed the chunk is dropped.
    pub fn receive(&mut self, chunk: Chunk, max: usize) -> (r: Vec<u8>)
        requires
            old(self).wf(),
            chunk.wf(),
            old(self).spec_unread().len() == 0,
        ensures
            final(self).wf(),
            final(self).spec_client_id() == old(self).spec_client_id(),
            final(self).spec_end_sent() == old(self).spec_end_sent(),
            chunk.spec_tag() == ID_END ==> {
                &&& r@.len() == 0
                &&& final(self).spec_state() == spec_close(old(self).spec_state(), CloseMode::Read).0
                &&& final(self).spec_unread().len() == 0
                &&& final(self).spec_pending() == old(self).spec_pending()
            },
            chunk.spec_tag() != ID_END ==> {
                &&& final(self).spec_state() == old(self).spec_state()
                &&& final(self).spec_pending() == old(self).spec_pending()
                &&& !can_read(old(self).spec_state()) ==> r@.len() == 0
                    && final(self).spec_unread().len() == 0
                &&& can_read(old(self).spec_state()) ==> {
                    &&& r@.len() == vstd::math::min(max as int, chunk.spec_payload().len() as int)
                    &&& r@ + final(self).spec_unread() == chunk.spec_payload()
                }
            },
    {
        let is_end = match chunk.chunk_type() {
            Ok(ChunkType::End) => true,
            _ => false,
        };
        if is_end {
            let (next, _) = close_transition(self.state, CloseMode::Read);
            self.state = next;
            if !can_read_exec(next) {
                self.last = None;
                self.offset = 0;
            }
            return Vec::new();
        }
        if !can_read_exec(self.state) {
            return Vec::new();
        }
        let p = chunk.payload();
        let n = if max < p.len() {
            max
        } else {
            p.len()
        };
        let v = copy_range(p, 0, n);
        let len = p.len();
        if n < len {
            self.last = Some(chunk);
            self.offset = n;
            assert(v@ + self.spec_unread() =~= chunk.spec_payload());
        } else {
            assert(v@ =~= chunk.spec_payload());
        }
        v
    }
}

fn can_write_exec(s: StreamState) -> (r: bool)
    ensures
        r == can_write(s),
{
    match s {
        StreamState::ReadWrite | StreamState::WriteOnly => true,
        _ => false,
    }
}

fn can_read_exec(s: StreamState) -> (r: bool)
    ensures
        r == can_read(s),
{
    match s {
        StreamState::ReadWrite | StreamState::ReadOnly => true,
        _ => false,
    }
}

/// A copy of `src[from..to]`.
fn copy_range(src: &[u8], from: usize, to: usize) -> (r: Vec<u8>)
    requires
        from <= to <= src@.len(),
    ensures
        r@ == src@.subrange(from as int, to as int),
{
    let mut v: Vec<u8> = Vec::with_capacity(to - from);
    let mut i: usize = from;
    while i < to
        invariant
            from <= i <= to,
            to <= src@.len(),
            v@ == src@.subrange(from as int, i as int),
        decreases to - i,
    {
        v.push(src[i]);
        i = i + 1;
        assert(v@ =~= src@.subrange(from as int, i as int));
    }
    v
}

/// The number of End chunks that a sequence of shutdowns sends, starting in
/// state `s`, where `sent` tells whether End already left.
pub open spec fn ends_sent(s: StreamState, sent: bool, modes: Seq<CloseMode>) -> nat
    decreases modes.len(),
{
    if modes.len() == 0 {
        0
    } else {
        let (next, ends) = spec_close(s, modes[0]);
        (if ends && !sent {
            1nat
        } else {
            0nat
        }) + ends_sent(next, sent || ends, modes.drop_first())
    }
}

/// A stream sends at most one End chunk: whatever the sequence of shutdowns
/// (receiving End acts as a shutdown of the read half, which sends nothing),
/// no End leaves once one has, and at most one leaves in all.
pub proof fn lemma_end_at_most_once(s: StreamState, sent: bool, modes: Seq<CloseMode>)
    ensures
        ends_sent(s, sent, modes) <= if sent {
            0nat
        } else {
            1nat
        },
    decreases modes.len(),
{
    if modes.len() > 0 {
        let (next, ends) = spec_close(s, modes[0]);
        lemma_end_at_most_once(next, sent || ends, modes.drop_first());
    }
}

/// What one write promises of the bytes: the payloads of the chunks it
/// emits, followed by what stays buffered after it, are the bytes buffered
/// before it followed by the bytes written.
pub open spec fn write_step(before: Seq<u8>, data: Seq<u8>, emitted: Seq<Seq<u8>>, after: Seq<u8>) -> bool {
    emitted.flatten() + after == before + data
}

/// The payload bytes of successive batches of emitted chunks, in order.
pub open spec fn emitted_bytes(emitted: Seq<Seq<Seq<u8>>>) -> Seq<u8>
    decreases emitted.len(),
{
    if emitted.len() == 0 {
        Seq::empty()
    } else {
        emitted_bytes(emitted.drop_last()) + emitted.last().flatten()
    }
}

/// Bytes leave a stream in the order they were written: over any sequence of
/// writes, each meeting `write_step`, the payloads of all emitted chunks in
/// order, followed by what stays buffered, are the bytes buffered at the
/// start followed by all the bytes written, in order. A final flush emits
/// what stays buffered.
pub proof fn lemma_writes_in_order(
    buffered: Seq<Seq<u8>>,
    writes: Seq<Seq<u8>>,
    emitted: Seq<Seq<Seq<u8>>>,
)
    requires
        buffered.len() == writes.len() + 1,
        emitted.len() == writes.len(),
        forall|i: int|
            0 <= i < writes.len() ==> write_step(
                buffered[i],
                #[trigger] writes[i],
                emitted[i],
                buffered[i + 1],
            ),
    ensures
        emitted_bytes(emitted) + buffered.last() == buffered[0] + writes.flatten(),
    decreases writes.len(),
{
    let n = writes.len();
    if n == 0 {
        assert(writes =~= Seq::<Seq<u8>>::empty());
        assert(buffered[0] + writes.flatten() =~= buffered[0]);
    } else {
        let b2 = buffered.drop_last();
        let w2 = writes.drop_last();
        let e2 = emitted.drop_last();
        assert forall|i: int| 0 <= i < w2.len() implies write_step(
            b2[i],
            #[trigger] w2[i],
            e2[i],
            b2[i + 1],
        ) by {
            assert(w2[i] == writes[i]);
        }
        lemma_writes_in_order(b2, w2, e2);
        assert(writes =~= w2.push(writes[n - 1]));
        w2.lemma_flatten_push(writes[n - 1]);
        assert(write_step(buffered[n - 1], writes[n - 1], emitted[n - 1], buffered[n as int]));
        assert(b2.last() == buffered[n - 1]);
        assert(e2 == emitted.drop_last());
        let a = emitted_bytes(e2);
        let e = emitted[n - 1].flatten();
        assert(emitted_bytes(emitted) == a + e);
        assert(a + buffered[n - 1] == buffered[0] + w2.flatten());
        assert(e + buffered[n as int] == buffered[n - 1] + writes[n - 1]);
        assert((a + e) + buffered[n as int] =~= a + (e + buffered[n as int]));
        assert(a + (buffered[n - 1] + writes[n - 1]) =~= (a + buffered[n - 1]) + writes[n - 1]);
        assert((buffered[0] + w2.flatten()) + writes[n - 1] =~= buffered[0] + (w2.flatten()
            + writes[n - 1]));
    }
}

/// What one read promises: the bytes it hands out, followed by what stays
/// unread, are what was unread before.
pub open spec fn read_step(before: Seq<u8>, got: Seq<u8>, after: Seq<u8>) -> bool {
    got + after == before
}

/// Received bytes are read in order and none is lost or repeated: over any
/// sequence of reads, each meeting `read_step`, everything handed out, in
/// order, followed by what stays unread, is what was unread at the start.
pub proof fn lemma_reads_in_order(unread: Seq<Seq<u8>>, reads: Seq<Seq<u8>>)
    requires
        unread.len() == reads.len() + 1,
        forall|i: int|
            0 <= i < reads.len() ==> read_step(unread[i], #[trigger] reads[i], unread[i + 1]),
    ensures
        reads.flatten() + unread.last() == unread[0],
    decreases reads.len(),
{
    let n = reads.len();
    if n == 0 {
        assert(reads.flatten() + unread.last() =~= unread[0]);
    } else {
        let u2 = unread.drop_last();
        let r2 = reads.drop_last();
        assert forall|i: int| 0 <= i < r2.len() implies read_step(u2[i], #[trigger] r2[i], u2[i + 1]) by {
            assert(r2[i] == reads[i]);
        }
        lemma_reads_in_order(u2, r2);
        assert(reads =~= r2.push(reads[n - 1]));
        r2.lemma_flatten_push(reads[n - 1]);
        assert(read_step(unread[n - 1], reads[n - 1], unread[n as int]));
        assert(reads.flatten() + unread.last() =~= unread[0]);
    }
}

} // verus!
