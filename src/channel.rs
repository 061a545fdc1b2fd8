//! The client registry: which logical streams are open and the queue that
//! feeds each of them.
//!
//! The registry sends nothing itself. Each operation appends what is to be
//! sent, with its target, to an outbox that the caller then sends in order:
//! the contracts state exactly what goes there.

use vstd::prelude::*;
use std::collections::HashMap;
use crossbeam_channel::{Receiver, Sender};
use crate::api::{encode, Chunk, ChunkType, ClientId, Error, Message, ID_DATA, ID_END, ID_START};
use crate::service::{lookup_bytes, spec_services, Kind, Service};
use crate::stream::{Stream, StreamState};
use vstd::std_specs::iter::IteratorSpec;
use vstd::string::StringSliceAdditionalSpecFns;

verus! {

broadcast use vstd::std_specs::hash::group_hash_axioms;

/// Capacity of the queue that feeds one stream.
pub const CLIENT_CHUNK_BUFFER_SIZE: usize = 16;

/// Capacity of the queue toward the transport.
pub const TO_VC_CHANNEL_SIZE: usize = 128;

#[verifier::external_type_specification]
#[verifier::external_body]
#[verifier::reject_recursive_types(T)]
pub struct ExSender<T>(Sender<T>);

#[verifier::external_type_specification]
#[verifier::external_body]
#[verifier::reject_recursive_types(T)]
pub struct ExReceiver<T>(Receiver<T>);

/// Relies on crossbeam_channel::bounded: a new queue of capacity `cap`, as
/// its two ends.
#[verifier::external_body]
fn bounded_queue<T>(cap: usize) -> (r: (Sender<T>, Receiver<T>)) {
    crossbeam_channel::bounded(cap)
}

/// Something to send, with its target.
pub enum Outgoing {
    /// A message for the transport.
    Transport(Message),
    /// A chunk for the queue of a client that stays registered.
    Client(ClientId, Chunk),
    /// The last chunk for a client whose queue left the registry; the queue
    /// goes along.
    Closing(ClientId, Sender<Chunk>, Chunk),
}

/// The serialized End chunk of a client.
pub open spec fn end_bytes(client_id: ClientId) -> Seq<u8> {
    encode(client_id, ID_END, Seq::empty())
}

/// `o` sends the chunk `bytes` to the transport.
pub open spec fn to_transport(o: Outgoing, bytes: Seq<u8>) -> bool {
    match o {
        Outgoing::Transport(Message::Chunk(c)) => c.wf() && c@ == bytes,
        _ => false,
    }
}

/// `o` hands the End of `client_id` to its queue `queue`, which left the registry.
pub open spec fn closing_end(o: Outgoing, client_id: ClientId, queue: Sender<Chunk>) -> bool {
    match o {
        Outgoing::Closing(id, q, c) => id == client_id && q == queue && c.wf() && c@ == end_bytes(
            client_id,
        ),
        _ => false,
    }
}

/// `o` hands the End of some client of `queues` to that client's queue,
/// which left the registry.
pub open spec fn closing_end_in(o: Outgoing, queues: Map<ClientId, Sender<Chunk>>) -> bool {
    match o {
        Outgoing::Closing(id, q, c) => queues.contains_key(id) && q == queues[id] && c.wf() && c@
            == end_bytes(id),
        _ => false,
    }
}

/// The entries appended to an outbox by one call.
pub open spec fn added(before: Seq<Outgoing>, after: Seq<Outgoing>) -> Seq<Outgoing> {
    after.subrange(before.len() as int, after.len() as int)
}

/// `after` is `before` with entries appended.
pub open spec fn grows(before: Seq<Outgoing>, after: Seq<Outgoing>) -> bool {
    before.len() <= after.len() && after.subrange(0, before.len() as int) == before
}

/// What `handle_message` did with a message.
pub enum Dispatch {
    /// A Start reached the frontend, which accepts no streams.
    StartRejected(ClientId),
    /// A Start was handled on the backend.
    Started(StartOutcome),
    /// A Data or End chunk was handled.
    Delivered(Delivery),
    /// The registry was shut down.
    Shutdown,
}

/// What became of a Start received by the backend.
pub enum StartOutcome {
    /// The client already has a stream: the Start is dropped.
    Duplicate,
    /// No service has that name: End was sent back.
    UnknownService,
    /// The service runs no backend handler.
    NoBackend,
    /// A stream was registered; its handler is to be run on it.
    Accepted(Service, Stream, Receiver<Chunk>),
}

/// What became of a Data or End chunk received for a client.
#[derive(Clone, Copy, Debug, PartialEq, Eq, Structural)]
pub enum Delivery {
    /// Handed to the client's queue (or dropped, the client being gone).
    Routed,
    /// Data for no registered client: End was sent back.
    UnknownClient,
    /// End for a registered client: removed, and the End handed on.
    Ended,
    /// End for no registered client: dropped.
    UnknownEnd,
}

/// The registry of streams of one side of the channel.
pub struct Channel {
    clients: HashMap<ClientId, Sender<Chunk>>,
    next_id: ClientId,
}

/// The ids of the keys of `m`, each once.
fn keys_of(m: &HashMap<ClientId, Sender<Chunk>>) -> (r: Vec<ClientId>)
    ensures
        r@.to_set() == m@.dom(),
        r@.no_duplicates(),
{
    let mut ids: Vec<ClientId> = Vec::new();
    let ghost s: Seq<ClientId> = vstd::std_specs::hash::spec_keys_iter(m).remaining().unref();
    for k in it: m.keys()
        invariant
            s == vstd::std_specs::hash::spec_keys_iter(m).remaining().unref(),
            it.seq().unref() == s,
            ids@ == s.take(it.index() as int),
    {
        ids.push(*k);
        assert(s.take(it.index() as int + 1) =~= ids@);
    }
    assert(ids@ =~= s);
    ids
}

impl Channel {
    /// The queue of each registered client.
    pub closed spec fn queues(&self) -> Map<ClientId, Sender<Chunk>> {
        self.clients@
    }

    /// The clients that have a registered queue.
    pub open spec fn clients(&self) -> Set<ClientId> {
        self.queues().dom()
    }

    /// The client id that the next `connect` allocates.
    pub closed spec fn next_client_id(&self) -> ClientId {
        self.next_id
    }

    /// An empty registry.
    pub fn new() -> (r: Channel)
        ensures
            r.queues() == Map::<ClientId, Sender<Chunk>>::empty(),
            r.next_client_id() == 0,
    {
        Channel { clients: HashMap::new(), next_id: 0 }
    }

    /// Allocates a client id: ids are handed out in sequence, modulo 2^16.
    pub fn new_client_id(&mut self) -> (r: ClientId)
        ensures
            r == old(self).next_client_id(),
            final(self).next_client_id() == old(self).next_client_id().wrapping_add(1),
            final(self).queues() == old(self).queues(),
    {
        let id = self.next_id;
        self.next_id = id.wrapping_add(1);
        id
    }

    /// Whether `client_id` has a registered queue.
    pub fn is_registered(&self, client_id: ClientId) -> (r: bool)
        ensures
            r == self.clients().contains(client_id),
    {
        self.clients.contains_key(&client_id)
    }

    /// The queue registered for `client_id`, if any.
    pub fn client_queue(&self, client_id: ClientId) -> (r: Option<&Sender<Chunk>>)
        ensures
            r is Some <==> self.clients().contains(client_id),
            r is Some ==> *r->Some_0 == self.queues()[client_id],
    {
        self.clients.get(&client_id)
    }

    /// Queues a chunk for the transport. A chunk is always of a known type,
    /// so this never fails.
    pub fn send_chunk(&self, chunk: Chunk, out: &mut Vec<Outgoing>) -> (r: Result<(), Error>)
        requires
            chunk.wf(),
        ensures
            r is Ok,
            final(out)@ == old(out)@.push(Outgoing::Transport(Message::Chunk(chunk))),
    {
        out.push(Outgoing::Transport(Message::Chunk(chunk)));
        Ok(())
    }

    /// Opens a stream of `service` (frontend side): allocates a client id,
    /// registers a queue for it, and queues Start with the service name for
    /// the transport, as the only entry for that id. A name longer than a
    /// chunk can carry is refused with `InvalidPayload`, and then nothing is
    /// registered nor queued. When sending the Start fails, the caller
    /// undoes the registration with `forget`.
    pub fn connect(&mut self, service: &Service, out: &mut Vec<Outgoing>) -> (r: Result<
        (Stream, Receiver<Chunk>),
        Error,
    >)
        ensures
            final(self).next_client_id() == old(self).next_client_id().wrapping_add(1),
            service.name.spec_bytes().len() > crate::api::MAX_PAYLOAD_LENGTH ==> {
                &&& r == Err::<(Stream, Receiver<Chunk>), Error>(
                    Error::InvalidPayload(service.name.spec_bytes().len() as usize),
                )
                &&& final(self).queues() == old(self).queues()
                &&& final(out)@ == old(out)@
            },
            service.name.spec_bytes().len() <= crate::api::MAX_PAYLOAD_LENGTH ==> {
                let id = old(self).next_client_id();
                &&& r is Ok
                &&& r->Ok_0.0.wf()
                &&& r->Ok_0.0.spec_client_id() == id
                &&& r->Ok_0.0.spec_state() == StreamState::ReadWrite
                &&& !r->Ok_0.0.spec_end_sent()
                &&& r->Ok_0.0.spec_pending().len() == 0
                &&& r->Ok_0.0.spec_unread().len() == 0
                &&& final(self).clients() == old(self).clients().insert(id)
                &&& forall|k: ClientId| k != id && #[trigger] old(self).clients().contains(k)
                    ==> final(self).queues()[k] == old(self).queues()[k]
                &&& final(out)@.len() == old(out)@.len() + 1
                &&& grows(old(out)@, final(out)@)
                &&& to_transport(final(out)@.last(), encode(id, ID_START, service.name.spec_bytes()))
            },
    {
        let client_id = self.new_client_id();
        match Chunk::start(client_id, service) {
            Err(e) => Err(e),
            Ok(c) => {
                let (sender, receiver) = bounded_queue(CLIENT_CHUNK_BUFFER_SIZE);
                self.clients.insert(client_id, sender);
                out.push(Outgoing::Transport(Message::Chunk(c)));
                assert(out@.subrange(0, old(out)@.len() as int) =~= old(out)@);
                Ok((Stream::new(client_id), receiver))
            },
        }
    }

    /// Removes the queue of `client_id`, if any, and queues nothing: used when
    /// a stream goes away or fails to open.
    pub fn forget(&mut self, client_id: ClientId)
        ensures
            final(self).queues() == old(self).queues().remove(client_id),
            !final(self).clients().contains(client_id),
            final(self).next_client_id() == old(self).next_client_id(),
    {
        self.clients.remove(&client_id);
    }

    /// Handles a Start received by the backend for `client_id`, whose payload
    /// names a service. A client that already has a stream keeps it, and
    /// nothing is queued. An unknown service gets End queued for the
    /// transport. A known service with a backend handler gets a registered
    /// stream, and nothing is queued.
    pub fn accept_start(&mut self, client_id: ClientId, payload: &[u8], out: &mut Vec<Outgoing>) -> (r: StartOutcome)
        ensures
            final(self).next_client_id() == old(self).next_client_id(),
            old(self).clients().contains(client_id) ==> r is Duplicate && final(self).queues()
                == old(self).queues() && final(out)@ == old(out)@,
            !old(self).clients().contains(client_id) ==> {
                let known = exists|i: int|
                    0 <= i < spec_services().len() && (#[trigger] spec_services()[i]).name.spec_bytes()
                        == payload@;
                &&& !known ==> {
                    &&& r is UnknownService
                    &&& final(self).queues() == old(self).queues()
                    &&& final(out)@.len() == old(out)@.len() + 1
                    &&& grows(old(out)@, final(out)@)
                    &&& to_transport(final(out)@.last(), end_bytes(client_id))
                }
                &&& known ==> (r is NoBackend || r is Accepted) && final(out)@ == old(out)@
                &&& r is NoBackend ==> final(self).queues() == old(self).queues() && exists|i: int|
                    0 <= i < spec_services().len() && (#[trigger] spec_services()[i]).name.spec_bytes()
                        == payload@ && !spec_services()[i].backend
                &&& r is Accepted ==> {
                    let service = r->Accepted_0;
                    let s = r->Accepted_1;
                    &&& service.backend
                    &&& service.name.spec_bytes() == payload@
                    &&& s.wf()
                    &&& s.spec_client_id() == client_id
                    &&& s.spec_state() == StreamState::ReadWrite
                    &&& !s.spec_end_sent()
                    &&& s.spec_pending().len() == 0
                    &&& s.spec_unread().len() == 0
                    &&& final(self).clients() == old(self).clients().insert(client_id)
                    &&& forall|k: ClientId| #[trigger] old(self).clients().contains(k)
                        ==> final(self).queues()[k] == old(self).queues()[k]
                }
            },
    {
        if self.clients.contains_key(&client_id) {
            return StartOutcome::Duplicate;
        }
        match lookup_bytes(payload) {
            None => {
                out.push(Outgoing::Transport(Message::Chunk(Chunk::end(client_id))));
                assert(out@.subrange(0, old(out)@.len() as int) =~= old(out)@);
                StartOutcome::UnknownService
            },
            Some(service) => {
                if !service.backend {
                    return StartOutcome::NoBackend;
                }
                let (sender, receiver) = bounded_queue(CLIENT_CHUNK_BUFFER_SIZE);
                self.clients.insert(client_id, sender);
                StartOutcome::Accepted(service, Stream::new(client_id), receiver)
            },
        }
    }

    /// Routes a Data or End chunk received for its client. Data goes to the
    /// client's queue; Data for an unknown client gets End queued for the
    /// transport. End removes the client and is handed to its queue; End for
    /// an unknown client is dropped.
    pub fn deliver(&mut self, chunk: Chunk, out: &mut Vec<Outgoing>) -> (r: Delivery)
        requires
            chunk.wf(),
            chunk.spec_tag() != ID_START,
        ensures
            final(self).next_client_id() == old(self).next_client_id(),
            ({
                let id = chunk.spec_client_id();
                let known = old(self).clients().contains(id);
                &&& chunk.spec_tag() == ID_END && known ==> {
                    &&& r == Delivery::Ended
                    &&& final(self).queues() == old(self).queues().remove(id)
                    &&& final(out)@ == old(out)@.push(
                        Outgoing::Closing(id, old(self).queues()[id], chunk),
                    )
                }
                &&& chunk.spec_tag() == ID_END && !known ==> r == Delivery::UnknownEnd
                    && final(self).queues() == old(self).queues() && final(out)@ == old(out)@
                &&& chunk.spec_tag() == ID_DATA && known ==> r == Delivery::Routed
                    && final(self).queues() == old(self).queues() && final(out)@ == old(out)@.push(
                    Outgoing::Client(id, chunk),
                )
                &&& chunk.spec_tag() == ID_DATA && !known ==> {
                    &&& r == Delivery::UnknownClient
                    &&& final(self).queues() == old(self).queues()
                    &&& final(out)@.len() == old(out)@.len() + 1
                    &&& grows(old(out)@, final(out)@)
                    &&& to_transport(final(out)@.last(), end_bytes(id))
                }
            }),
    {
        let client_id = chunk.client_id();
        let is_end = match chunk.chunk_type() {
            Ok(ChunkType::End) => true,
            _ => false,
        };
        if is_end {
            match self.clients.remove(&client_id) {
                None => Delivery::UnknownEnd,
                Some(queue) => {
                    out.push(Outgoing::Closing(client_id, queue, chunk));
                    Delivery::Ended
                },
            }
        } else if self.clients.contains_key(&client_id) {
            out.push(Outgoing::Client(client_id, chunk));
            Delivery::Routed
        } else {
            out.push(Outgoing::Transport(Message::Chunk(Chunk::end(client_id))));
            assert(out@.subrange(0, old(out)@.len() as int) =~= old(out)@);
            Delivery::UnknownClient
        }
    }

    /// Ends every stream: each registered client's queue leaves the registry
    /// with an End for it, then Shutdown is queued for the transport.
    pub fn shutdown(&mut self, out: &mut Vec<Outgoing>)
        ensures
            final(self).queues() == Map::<ClientId, Sender<Chunk>>::empty(),
            final(self).next_client_id() == old(self).next_client_id(),
            grows(old(out)@, final(out)@),
            added(old(out)@, final(out)@).len() == old(self).clients().len() + 1,
            added(old(out)@, final(out)@).last() == Outgoing::Transport(Message::Shutdown),
            forall|i: int|
                0 <= i < old(self).clients().len() ==> closing_end_in(
                    #[trigger] added(old(out)@, final(out)@)[i],
                    old(self).queues(),
                ),
            forall|id: ClientId|
                #[trigger] old(self).clients().contains(id) ==> exists|i: int|
                    0 <= i < old(self).clients().len() && closing_end(
                        #[trigger] added(old(out)@, final(out)@)[i],
                        id,
                        old(self).queues()[id],
                    ),
    {
        let ghost before = self.clients@;
        let ghost out0 = out@;
        let ids = keys_of(&self.clients);
        proof {
            ids@.unique_seq_to_set();
        }
        let n = ids.len();
        let mut i: usize = 0;
        while i < n
            invariant
                self.next_id == old(self).next_id,
                before == old(self).clients@,
                out0 == old(out)@,
                n == ids@.len(),
                n == before.dom().len(),
                ids@.to_set() == before.dom(),
                ids@.no_duplicates(),
                i <= n,
                forall|j: int|
                    i <= j < n ==> self.clients@.contains_key(#[trigger] ids@[j]) && self.clients@[ids@[j]]
                        == before[ids@[j]],
                out@.len() == out0.len() + i,
                out@.subrange(0, out0.len() as int) == out0,
                forall|j: int|
                    0 <= j < i ==> closing_end(
                        #[trigger] out@[out0.len() + j],
                        ids@[j],
                        before[ids@[j]],
                    ),
            decreases n - i,
        {
            let id = ids[i];
            let ghost out1 = out@;
            match self.clients.remove(&id) {
                Some(queue) => {
                    out.push(Outgoing::Closing(id, queue, Chunk::end(id)));
                },
                None => {},
            }
            proof {
                assert forall|j: int| i < j < n implies self.clients@.contains_key(
                    #[trigger] ids@[j],
                ) && self.clients@[ids@[j]] == before[ids@[j]] by {
                    assert(ids@[j] != ids@[i as int]);
                }
                assert(out@.subrange(0, out0.len() as int) =~= out0);
                assert forall|j: int| 0 <= j < i + 1 implies closing_end(
                    #[trigger] out@[out0.len() + j],
                    ids@[j],
                    before[ids@[j]],
                ) by {
                    if j < i {
                        assert(out@[out0.len() + j] == out1[out0.len() + j]);
                    }
                }
            }
            i = i + 1;
        }
        self.clients.clear();
        out.push(Outgoing::Transport(Message::Shutdown));
        proof {
            let a = added(out0, out@);
            assert(out@.subrange(0, out0.len() as int) =~= out0);
            assert forall|id: ClientId| #[trigger] before.dom().contains(id) implies exists|j: int|
                0 <= j < n && closing_end(#[trigger] a[j], id, before[id]) by {
                assert(ids@.to_set().contains(id));
                let j = choose|j: int| 0 <= j < ids@.len() && ids@[j] == id;
                assert(a[j] == out@[out0.len() + j]);
            }
            assert(old(self).queues() == before);
            assert forall|j: int| 0 <= j < n implies closing_end_in(#[trigger] a[j], old(self).queues()) by {
                let id = ids@[j];
                assert(a[j] == out@[out0.len() + j]);
                assert(ids@.to_set().contains(id));
                assert(old(self).clients().contains(id));
                assert(closing_end(a[j], id, old(self).queues()[id]));
            }
            assert forall|id: ClientId| #[trigger] old(self).clients().contains(id) implies exists|j: int|
                0 <= j < n && closing_end(#[trigger] a[j], id, old(self).queues()[id]) by {
                assert(before.dom().contains(id));
            }
        }
    }

    /// One step of the dispatcher loop on side `kind`: a chunk is classified
    /// by type (Start only on the backend), Shutdown shuts the registry down.
    pub fn handle_message(&mut self, kind: Kind, message: Message, out: &mut Vec<Outgoing>) -> (r: Dispatch)
        requires
            message matches Message::Chunk(c) ==> c.wf(),
        ensures
            final(self).next_client_id() == old(self).next_client_id(),
            message is Shutdown ==> r is Shutdown && final(self).queues() == Map::<
                ClientId,
                Sender<Chunk>,
            >::empty() && added(old(out)@, final(out)@).len() == old(self).clients().len() + 1,
            message matches Message::Chunk(c) ==> {
                &&& c.spec_tag() == ID_START && kind == Kind::Frontend ==> r == Dispatch::StartRejected(
                    c.spec_client_id(),
                ) && final(self).queues() == old(self).queues() && final(out)@ == old(out)@
                &&& c.spec_tag() == ID_START && kind == Kind::Backend ==> r is Started
                &&& c.spec_tag() == ID_END ==> r is Delivered && final(self).queues()
                    == old(self).queues().remove(c.spec_client_id())
                &&& c.spec_tag() == ID_DATA ==> r is Delivered && final(self).queues()
                    == old(self).queues()
                &&& c.spec_tag() == ID_END && old(self).clients().contains(c.spec_client_id())
                    ==> final(out)@ == old(out)@.push(
                    Outgoing::Closing(c.spec_client_id(), old(self).queues()[c.spec_client_id()], c),
                )
                &&& c.spec_tag() == ID_DATA && old(self).clients().contains(c.spec_client_id())
                    ==> final(out)@ == old(out)@.push(Outgoing::Client(c.spec_client_id(), c))
                &&& c.spec_tag() == ID_DATA && !old(self).clients().contains(c.spec_client_id())
                    ==> final(out)@.len() == old(out)@.len() + 1 && to_transport(
                    final(out)@.last(),
                    end_bytes(c.spec_client_id()),
                )
            },
    {
        match message {
            Message::Shutdown => {
                self.shutdown(out);
                Dispatch::Shutdown
            },
            Message::Chunk(chunk) => match chunk.chunk_type() {
                Ok(ChunkType::Start) => {
                    let client_id = chunk.client_id();
                    match kind {
                        Kind::Frontend => Dispatch::StartRejected(client_id),
                        Kind::Backend => Dispatch::Started(
                            self.accept_start(client_id, chunk.payload(), out),
                        ),
                    }
                },
                _ => Dispatch::Delivered(self.deliver(chunk, out)),
            },
        }
    }
}

} // verus!
