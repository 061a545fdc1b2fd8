//! Reassembly of chunks from the raw bytes that channel reads deliver.
//!
//! A read may end in the middle of a chunk, or hold several chunks; the bytes
//! of an incomplete chunk are kept until the next read completes it.

use vstd::prelude::*;
use crate::api::{frame_error, frame_ok, frame_size, Chunk, Error};

verus! {

/// The complete frames at the front of `b`, in order, and what is left after
/// them: the bytes of a chunk that is not yet complete.
pub open spec fn scan(b: Seq<u8>) -> (Seq<Seq<u8>>, Seq<u8>)
    decreases b.len(),
{
    match frame_size(b) {
        None => (Seq::empty(), b),
        Some(n) => {
            let rest = scan(b.subrange(n, b.len() as int));
            (seq![b.subrange(0, n)] + rest.0, rest.1)
        },
    }
}

/// The serialized bytes of a sequence of chunks.
pub open spec fn views(s: Seq<Chunk>) -> Seq<Seq<u8>> {
    s.map_values(|c: Chunk| c@)
}

/// Buffer of the bytes of an incomplete chunk, carried from one read to the next.
pub struct Reassembler {
    pending: Vec<u8>,
}

impl View for Reassembler {
    type V = Seq<u8>;

    closed spec fn view(&self) -> Seq<u8> {
        self.pending@
    }
}

proof fn lemma_scan_step(all: Seq<u8>, off: int, n: int)
    requires
        0 <= off <= all.len(),
        frame_size(all.subrange(off, all.len() as int)) == Some(n),
    ensures
        0 < n,
        off + n <= all.len(),
        scan(all.subrange(off, all.len() as int)).0 == seq![all.subrange(off, off + n)] + scan(
            all.subrange(off + n, all.len() as int),
        ).0,
        scan(all.subrange(off, all.len() as int)).1 == scan(
            all.subrange(off + n, all.len() as int),
        ).1,
{
    let b = all.subrange(off, all.len() as int);
    assert(b.subrange(n, b.len() as int) =~= all.subrange(off + n, all.len() as int));
    assert(b.subrange(0, n) =~= all.subrange(off, off + n));
}

/// A valid chunk at the front of a buffer is recognised whatever follows it.
proof fn lemma_frame_size_prefix(f: Seq<u8>, rest: Seq<u8>)
    requires
        frame_ok(f),
    ensures
        frame_size(f + rest) == Some(f.len() as int),
        (f + rest).subrange(0, f.len() as int) == f,
        (f + rest).subrange(f.len() as int, (f + rest).len() as int) == rest,
{
    let b = f + rest;
    assert(b[3] == f[3]);
    assert(b[4] == f[4]);
    assert(b.subrange(0, f.len() as int) =~= f);
    assert(b.subrange(f.len() as int, b.len() as int) =~= rest);
}

/// Scanning a buffer made of valid chunks followed by the start of an
/// incomplete one yields exactly those chunks and leaves the incomplete tail.
pub proof fn lemma_scan_concat(frames: Seq<Seq<u8>>, tail: Seq<u8>)
    requires
        forall|i: int| 0 <= i < frames.len() ==> frame_ok(#[trigger] frames[i]),
        frame_size(tail) is None,
    ensures
        scan(frames.flatten() + tail) == (frames, tail),
    decreases frames.len(),
{
    if frames.len() == 0 {
        assert(frames.flatten() + tail =~= tail);
        assert(frames =~= Seq::<Seq<u8>>::empty());
    } else {
        let rest = frames.drop_first();
        assert forall|i: int| 0 <= i < rest.len() implies frame_ok(#[trigger] rest[i]) by {
            assert(rest[i] == frames[i + 1]);
        }
        lemma_scan_concat(rest, tail);
        let b = frames.flatten() + tail;
        assert(b =~= frames[0] + (rest.flatten() + tail));
        lemma_frame_size_prefix(frames[0], rest.flatten() + tail);
        assert(seq![frames[0]] + rest =~= frames);
    }
}

/// The tail that scanning leaves holds no complete chunk.
pub proof fn lemma_scan_tail(b: Seq<u8>)
    ensures
        frame_size(scan(b).1) is None,
    decreases b.len(),
{
    if let Some(n) = frame_size(b) {
        lemma_scan_tail(b.subrange(n, b.len() as int));
    }
}

/// A complete chunk at the front of a buffer stays one when bytes are added.
proof fn lemma_frame_size_extend(x: Seq<u8>, y: Seq<u8>)
    requires
        frame_size(x) is Some,
    ensures
        frame_size(x + y) == frame_size(x),
{
    assert((x + y)[3] == x[3]);
    assert((x + y)[4] == x[4]);
}

/// Scanning a buffer that grew is scanning its first part, then scanning
/// the tail of that first part followed by what was added.
pub proof fn lemma_scan_append(x: Seq<u8>, y: Seq<u8>)
    ensures
        scan(x + y).0 == scan(x).0 + scan(scan(x).1 + y).0,
        scan(x + y).1 == scan(scan(x).1 + y).1,
    decreases x.len(),
{
    match frame_size(x) {
        None => {
            assert(scan(x).0 + scan(scan(x).1 + y).0 =~= scan(x + y).0);
        },
        Some(n) => {
            lemma_frame_size_extend(x, y);
            let rest = x.subrange(n, x.len() as int);
            lemma_scan_append(rest, y);
            assert((x + y).subrange(n, (x + y).len() as int) =~= rest + y);
            assert((x + y).subrange(0, n) =~= x.subrange(0, n));
            assert(scan(x + y).0 =~= seq![x.subrange(0, n)] + scan(rest + y).0);
            assert(scan(x).0 =~= seq![x.subrange(0, n)] + scan(rest).0);
            assert(scan(x + y).0 =~= scan(x).0 + scan(scan(x).1 + y).0);
        },
    }
}

/// Chunks are rebuilt across any split of the bytes into reads: if each
/// read yields the chunks that scanning the waiting bytes followed by that
/// read gives, and leaves its tail waiting, then all the chunks yielded, in
/// order, and the last tail are what scanning all the bytes at once gives.
/// The bytes waiting at the start hold no complete chunk, as after any push.
pub proof fn lemma_reads_chain(
    reads: Seq<Seq<u8>>,
    pending: Seq<Seq<u8>>,
    frames: Seq<Seq<Seq<u8>>>,
)
    requires
        pending.len() == reads.len() + 1,
        frames.len() == reads.len(),
        frame_size(pending[0]) is None,
        forall|i: int|
            0 <= i < reads.len() ==> scan(pending[i] + #[trigger] reads[i]) == (
                frames[i],
                pending[i + 1],
            ),
    ensures
        frames.flatten() == scan(pending[0] + reads.flatten()).0,
        pending.last() == scan(pending[0] + reads.flatten()).1,
    decreases reads.len(),
{
    let k = reads.len();
    if k == 0 {
        assert(reads.flatten() =~= Seq::<u8>::empty());
        assert(pending[0] + reads.flatten() =~= pending[0]);
        assert(frames.flatten() =~= Seq::<Seq<u8>>::empty());
        assert(scan(pending[0]).0 =~= Seq::<Seq<u8>>::empty());
    } else {
        let r2 = reads.drop_last();
        let p2 = pending.drop_last();
        let f2 = frames.drop_last();
        assert forall|i: int| 0 <= i < r2.len() implies scan(p2[i] + #[trigger] r2[i]) == (
            f2[i],
            p2[i + 1],
        ) by {
            assert(r2[i] == reads[i]);
        }
        lemma_reads_chain(r2, p2, f2);
        let before = pending[0] + r2.flatten();
        assert(reads =~= r2.push(reads[k - 1]));
        r2.lemma_flatten_push(reads[k - 1]);
        assert(frames =~= f2.push(frames[k - 1]));
        f2.lemma_flatten_push(frames[k - 1]);
        lemma_scan_append(before, reads[k - 1]);
        assert(pending[0] + reads.flatten() =~= before + reads[k - 1]);
        assert(scan(pending[k - 1] + reads[k - 1]) == (frames[k - 1], pending[k as int]));
    }
}

impl Reassembler {
    pub fn new() -> (r: Reassembler)
        ensures
            r@ == Seq::<u8>::empty(),
    {
        Reassembler { pending: Vec::new() }
    }

    /// Whether bytes of an incomplete chunk are waiting.
    pub fn is_empty(&self) -> (r: bool)
        ensures
            r == (self@.len() == 0),
    {
        self.pending.len() == 0
    }

    /// Appends `data` to the waiting bytes and moves every complete chunk at
    /// the front into `out`, in order. What remains waits for the next call.
    /// A complete frame that is not a valid chunk stops the scan with
    /// `InvalidChunkSize`; the chunks before it are delivered and the waiting
    /// bytes are dropped.
    pub fn push(&mut self, data: &[u8], out: &mut Vec<Chunk>) -> (r: Result<(), Error>)
        requires
            old(self)@.len() + data@.len() <= usize::MAX,
        ensures
            ({
                let frames = scan(old(self)@ + data@).0;
                let tail = scan(old(self)@ + data@).1;
                let added = final(out)@.subrange(old(out)@.len() as int, final(out)@.len() as int);
                &&& frame_size(final(self)@) is None
                &&& final(out)@.len() >= old(out)@.len()
                &&& final(out)@.subrange(0, old(out)@.len() as int) == old(out)@
                &&& forall|i: int| 0 <= i < added.len() ==> (#[trigger] added[i]).wf()
                &&& (r is Ok <==> forall|i: int| 0 <= i < frames.len() ==> frame_error(#[trigger] frames[i]) is None)
                &&& r is Ok ==> views(added) == frames && final(self)@ == tail
                &&& r is Err ==> {
                    &&& added.len() < frames.len()
                    &&& views(added) == frames.subrange(0, added.len() as int)
                    &&& frame_error(frames[added.len() as int]) == Some(r->Err_0)
                    &&& final(self)@ == Seq::<u8>::empty()
                }
            }),
    {
        let ghost out0 = out@;
        proof {
            lemma_scan_tail(old(self)@ + data@);
        }
        let mut all: Vec<u8> = Vec::new();
        all.append(&mut self.pending);
        let mut j: usize = 0;
        while j < data.len()
            invariant
                j <= data@.len(),
                all@ == old(self)@ + data@.subrange(0, j as int),
            decreases data@.len() - j,
        {
            all.push(data[j]);
            j = j + 1;
            assert(all@ =~= old(self)@ + data@.subrange(0, j as int));
        }
        assert(data@.subrange(0, j as int) =~= data@);
        let ghost whole = all@;
        assert(whole.subrange(0, whole.len() as int) =~= whole);
        let mut off: usize = 0;
        loop
            invariant
                whole == all@,
                whole == old(self)@ + data@,
                out0 == old(out)@,
                off <= all@.len(),
                out0.len() <= out@.len(),
                out@.subrange(0, out0.len() as int) == out0,
                forall|i: int| out0.len() <= i < out@.len() ==> (#[trigger] out@[i]).wf(),
                forall|i: int| 0 <= i < out@.len() - out0.len() ==> frame_error(#[trigger] views(out@.subrange(out0.len() as int, out@.len() as int))[i]) is None,
                scan(whole).0 == views(out@.subrange(out0.len() as int, out@.len() as int)) + scan(whole.subrange(off as int, whole.len() as int)).0,
                scan(whole).1 == scan(whole.subrange(off as int, whole.len() as int)).1,
            decreases all@.len() - off,
        {
            let ghost added = out@.subrange(out0.len() as int, out@.len() as int);
            let rest = &all.as_slice()[off..all.len()];
            assert(rest@ == whole.subrange(off as int, whole.len() as int));
            match Chunk::can_deserialize_from(rest) {
                None => {
                    let tail = vstd::slice::slice_to_vec(rest);
                    self.pending = tail;
                    proof {
                        assert(scan(whole.subrange(off as int, whole.len() as int)).0 =~= Seq::<Seq<u8>>::empty());
                        assert(scan(whole).0 =~= views(added));
                        assert(self@ == tail@);
                    }
                    return Ok(());
                },
                Some(n) => {
                    proof {
                        lemma_scan_step(whole, off as int, n as int);
                    }
                    let frame = &all.as_slice()[off..off + n];
                    assert(frame@ == whole.subrange(off as int, off + n));
                    match Chunk::deserialize_from(frame) {
                        Err(e) => {
                            self.pending = Vec::new();
                            proof {
                                let frames = scan(whole).0;
                                assert(frames[added.len() as int] == frame@);
                                assert(frames.subrange(0, added.len() as int) =~= views(added));
                            }
                            return Err(e);
                        },
                        Ok(c) => {
                            out.push(c);
                            proof {
                                let added2 = out@.subrange(out0.len() as int, out@.len() as int);
                                assert(added2 =~= added.push(c));
                                assert(views(added2) =~= views(added).push(c@));
                                assert(out@.subrange(0, out0.len() as int) =~= out0);
                                assert(scan(whole).0 =~= views(added2) + scan(whole.subrange(off + n, whole.len() as int)).0);
                            }
                            off = off + n;
                        },
                    }
                },
            }
        }
    }
}

} // verus!
