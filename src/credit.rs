//! Write credit of the frontend: at most `MAX_CHUNKS_IN_FLIGHT` host writes
//! wait for their completion at any time.
//!
//! Each write takes one permit and is tagged with a marker; the host reports
//! completion (or cancellation) by marker, which returns the permit. A
//! disconnection forgets every write in flight and restores all permits.

use vstd::prelude::*;
use std::collections::HashMap;

verus! {

broadcast use vstd::std_specs::hash::group_hash_axioms;

/// Number of writes that may wait for completion at once.
pub const MAX_CHUNKS_IN_FLIGHT: usize = 64;

/// A counting semaphore, without the blocking: `acquire` says whether a
/// permit was taken, and a caller that got none waits for a `release`.
pub struct Semaphore {
    count: usize,
}

impl View for Semaphore {
    type V = nat;

    closed spec fn view(&self) -> nat {
        self.count as nat
    }
}

impl Semaphore {
    pub fn new(count: usize) -> (r: Semaphore)
        ensures
            r@ == count,
    {
        Semaphore { count }
    }

    pub fn reset(&mut self, value: usize)
        ensures
            final(self)@ == value,
    {
        self.count = value;
    }

    /// Takes one permit if there is one.
    pub fn acquire(&mut self) -> (r: bool)
        ensures
            r == (old(self)@ > 0),
            r ==> final(self)@ == old(self)@ - 1,
            !r ==> final(self)@ == old(self)@,
    {
        if self.count == 0 {
            false
        } else {
            self.count = self.count - 1;
            true
        }
    }

    pub fn release(&mut self)
        requires
            old(self)@ < usize::MAX,
        ensures
            final(self)@ == old(self)@ + 1,
    {
        self.count = self.count + 1;
    }

    pub fn available(&self) -> (r: usize)
        ensures
            r == self@,
    {
        self.count
    }
}

/// The writes handed to the host and not yet completed, by marker.
pub struct WriteStatus {
    sent: HashMap<u32, Vec<u8>>,
    can_send: Semaphore,
    counter: u32,
}

impl WriteStatus {
    /// The markers of the writes in flight.
    pub closed spec fn in_flight(&self) -> Set<u32> {
        self.sent@.dom()
    }

    /// The marker that the next write receives.
    pub closed spec fn next_marker(&self) -> u32 {
        self.counter
    }

    /// Every permit is either free or held by a write in flight.
    pub closed spec fn wf(&self) -> bool {
        &&& self.sent@.dom().finite()
        &&& self.sent@.len() + self.can_send@ == MAX_CHUNKS_IN_FLIGHT
    }

    pub fn new() -> (r: WriteStatus)
        ensures
            r.wf(),
            r.in_flight() == Set::<u32>::empty(),
            r.next_marker() == 0,
    {
        WriteStatus { sent: HashMap::new(), can_send: Semaphore::new(MAX_CHUNKS_IN_FLIGHT), counter: 0 }
    }

    /// Number of writes in flight.
    pub fn pending(&self) -> (r: usize)
        requires
            self.wf(),
        ensures
            r == self.in_flight().len(),
    {
        MAX_CHUNKS_IN_FLIGHT - self.can_send.available()
    }

    /// Records a write of `data`, if a permit is free, and returns its
    /// marker; `None` when `MAX_CHUNKS_IN_FLIGHT` writes are in flight.
    /// The buffer is kept until the write completes.
    pub fn begin(&mut self, data: Vec<u8>) -> (r: Option<u32>)
        requires
            old(self).wf(),
        ensures
            final(self).wf(),
            (r is Some) == (old(self).in_flight().len() < MAX_CHUNKS_IN_FLIGHT
                && !old(self).in_flight().contains(old(self).next_marker())),
            r is Some ==> r->Some_0 == old(self).next_marker() && final(self).in_flight()
                == old(self).in_flight().insert(old(self).next_marker())
                && final(self).next_marker() == old(self).next_marker().wrapping_add(1),
            r is None ==> final(self).in_flight() == old(self).in_flight()
                && final(self).next_marker() == old(self).next_marker(),
    {
        let marker = self.counter;
        if self.sent.contains_key(&marker) {
            return None;
        }
        if !self.can_send.acquire() {
            return None;
        }
        self.sent.insert(marker, data);
        self.counter = marker.wrapping_add(1);
        Some(marker)
    }

    /// The host completed (or cancelled) the write `marker`: its permit
    /// returns. Returns whether `marker` was in flight; an unknown marker
    /// changes nothing.
    pub fn complete(&mut self, marker: u32) -> (r: bool)
        requires
            old(self).wf(),
        ensures
            final(self).wf(),
            r == old(self).in_flight().contains(marker),
            final(self).in_flight() == old(self).in_flight().remove(marker),
            final(self).next_marker() == old(self).next_marker(),
    {
        match self.sent.remove(&marker) {
            Some(_) => {
                self.can_send.release();
                true
            },
            None => {
                assert(self.sent@ =~= old(self).sent@);
                false
            },
        }
    }

    /// Forgets every write in flight and frees all permits.
    pub fn reset(&mut self)
        requires
            old(self).wf(),
        ensures
            final(self).wf(),
            final(self).in_flight() == Set::<u32>::empty(),
            final(self).next_marker() == old(self).next_marker(),
    {
        self.sent.clear();
        self.can_send.reset(MAX_CHUNKS_IN_FLIGHT);
    }
}

/// At every moment at most `MAX_CHUNKS_IN_FLIGHT` writes wait for completion.
pub proof fn lemma_in_flight_bounded(w: WriteStatus)
    requires
        w.wf(),
    ensures
        w.in_flight().finite(),
        w.in_flight().len() <= MAX_CHUNKS_IN_FLIGHT,
{
}

} // verus!
