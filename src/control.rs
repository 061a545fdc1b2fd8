//! The frontend control state machine: the host drives the lifecycle of the
//! virtual channel through callbacks, and each event is turned here into the
//! next state and the actions to perform, in order.
//!
//! The channel and handle objects of the host stay with the caller, which
//! performs the actions: it keeps the channel of the latest `Loaded` event
//! and the handle of the latest `Opened` event.

use vstd::prelude::*;
use crossbeam_channel::Receiver;

verus! {

/// Lifecycle state of the virtual channel, as the frontend sees it.
#[derive(Clone, Copy, Debug, PartialEq, Eq, Structural)]
pub enum ControlState {
    /// No channel (initial).
    Terminated,
    /// The plugin is registered and a channel is installed.
    Loaded,
    /// A channel handle is available: data may flow.
    Opened,
    /// The channel is disconnected, the plugin still resident.
    Closed,
}

/// What the host reports.
#[derive(Clone, Copy, Debug, PartialEq, Eq, Structural)]
pub enum HostEvent {
    /// A new channel was loaded.
    Loaded,
    /// A channel handle was opened.
    Opened,
    /// A write was cancelled.
    WriteCancelled,
    /// The channel was disconnected.
    Closed,
    /// The channel was terminated.
    Terminated,
}

/// What the caller performs, in order.
#[derive(Clone, Copy, Debug, PartialEq, Eq, Structural)]
pub enum ControlAction {
    /// Close the handle currently held.
    CloseHandle,
    /// Terminate the channel currently held.
    TerminateChannel,
    /// Install the channel of the event and ask the host to open it.
    OpenChannel,
    /// Install the handle of the event.
    InstallHandle,
    /// Drop the handle of the event.
    DropHandle,
    /// Send Shutdown toward the dispatcher.
    SendShutdown,
}

/// Releasing what the state holds: the handle, then the channel.
pub open spec fn spec_release(s: ControlState) -> Seq<ControlAction> {
    match s {
        ControlState::Loaded | ControlState::Closed => seq![ControlAction::TerminateChannel],
        ControlState::Opened => seq![ControlAction::CloseHandle, ControlAction::TerminateChannel],
        ControlState::Terminated => Seq::empty(),
    }
}

/// The transition on a host event: the next state and the actions.
pub open spec fn spec_on_host_event(s: ControlState, e: HostEvent) -> (ControlState, Seq<ControlAction>) {
    match e {
        HostEvent::Loaded => (
            ControlState::Loaded,
            spec_release(s) + seq![ControlAction::OpenChannel],
        ),
        HostEvent::Opened => match s {
            ControlState::Opened => (
                ControlState::Opened,
                seq![ControlAction::CloseHandle, ControlAction::InstallHandle],
            ),
            ControlState::Loaded | ControlState::Closed => (
                ControlState::Opened,
                seq![ControlAction::InstallHandle],
            ),
            ControlState::Terminated => (ControlState::Terminated, seq![ControlAction::DropHandle]),
        },
        HostEvent::WriteCancelled => (s, spec_release(s) + seq![ControlAction::SendShutdown]),
        HostEvent::Closed => match s {
            ControlState::Loaded | ControlState::Opened => (
                ControlState::Closed,
                seq![ControlAction::SendShutdown],
            ),
            _ => (s, Seq::empty()),
        },
        HostEvent::Terminated => (ControlState::Terminated, seq![ControlAction::SendShutdown]),
    }
}

fn release(s: ControlState) -> (r: Vec<ControlAction>)
    ensures
        r@ == spec_release(s),
{
    let v = match s {
        ControlState::Loaded | ControlState::Closed => vec![ControlAction::TerminateChannel],
        ControlState::Opened => vec![ControlAction::CloseHandle, ControlAction::TerminateChannel],
        ControlState::Terminated => Vec::new(),
    };
    assert(v@ =~= spec_release(s));
    v
}

/// The next state and the actions for a host event.
pub fn on_host_event(s: ControlState, e: HostEvent) -> (r: (ControlState, Vec<ControlAction>))
    ensures
        (r.0, r.1@) == spec_on_host_event(s, e),
{
    match e {
        HostEvent::Loaded => {
            let mut v = release(s);
            v.push(ControlAction::OpenChannel);
            (ControlState::Loaded, v)
        },
        HostEvent::Opened => match s {
            ControlState::Opened => {
                let v = vec![ControlAction::CloseHandle, ControlAction::InstallHandle];
                assert(v@ =~= seq![ControlAction::CloseHandle, ControlAction::InstallHandle]);
                (ControlState::Opened, v)
            },
            ControlState::Loaded | ControlState::Closed => {
                let v = vec![ControlAction::InstallHandle];
                assert(v@ =~= seq![ControlAction::InstallHandle]);
                (ControlState::Opened, v)
            },
            ControlState::Terminated => {
                let v = vec![ControlAction::DropHandle];
                assert(v@ =~= seq![ControlAction::DropHandle]);
                (ControlState::Terminated, v)
            },
        },
        HostEvent::WriteCancelled => {
            let mut v = release(s);
            v.push(ControlAction::SendShutdown);
            (s, v)
        },
        HostEvent::Closed => match s {
            ControlState::Loaded | ControlState::Opened => {
                let v = vec![ControlAction::SendShutdown];
                assert(v@ =~= seq![ControlAction::SendShutdown]);
                (ControlState::Closed, v)
            },
            _ => {
                let v = Vec::new();
                assert(v@ =~= Seq::<ControlAction>::empty());
                (s, v)
            },
        },
        HostEvent::Terminated => {
            let v = vec![ControlAction::SendShutdown];
            assert(v@ =~= seq![ControlAction::SendShutdown]);
            (ControlState::Terminated, v)
        },
    }
}

/// What a Shutdown from the dispatcher releases: the handle and the channel.
/// The state itself stays.
pub fn on_dispatcher_shutdown(s: ControlState) -> (r: Vec<ControlAction>)
    ensures
        r@ == spec_release(s),
{
    release(s)
}

/// Whether a chunk from the dispatcher can be written: only with a handle
/// opened; otherwise it is dropped.
pub fn can_send_chunk(s: ControlState) -> (r: bool)
    ensures
        r == (s == ControlState::Opened),
{
    match s {
        ControlState::Opened => true,
        _ => false,
    }
}

/// Number of buffers that one poll of a polling host sends at most.
pub const MAX_CHUNK_BATCH_SEND: usize = 8;

/// What a polling host answered to one queued write.
#[derive(Clone, Copy, Debug, PartialEq, Eq, Structural)]
pub enum QueuedWrite {
    /// The buffer was taken.
    Sent,
    /// The host has no room left now.
    NoOutbuf,
    /// Any other failure.
    Failed,
}

/// What a poll does next.
#[derive(Clone, Copy, Debug, PartialEq, Eq, Structural)]
pub enum PollStep {
    /// Write the next queued buffer, if there is one.
    Next,
    /// End the poll: nothing is left to send.
    Done,
    /// End the poll and ask the host to poll again soon.
    Retry,
    /// Keep the buffer as the first to try at the next poll, and ask the host
    /// to poll again soon.
    ParkAndRetry,
    /// End the poll with an error.
    Fail,
}

/// The decision of a poll after one write, of which `sent` were taken
/// before it in this poll. A write that was taken counts; after
/// `MAX_CHUNK_BATCH_SEND` of them the poll ends, asking for another poll if
/// buffers are still queued. Returns the step and the new count.
pub fn poll_step(sent: usize, answer: QueuedWrite, queue_empty: bool) -> (r: (PollStep, usize))
    requires
        sent < MAX_CHUNK_BATCH_SEND,
    ensures
        answer == QueuedWrite::Sent ==> r.1 == sent + 1 && r.0 == if sent + 1 < MAX_CHUNK_BATCH_SEND {
            PollStep::Next
        } else if queue_empty {
            PollStep::Done
        } else {
            PollStep::Retry
        },
        answer == QueuedWrite::NoOutbuf ==> r == (PollStep::ParkAndRetry, sent),
        answer == QueuedWrite::Failed ==> r == (PollStep::Fail, sent),
{
    match answer {
        QueuedWrite::Sent => {
            let n = sent + 1;
            if n < MAX_CHUNK_BATCH_SEND {
                (PollStep::Next, n)
            } else if queue_empty {
                (PollStep::Done, n)
            } else {
                (PollStep::Retry, n)
            }
        },
        QueuedWrite::NoOutbuf => (PollStep::ParkAndRetry, sent),
        QueuedWrite::Failed => (PollStep::Fail, sent),
    }
}

/// Relies on crossbeam_channel::Receiver::try_recv: the value at the head of
/// the queue, taken without waiting, if there is one; what is there depends
/// on other threads, so nothing is stated.
#[verifier::external_body]
fn queue_try_recv<T>(queue: &Receiver<T>) -> (r: Option<T>) {
    queue.try_recv().ok()
}

/// Relies on crossbeam_channel::Receiver::is_empty: whether the queue holds
/// nothing at the moment; nothing is stated, other threads decide it.
#[verifier::external_body]
fn queue_is_empty<T>(queue: &Receiver<T>) -> (r: bool) {
    queue.is_empty()
}

/// The buffers waiting for a polling host: a queue, and the buffer that the
/// host refused for want of room, which goes before the queue.
pub struct PollQueue {
    queue: Receiver<Vec<u8>>,
    parked: Option<Vec<u8>>,
}

impl PollQueue {
    /// The refused buffer waiting to be written first, if any.
    pub closed spec fn spec_parked(&self) -> Option<Seq<u8>> {
        match self.parked {
            Some(b) => Some(b@),
            None => None,
        }
    }

    pub fn new(queue: Receiver<Vec<u8>>) -> (r: PollQueue)
        ensures
            r.spec_parked() is None,
    {
        PollQueue { queue, parked: None }
    }

    /// The buffer to write next: the parked one when there is one (the queue
    /// is then left alone), else the head of the queue.
    pub fn next(&mut self) -> (r: Option<Vec<u8>>)
        ensures
            final(self).spec_parked() is None,
            old(self).spec_parked() matches Some(b) ==> r is Some && r->Some_0@ == b,
    {
        match self.parked.take() {
            Some(b) => Some(b),
            None => queue_try_recv(&self.queue),
        }
    }

    /// Records the host's answer to the write of `buffer`, of which `sent`
    /// were taken before it in this poll. A refusal for want of room parks
    /// `buffer`, so that the next poll writes it first; a buffer taken is
    /// gone; on failure the poll ends and the buffer is dropped. Returns the
    /// step and the new count, as `poll_step` does.
    pub fn answered(&mut self, sent: usize, buffer: Vec<u8>, answer: QueuedWrite) -> (r: (PollStep, usize))
        requires
            old(self).spec_parked() is None,
            sent < MAX_CHUNK_BATCH_SEND,
        ensures
            answer == QueuedWrite::NoOutbuf ==> final(self).spec_parked() == Some(buffer@) && r == (
            PollStep::ParkAndRetry, sent),
            answer != QueuedWrite::NoOutbuf ==> final(self).spec_parked() is None,
            answer == QueuedWrite::Failed ==> r == (PollStep::Fail, sent),
            answer == QueuedWrite::Sent ==> r.1 == sent + 1 && (sent + 1 < MAX_CHUNK_BATCH_SEND
                ==> r.0 == PollStep::Next) && (sent + 1 == MAX_CHUNK_BATCH_SEND ==> (r.0
                == PollStep::Done || r.0 == PollStep::Retry)),
    {
        let queue_empty = queue_is_empty(&self.queue);
        let step = poll_step(sent, answer, queue_empty);
        match answer {
            QueuedWrite::NoOutbuf => {
                self.parked = Some(buffer);
            },
            _ => {},
        }
        step
    }
}

} // verus!
