use soxy::control::{
    can_send_chunk, on_dispatcher_shutdown, on_host_event, poll_step, ControlAction, ControlState,
    HostEvent, PollQueue, PollStep, QueuedWrite, MAX_CHUNK_BATCH_SEND,
};
use soxy::credit::{Semaphore, WriteStatus, MAX_CHUNKS_IN_FLIGHT};
use soxy::pdu::{check_channel_pdu, Pdu, PduChannel, PduError};

use ControlAction::{
    CloseHandle, DropHandle, InstallHandle, OpenChannel, SendShutdown, TerminateChannel,
};

#[test]
fn loaded_transitions() {
    assert_eq!(on_host_event(ControlState::Terminated, HostEvent::Loaded), (ControlState::Loaded, vec![OpenChannel]));
    assert_eq!(
        on_host_event(ControlState::Loaded, HostEvent::Loaded),
        (ControlState::Loaded, vec![TerminateChannel, OpenChannel])
    );
    assert_eq!(
        on_host_event(ControlState::Opened, HostEvent::Loaded),
        (ControlState::Loaded, vec![CloseHandle, TerminateChannel, OpenChannel])
    );
    assert_eq!(
        on_host_event(ControlState::Closed, HostEvent::Loaded),
        (ControlState::Loaded, vec![TerminateChannel, OpenChannel])
    );
}

#[test]
fn opened_transitions() {
    assert_eq!(on_host_event(ControlState::Loaded, HostEvent::Opened), (ControlState::Opened, vec![InstallHandle]));
    assert_eq!(on_host_event(ControlState::Closed, HostEvent::Opened), (ControlState::Opened, vec![InstallHandle]));
    assert_eq!(
        on_host_event(ControlState::Opened, HostEvent::Opened),
        (ControlState::Opened, vec![CloseHandle, InstallHandle])
    );
    assert_eq!(on_host_event(ControlState::Terminated, HostEvent::Opened), (ControlState::Terminated, vec![DropHandle]));
}

#[test]
fn closed_and_terminated_transitions() {
    assert_eq!(on_host_event(ControlState::Opened, HostEvent::Closed), (ControlState::Closed, vec![SendShutdown]));
    assert_eq!(on_host_event(ControlState::Loaded, HostEvent::Closed), (ControlState::Closed, vec![SendShutdown]));
    assert_eq!(on_host_event(ControlState::Closed, HostEvent::Closed), (ControlState::Closed, vec![]));
    assert_eq!(on_host_event(ControlState::Terminated, HostEvent::Closed), (ControlState::Terminated, vec![]));
    for s in [ControlState::Loaded, ControlState::Opened, ControlState::Closed, ControlState::Terminated] {
        assert_eq!(on_host_event(s, HostEvent::Terminated), (ControlState::Terminated, vec![SendShutdown]));
    }
}

#[test]
fn write_cancelled_terminates_and_shuts_down() {
    assert_eq!(
        on_host_event(ControlState::Opened, HostEvent::WriteCancelled),
        (ControlState::Opened, vec![CloseHandle, TerminateChannel, SendShutdown])
    );
    assert_eq!(
        on_host_event(ControlState::Terminated, HostEvent::WriteCancelled),
        (ControlState::Terminated, vec![SendShutdown])
    );
}

#[test]
fn dispatcher_side() {
    assert!(can_send_chunk(ControlState::Opened));
    assert!(!can_send_chunk(ControlState::Loaded));
    assert!(!can_send_chunk(ControlState::Closed));
    assert!(!can_send_chunk(ControlState::Terminated));
    assert_eq!(on_dispatcher_shutdown(ControlState::Opened), vec![CloseHandle, TerminateChannel]);
    assert_eq!(on_dispatcher_shutdown(ControlState::Closed), vec![TerminateChannel]);
    assert_eq!(on_dispatcher_shutdown(ControlState::Terminated), vec![]);
}

#[test]
fn reconnect_cycle() {
    let (s, a) = on_host_event(ControlState::Terminated, HostEvent::Loaded);
    assert_eq!(a, vec![OpenChannel]);
    let (s, _) = on_host_event(s, HostEvent::Opened);
    assert!(can_send_chunk(s));
    let (s, a) = on_host_event(s, HostEvent::Terminated);
    assert_eq!((s, a), (ControlState::Terminated, vec![SendShutdown]));
    let (s, a) = on_host_event(s, HostEvent::Loaded);
    assert_eq!(a, vec![OpenChannel]);
    let (s, _) = on_host_event(s, HostEvent::Opened);
    assert_eq!(s, ControlState::Opened);
}

#[test]
fn poll_batches() {
    assert_eq!(MAX_CHUNK_BATCH_SEND, 8);
    assert_eq!(poll_step(0, QueuedWrite::Sent, false), (PollStep::Next, 1));
    assert_eq!(poll_step(6, QueuedWrite::Sent, false), (PollStep::Next, 7));
    assert_eq!(poll_step(7, QueuedWrite::Sent, true), (PollStep::Done, 8));
    assert_eq!(poll_step(7, QueuedWrite::Sent, false), (PollStep::Retry, 8));
    assert_eq!(poll_step(3, QueuedWrite::NoOutbuf, false), (PollStep::ParkAndRetry, 3));
    assert_eq!(poll_step(3, QueuedWrite::Failed, true), (PollStep::Fail, 3));
}

#[test]
fn credit_saturation() {
    let mut w = WriteStatus::new();
    for i in 0..64u32 {
        assert_eq!(w.begin(vec![i as u8]), Some(i));
    }
    assert_eq!(w.pending(), MAX_CHUNKS_IN_FLIGHT);
    assert_eq!(w.begin(vec![64]), None);
    assert_eq!(w.pending(), 64);
    assert!(w.complete(5));
    assert_eq!(w.pending(), 63);
    assert_eq!(w.begin(vec![64]), Some(64));
    assert_eq!(w.pending(), 64);
    assert_eq!(w.begin(vec![65]), None);
}

#[test]
fn credit_unknown_marker_and_reset() {
    let mut w = WriteStatus::new();
    assert_eq!(w.begin(vec![1]), Some(0));
    assert!(!w.complete(1000));
    assert_eq!(w.pending(), 1);
    assert!(w.complete(0));
    assert!(!w.complete(0));
    assert_eq!(w.pending(), 0);
    for _ in 0..10 {
        w.begin(vec![0]);
    }
    w.reset();
    assert_eq!(w.pending(), 0);
    assert_eq!(w.begin(vec![2]), Some(11));
}

#[test]
fn semaphore_counts() {
    let mut s = Semaphore::new(2);
    assert!(s.acquire());
    assert!(s.acquire());
    assert!(!s.acquire());
    s.release();
    assert_eq!(s.available(), 1);
    assert!(s.acquire());
    s.reset(64);
    assert_eq!(s.available(), 64);
}

fn pdu(length: u32, flags: u32, payload: &[u8]) -> Vec<u8> {
    let mut v = length.to_le_bytes().to_vec();
    v.extend_from_slice(&flags.to_le_bytes());
    v.extend_from_slice(payload);
    v
}

#[test]
fn channel_pdu_flags() {
    for flags in [1u32, 2, 3] {
        assert_eq!(check_channel_pdu(&pdu(3, flags, b"abc")), Ok((8, 11)));
    }
    for flags in [0u32, 4, 7, 0x10] {
        assert_eq!(check_channel_pdu(&pdu(3, flags, b"abc")), Err(PduError::UnsupportedFlags(flags)));
    }
}

#[test]
fn channel_pdu_sizes() {
    assert_eq!(check_channel_pdu(&[1, 2, 3, 4, 5]), Err(PduError::NotAPdu(5)));
    assert_eq!(check_channel_pdu(&pdu(4, 3, b"abc")), Err(PduError::LengthMismatch(4, 11)));
    assert_eq!(check_channel_pdu(&pdu(0, 3, b"")), Ok((8, 8)));
}

#[test]
fn dynamic_pdu_headers() {
    assert_eq!(Pdu::parse(&[0x30, 7, 9]), Ok((Pdu::Data { channel_id: PduChannel::Short(7) }, 2)));
    assert_eq!(Pdu::parse(&[0x31, 0x34, 0x12]), Ok((Pdu::Data { channel_id: PduChannel::Medium(0x1234) }, 3)));
    assert_eq!(Pdu::parse(&[0x3E, 1, 0, 0, 1]), Ok((Pdu::Data { channel_id: PduChannel::Large(0x0100_0001) }, 5)));
    assert_eq!(Pdu::parse(&[0x33, 1, 2, 3, 4, 5]), Err(PduError::InvalidCbid(3)));
    assert_eq!(Pdu::parse(&[0x20, 1]), Err(PduError::UnknownCommand(0x20)));
    assert_eq!(Pdu::parse(&[]), Err(PduError::Truncated));
    assert_eq!(Pdu::parse(&[0x31, 1]), Err(PduError::Truncated));
}

#[test]
fn dynamic_pdu_header_is_stripped() {
    assert_eq!(Pdu::strip_header(&[0x30, 7, 1, 2, 3]), &[1, 2, 3]);
    assert_eq!(Pdu::strip_header(&[0x31, 7, 0]), &[] as &[u8]);
    assert_eq!(Pdu::strip_header(&[0x10, 7, 1]), &[0x10, 7, 1]);
}

#[test]
fn parked_buffer_goes_first() {
    let (tx, rx) = crossbeam_channel::bounded::<Vec<u8>>(64);
    for i in 0..3u8 {
        tx.send(vec![i]).unwrap();
    }
    let mut q = PollQueue::new(rx);
    let first = q.next().unwrap();
    assert_eq!(first, vec![0]);
    assert_eq!(q.answered(0, first, QueuedWrite::Sent), (PollStep::Next, 1));
    let second = q.next().unwrap();
    assert_eq!(second, vec![1]);
    assert_eq!(q.answered(1, second, QueuedWrite::NoOutbuf), (PollStep::ParkAndRetry, 1));
    assert_eq!(q.next(), Some(vec![1]));
    assert_eq!(q.next(), Some(vec![2]));
    assert_eq!(q.next(), None);
}

#[test]
fn batch_ends_after_eight() {
    let (tx, rx) = crossbeam_channel::bounded::<Vec<u8>>(64);
    for i in 0..10u8 {
        tx.send(vec![i]).unwrap();
    }
    let mut q = PollQueue::new(rx);
    let mut sent = 0;
    let mut step = PollStep::Next;
    while step == PollStep::Next {
        let b = q.next().unwrap();
        let (s, n) = q.answered(sent, b, QueuedWrite::Sent);
        step = s;
        sent = n;
    }
    assert_eq!((step, sent), (PollStep::Retry, 8));
    assert_eq!(q.next(), Some(vec![8]));
}
