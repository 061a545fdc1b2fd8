use soxy::api::{Chunk, ChunkType};
use soxy::stream::{close_transition, CloseMode, Stream, StreamError, StreamState};

fn data_bytes(n: usize) -> Vec<u8> {
    (0..n).map(|i| (i * 7 % 256) as u8).collect()
}

fn payload_sizes(out: &[Chunk]) -> Vec<usize> {
    out.iter().map(|c| c.payload().len()).collect()
}

fn all_payloads(out: &[Chunk]) -> Vec<u8> {
    let mut v = Vec::new();
    for c in out {
        v.extend_from_slice(c.payload());
    }
    v
}

fn read_all(peer: &mut Stream, chunks: Vec<Chunk>, max: usize) -> Vec<u8> {
    let mut got = Vec::new();
    for c in chunks {
        got.extend(peer.receive(c, max));
        while let Some(more) = peer.read_buffered(max) {
            if more.is_empty() {
                break;
            }
            got.extend(more);
        }
    }
    got
}

#[test]
fn empty_write_and_flush_are_no_ops() {
    let mut s = Stream::new(1);
    let mut out = Vec::new();
    assert_eq!(s.write(&[], &mut out), Ok(0));
    assert!(out.is_empty());
    assert_eq!(s.flush(&mut out), Ok(()));
    assert!(out.is_empty());
}

#[test]
fn write_of_one_full_chunk() {
    let mut s = Stream::new(1);
    let mut out = Vec::new();
    let data = data_bytes(1585);
    assert_eq!(s.write(&data, &mut out), Ok(1585));
    assert_eq!(payload_sizes(&out), vec![1585]);
    assert_eq!(s.flush(&mut out), Ok(()));
    assert_eq!(out.len(), 1);
    assert_eq!(out[0].chunk_type(), Ok(ChunkType::Data));
    assert_eq!(out[0].client_id(), 1);
    assert_eq!(all_payloads(&out), data);
}

#[test]
fn write_of_one_more_than_a_chunk() {
    let mut s = Stream::new(1);
    let mut out = Vec::new();
    let data = data_bytes(1586);
    assert_eq!(s.write(&data, &mut out), Ok(1586));
    assert_eq!(payload_sizes(&out), vec![1585]);
    assert_eq!(s.flush(&mut out), Ok(()));
    assert_eq!(payload_sizes(&out), vec![1585, 1]);
    assert_eq!(all_payloads(&out), data);
}

#[test]
fn chunked_write_of_5000_bytes() {
    let mut s = Stream::new(4);
    let mut out = Vec::new();
    let data = data_bytes(5000);
    assert_eq!(s.write(&data, &mut out), Ok(5000));
    assert_eq!(s.flush(&mut out), Ok(()));
    assert_eq!(payload_sizes(&out), vec![1585, 1585, 1585, 245]);
    assert!(out.iter().all(|c| c.client_id() == 4 && c.chunk_type() == Ok(ChunkType::Data)));
    let mut peer = Stream::new(4);
    let got = read_all(&mut peer, out, 5000);
    assert_eq!(got.len(), 5000);
    assert_eq!(got, data);
}

#[test]
fn small_writes_are_coalesced() {
    let mut s = Stream::new(2);
    let mut out = Vec::new();
    assert_eq!(s.write(b"ab", &mut out), Ok(2));
    assert_eq!(s.write(b"cd", &mut out), Ok(2));
    assert!(out.is_empty());
    assert_eq!(s.flush(&mut out), Ok(()));
    assert_eq!(out.len(), 1);
    assert_eq!(out[0].payload(), b"abcd");
}

#[test]
fn bytes_arrive_in_order_through_small_reads() {
    let mut s = Stream::new(3);
    let mut out = Vec::new();
    let data = data_bytes(4000);
    for piece in data.chunks(333) {
        s.write(piece, &mut out).unwrap();
    }
    s.flush(&mut out).unwrap();
    let mut peer = Stream::new(3);
    assert_eq!(read_all(&mut peer, out, 100), data);
}

#[test]
fn partial_reads_of_a_chunk() {
    let mut s = Stream::new(5);
    let c = Chunk::data(5, b"0123456789").unwrap();
    assert_eq!(s.read_buffered(4), None);
    assert!(!s.has_unread());
    assert_eq!(s.receive(c, 4), b"0123".to_vec());
    assert!(s.has_unread());
    assert_eq!(s.read_buffered(4), Some(b"4567".to_vec()));
    assert_eq!(s.read_buffered(4), Some(b"89".to_vec()));
    assert!(!s.has_unread());
    assert_eq!(s.read_buffered(4), None);
}

#[test]
fn empty_data_chunk_reads_nothing() {
    let mut s = Stream::new(5);
    let c = Chunk::data(5, b"").unwrap();
    assert_eq!(s.receive(c, 10), Vec::<u8>::new());
    assert_eq!(s.state(), StreamState::ReadWrite);
}

#[test]
fn shutdown_table() {
    assert_eq!(
        close_transition(StreamState::ReadWrite, CloseMode::Read),
        (StreamState::WriteOnly, false)
    );
    assert_eq!(
        close_transition(StreamState::ReadWrite, CloseMode::Write),
        (StreamState::ReadOnly, true)
    );
    assert_eq!(
        close_transition(StreamState::ReadWrite, CloseMode::Both),
        (StreamState::Closed, true)
    );
    assert_eq!(
        close_transition(StreamState::ReadOnly, CloseMode::Read),
        (StreamState::Closed, false)
    );
    assert_eq!(
        close_transition(StreamState::ReadOnly, CloseMode::Write),
        (StreamState::Closed, true)
    );
    assert_eq!(
        close_transition(StreamState::ReadOnly, CloseMode::Both),
        (StreamState::Closed, true)
    );
    assert_eq!(
        close_transition(StreamState::WriteOnly, CloseMode::Read),
        (StreamState::WriteOnly, false)
    );
    assert_eq!(
        close_transition(StreamState::WriteOnly, CloseMode::Write),
        (StreamState::WriteOnly, false)
    );
    assert_eq!(
        close_transition(StreamState::WriteOnly, CloseMode::Both),
        (StreamState::Closed, false)
    );
    assert_eq!(
        close_transition(StreamState::Closed, CloseMode::Read),
        (StreamState::Closed, false)
    );
    assert_eq!(
        close_transition(StreamState::Closed, CloseMode::Write),
        (StreamState::Closed, false)
    );
    assert_eq!(
        close_transition(StreamState::Closed, CloseMode::Both),
        (StreamState::Closed, false)
    );
}

#[test]
fn half_close() {
    let mut a = Stream::new(8);
    let mut b = Stream::new(8);
    let mut out = Vec::new();
    a.write(b"last words", &mut out).unwrap();
    a.close(CloseMode::Write, &mut out);
    assert_eq!(a.state(), StreamState::ReadOnly);
    assert_eq!(out.len(), 2);
    assert_eq!(out[0].payload(), b"last words");
    assert_eq!(out[1].chunk_type(), Ok(ChunkType::End));
    assert_eq!(a.write(b"more", &mut out), Err(StreamError::BrokenPipe));
    let mut chunks = out.into_iter();
    assert_eq!(b.receive(chunks.next().unwrap(), 100), b"last words".to_vec());
    assert_eq!(b.receive(chunks.next().unwrap(), 100), Vec::<u8>::new());
    assert_eq!(b.state(), StreamState::WriteOnly);
    assert_eq!(b.read_buffered(100), Some(Vec::new()));
    let mut back = Vec::new();
    assert_eq!(b.write(b"reply", &mut back), Ok(5));
    b.flush(&mut back).unwrap();
    assert_eq!(back.len(), 1);
    assert_eq!(a.receive(back.pop().unwrap(), 100), b"reply".to_vec());
}

#[test]
fn end_is_sent_once() {
    let mut s = Stream::new(6);
    let mut out = Vec::new();
    s.close(CloseMode::Write, &mut out);
    s.close(CloseMode::Write, &mut out);
    s.close(CloseMode::Both, &mut out);
    s.close(CloseMode::Both, &mut out);
    let ends = out.iter().filter(|c| c.chunk_type() == Ok(ChunkType::End)).count();
    assert_eq!(ends, 1);
    assert_eq!(s.state(), StreamState::Closed);
    assert_eq!(s.write(b"x", &mut out), Err(StreamError::ConnectionAborted));
    assert_eq!(s.read_buffered(10), Some(Vec::new()));
}

#[test]
fn drop_flushes_then_ends() {
    let mut s = Stream::new(11);
    let mut out = Vec::new();
    s.write(b"pending", &mut out).unwrap();
    s.close(CloseMode::Both, &mut out);
    assert_eq!(out.len(), 2);
    assert_eq!(out[0].payload(), b"pending");
    assert_eq!(out.pop().unwrap().serialized(), vec![11, 0, 0xF2, 0, 0]);
}

#[test]
fn peer_end_then_drop_sends_no_end() {
    let mut s = Stream::new(12);
    let mut out = Vec::new();
    assert_eq!(s.receive(Chunk::end(12), 10), Vec::<u8>::new());
    assert_eq!(s.state(), StreamState::WriteOnly);
    s.close(CloseMode::Both, &mut out);
    assert_eq!(s.state(), StreamState::Closed);
    assert!(out.is_empty());
}

#[test]
fn closing_reads_drops_unread_bytes() {
    let mut s = Stream::new(13);
    let mut out = Vec::new();
    assert_eq!(s.receive(Chunk::data(13, b"abcdef").unwrap(), 2), b"ab".to_vec());
    s.close(CloseMode::Read, &mut out);
    assert!(out.is_empty());
    assert_eq!(s.state(), StreamState::WriteOnly);
    assert_eq!(s.read_buffered(10), Some(Vec::new()));
    assert_eq!(s.client_id(), 13);
}
