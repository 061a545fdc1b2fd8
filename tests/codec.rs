use soxy::api::{Chunk, ChunkType, Error, MAX_PAYLOAD_LENGTH, PDU_DATA_MAX_SIZE};
use soxy::reassembly::Reassembler;
use soxy::service::lookup;

fn data_bytes(n: usize) -> Vec<u8> {
    (0..n).map(|i| (i % 251) as u8).collect()
}

#[test]
fn start_chunk_carries_service_name() {
    let service = lookup("command").unwrap();
    let c = Chunk::start(1, &service).unwrap();
    let mut expected = vec![1u8, 0, 0xF0, 7, 0];
    expected.extend_from_slice(b"command");
    assert_eq!(c.serialized(), expected);
}

#[test]
fn data_chunk_layout() {
    let c = Chunk::data(0x1234, b"abc").unwrap();
    assert_eq!(c.client_id(), 0x1234);
    assert_eq!(c.chunk_type(), Ok(ChunkType::Data));
    assert_eq!(c.payload(), b"abc");
    assert_eq!(c.payload_len(), 3);
    assert_eq!(c.serialized(), vec![0x34, 0x12, 0xF1, 3, 0, b'a', b'b', b'c']);
}

#[test]
fn end_chunk_layout() {
    let c = Chunk::end(9);
    assert_eq!(c.chunk_type(), Ok(ChunkType::End));
    assert_eq!(c.payload(), b"");
    assert_eq!(c.serialized(), vec![9, 0, 0xF2, 0, 0]);
}

#[test]
fn data_chunk_payload_bounds() {
    let full = data_bytes(MAX_PAYLOAD_LENGTH);
    let c = Chunk::data(3, &full).unwrap();
    assert_eq!(c.payload().len(), 1585);
    assert!(c.payload().len() <= Chunk::max_payload_length());
    let too_big = data_bytes(MAX_PAYLOAD_LENGTH + 1);
    match Chunk::data(3, &too_big) {
        Err(e) => assert_eq!(e, Error::InvalidPayload(1586)),
        Ok(_) => panic!("a payload of 1586 bytes was accepted"),
    }
}

#[test]
fn new_without_payload_is_empty() {
    let c = Chunk::new(ChunkType::Start, 2, None).unwrap();
    assert_eq!(c.serialized(), vec![2, 0, 0xF0, 0, 0]);
}

#[test]
fn sizes() {
    assert_eq!(Chunk::serialized_overhead(), 5);
    assert_eq!(Chunk::max_payload_length(), 1585);
    assert_eq!(PDU_DATA_MAX_SIZE, 1590);
}

#[test]
fn round_trip() {
    let payloads: Vec<Vec<u8>> = vec![vec![], b"x".to_vec(), data_bytes(700), data_bytes(1585)];
    for (i, p) in payloads.iter().enumerate() {
        let id = (i as u16) * 4099;
        let c = Chunk::data(id, p).unwrap();
        let bytes = c.serialized();
        let d = Chunk::deserialize(bytes.clone()).unwrap();
        assert_eq!(d.client_id(), id);
        assert_eq!(d.chunk_type(), Ok(ChunkType::Data));
        assert_eq!(d.payload(), &p[..]);
        assert_eq!(d.serialized(), bytes);
    }
    let e = Chunk::end(65535);
    let d = Chunk::deserialize_from(&e.serialized()).unwrap();
    assert_eq!(d.client_id(), 65535);
    assert_eq!(d.chunk_type(), Ok(ChunkType::End));
}

#[test]
fn can_deserialize_boundaries() {
    assert_eq!(Chunk::can_deserialize_from(&[1, 0, 0xF1, 0]), None);
    assert_eq!(Chunk::can_deserialize_from(&[1, 0, 0xF1, 0, 0]), Some(5));
    assert_eq!(Chunk::can_deserialize_from(&[]), None);
    assert_eq!(Chunk::can_deserialize_from(&[1, 0, 0xF1, 3, 0, 1]), None);
    assert_eq!(Chunk::can_deserialize_from(&[1, 0, 0xF1, 3, 0, 1, 2, 3]), Some(8));
    assert_eq!(Chunk::can_deserialize_from(&[1, 0, 0xF1, 3, 0, 1, 2, 3, 9, 9]), Some(8));
    assert_eq!(Chunk::can_deserialize_from(&[1, 0, 0xF1, 0, 1]), None);
}

#[test]
fn deserialize_rejects_bad_sizes() {
    match Chunk::deserialize(vec![1, 0, 0xF1, 0]) {
        Err(e) => assert_eq!(e, Error::InvalidChunkSize(4)),
        Ok(_) => panic!("accepted 4 bytes"),
    }
    match Chunk::deserialize(vec![1, 0, 0xF1, 5, 0, 1]) {
        Err(e) => assert_eq!(e, Error::InvalidChunkSize(6)),
        Ok(_) => panic!("accepted a wrong length field"),
    }
    let mut big = vec![1u8, 0, 0xF1, 0x32, 0x06];
    big.extend(data_bytes(1586));
    assert_eq!(big.len(), 1591);
    match Chunk::deserialize(big) {
        Err(e) => assert_eq!(e, Error::InvalidChunkSize(1591)),
        Ok(_) => panic!("accepted 1591 bytes"),
    }
}

#[test]
fn unknown_type_tag() {
    match Chunk::deserialize(vec![1, 0, 0x42, 0, 0]) {
        Err(e) => assert_eq!(e, Error::InvalidChunkType(0x42)),
        Ok(_) => panic!("accepted an unknown type tag"),
    }
    match Chunk::deserialize_from(&[1, 0, 0xF3, 1, 0, 9]) {
        Err(e) => assert_eq!(e, Error::InvalidChunkType(0xF3)),
        Ok(_) => panic!("accepted an unknown type tag"),
    }
    match Chunk::deserialize(vec![1, 0, 0x42, 1, 0]) {
        Err(e) => assert_eq!(e, Error::InvalidChunkSize(5)),
        Ok(_) => panic!("accepted a wrong length field"),
    }
    let c = Chunk::deserialize(vec![1, 0, 0xF0, 0, 0]).unwrap();
    assert_eq!(c.content_tag(), 0xF0);
}

#[test]
fn scan_stops_at_unknown_type() {
    let a = Chunk::data(1, b"ok").unwrap().serialized();
    let mut buf = a.clone();
    buf.extend_from_slice(&[2, 0, 0x77, 1, 0, 5]);
    buf.extend_from_slice(&Chunk::end(3).serialized());
    let mut r = Reassembler::new();
    let mut out = Vec::new();
    assert_eq!(r.push(&buf, &mut out), Err(Error::InvalidChunkType(0x77)));
    assert_eq!(out.len(), 1);
    assert_eq!(out[0].payload(), b"ok");
}

#[test]
fn chunk_type_tags() {
    assert_eq!(ChunkType::Start.serialized(), 0xF0);
    assert_eq!(ChunkType::Data.serialized(), 0xF1);
    assert_eq!(ChunkType::End.serialized(), 0xF2);
}

#[test]
fn scan_yields_whole_chunks_and_keeps_tail() {
    let a = Chunk::data(1, b"hello").unwrap().serialized();
    let b = Chunk::end(2).serialized();
    let c = Chunk::data(3, &data_bytes(1585)).unwrap().serialized();
    let d = Chunk::data(4, b"tail!").unwrap().serialized();
    let mut buf = Vec::new();
    buf.extend_from_slice(&a);
    buf.extend_from_slice(&b);
    buf.extend_from_slice(&c);
    buf.extend_from_slice(&d[..3]);
    let mut r = Reassembler::new();
    let mut out = Vec::new();
    assert_eq!(r.push(&buf, &mut out), Ok(()));
    assert_eq!(out.len(), 3);
    assert!(!r.is_empty());
    let got: Vec<Vec<u8>> = out.into_iter().map(|c| c.serialized()).collect();
    assert_eq!(got, vec![a, b, c]);
    let mut out = Vec::new();
    assert_eq!(r.push(&d[3..], &mut out), Ok(()));
    assert_eq!(out.len(), 1);
    assert_eq!(out[0].payload(), b"tail!");
    assert!(r.is_empty());
}

#[test]
fn scan_byte_by_byte() {
    let a = Chunk::data(7, b"split me").unwrap().serialized();
    let mut r = Reassembler::new();
    let mut out = Vec::new();
    for (i, byte) in a.iter().enumerate() {
        assert_eq!(r.push(&[*byte], &mut out), Ok(()));
        if i + 1 < a.len() {
            assert!(out.is_empty());
        }
    }
    assert_eq!(out.len(), 1);
    assert_eq!(out[0].payload(), b"split me");
    assert!(r.is_empty());
}

#[test]
fn scan_of_only_a_tail() {
    let mut r = Reassembler::new();
    let mut out = Vec::new();
    assert_eq!(r.push(&[5, 0, 0xF1, 1], &mut out), Ok(()));
    assert!(out.is_empty());
    assert!(!r.is_empty());
}

#[test]
fn scan_stops_at_oversized_frame() {
    let a = Chunk::end(1).serialized();
    let mut buf = a.clone();
    buf.extend_from_slice(&[2, 0, 0xF1, 0xD0, 0x07]);
    buf.extend(data_bytes(2000));
    let mut r = Reassembler::new();
    let mut out = Vec::new();
    assert_eq!(r.push(&buf, &mut out), Err(Error::InvalidChunkSize(2005)));
    assert_eq!(out.len(), 1);
    assert_eq!(out[0].client_id(), 1);
    assert!(r.is_empty());
}
