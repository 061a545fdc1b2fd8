//! Chunk framing: the unit that carries a piece of one logical stream.
//!
//! Wire layout, little-endian: client id (2 bytes), chunk type tag (1 byte),
//! payload length `L` (2 bytes), payload (`L` bytes).

use vstd::prelude::*;
use vstd::string::StringSliceAdditionalSpecFns;
use crate::service::Service;

verus! {

/// Largest single write accepted by a dynamic virtual channel.
pub const PDU_MAX_SIZE: usize = 1600;

/// Worst-case size of the header that the host prefixes to dynamic channel data.
pub const PDU_DVC_HEADER_MAX_SIZE: usize = 10;

/// Largest number of bytes that any kind of PDU can carry.
pub const PDU_DATA_MAX_SIZE: usize = PDU_MAX_SIZE - PDU_DVC_HEADER_MAX_SIZE;

/// Fixed header size of a serialized chunk: client id, type tag, payload length.
pub const SERIALIZE_OVERHEAD: usize = 5;

/// Largest payload a single chunk can carry.
pub const MAX_PAYLOAD_LENGTH: usize = PDU_DATA_MAX_SIZE - SERIALIZE_OVERHEAD;

/// Wire tag of a Start chunk.
pub const ID_START: u8 = 0xF0;

/// Wire tag of a Data chunk.
pub const ID_DATA: u8 = 0xF1;

/// Wire tag of an End chunk.
pub const ID_END: u8 = 0xF2;

/// Identifier of a logical stream, chosen by the side that opens it.
pub type ClientId = u16;

/// Errors of the chunk layer.
#[derive(Debug, Clone, Copy, PartialEq, Eq, Structural)]
pub enum Error {
    /// A payload longer than a chunk can carry; holds its length.
    InvalidPayload(usize),
    /// A type tag that is none of Start, Data, End; holds the tag.
    InvalidChunkType(u8),
    /// A serialized chunk whose size is out of bounds or disagrees with its
    /// length field; holds the size.
    InvalidChunkSize(usize),
    /// An internal queue was closed.
    PipelineBroken,
}

#[derive(Debug, Clone, Copy, PartialEq, Eq, Structural)]
pub enum ChunkType {
    Start,
    Data,
    End,
}

impl ChunkType {
    /// The wire tag of this chunk type.
    pub open spec fn tag(self) -> u8 {
        match self {
            ChunkType::Start => ID_START,
            ChunkType::Data => ID_DATA,
            ChunkType::End => ID_END,
        }
    }

    pub fn serialized(self) -> (r: u8)
        ensures
            r == self.tag(),
    {
        match self {
            ChunkType::Start => ID_START,
            ChunkType::Data => ID_DATA,
            ChunkType::End => ID_END,
        }
    }
}

/// The chunk type that a wire tag names, if any.
pub open spec fn type_of_tag(tag: u8) -> Option<ChunkType> {
    if tag == ID_START {
        Some(ChunkType::Start)
    } else if tag == ID_DATA {
        Some(ChunkType::Data)
    } else if tag == ID_END {
        Some(ChunkType::End)
    } else {
        None
    }
}

/// A 16-bit little-endian value.
pub open spec fn le16(lo: u8, hi: u8) -> int {
    lo + 256 * hi
}

/// The fixed header of a serialized chunk.
pub open spec fn header(client_id: u16, tag: u8, len: nat) -> Seq<u8> {
    seq![
        (client_id % 256) as u8,
        (client_id / 256) as u8,
        tag,
        (len % 256) as u8,
        (len / 256) as u8,
    ]
}

/// The serialized form of a chunk.
pub open spec fn encode(client_id: u16, tag: u8, payload: Seq<u8>) -> Seq<u8> {
    header(client_id, tag, payload.len()) + payload
}

/// The client id field of serialized bytes.
pub open spec fn client_id_of(b: Seq<u8>) -> u16 {
    le16(b[0], b[1]) as u16
}

/// The type tag field of serialized bytes.
pub open spec fn tag_of(b: Seq<u8>) -> u8 {
    b[2]
}

/// The payload length field of serialized bytes.
pub open spec fn length_field(b: Seq<u8>) -> int {
    le16(b[3], b[4])
}

/// The payload of serialized bytes.
pub open spec fn payload_of(b: Seq<u8>) -> Seq<u8> {
    b.subrange(SERIALIZE_OVERHEAD as int, SERIALIZE_OVERHEAD + length_field(b))
}

/// Bytes that form exactly one valid chunk: the size lies within
/// `[SERIALIZE_OVERHEAD, PDU_DATA_MAX_SIZE]` and matches the length field.
pub open spec fn frame_ok(b: Seq<u8>) -> bool {
    &&& SERIALIZE_OVERHEAD <= b.len() <= PDU_DATA_MAX_SIZE
    &&& b.len() == SERIALIZE_OVERHEAD + length_field(b)
}

/// Why bytes are not one chunk: `InvalidChunkSize` when they are not one
/// valid frame, else `InvalidChunkType` when the type tag is unknown; `None`
/// when they are a chunk.
pub open spec fn frame_error(b: Seq<u8>) -> Option<Error> {
    if !frame_ok(b) {
        Some(Error::InvalidChunkSize(b.len() as usize))
    } else if type_of_tag(tag_of(b)) is None {
        Some(Error::InvalidChunkType(tag_of(b)))
    } else {
        None
    }
}

/// Size of the complete chunk at the front of `b`, if `b` holds one whole.
pub open spec fn frame_size(b: Seq<u8>) -> Option<int> {
    if b.len() < SERIALIZE_OVERHEAD {
        None
    } else if b.len() < SERIALIZE_OVERHEAD + length_field(b) {
        None
    } else {
        Some(SERIALIZE_OVERHEAD + length_field(b))
    }
}

/// One unit of a stream: a client id, a type and a payload, kept serialized.
pub struct Chunk {
    content: Vec<u8>,
}

impl View for Chunk {
    type V = Seq<u8>;

    closed spec fn view(&self) -> Seq<u8> {
        self.content@
    }
}

impl Chunk {
    /// Every chunk value is a valid frame with a known type tag.
    pub open spec fn wf(&self) -> bool {
        frame_error(self@) is None
    }

    pub open spec fn spec_client_id(&self) -> u16 {
        client_id_of(self@)
    }

    pub open spec fn spec_tag(&self) -> u8 {
        tag_of(self@)
    }

    pub open spec fn spec_payload(&self) -> Seq<u8> {
        payload_of(self@)
    }

    fn build(chunk_type: ChunkType, client_id: ClientId, payload: &[u8]) -> (r: Chunk)
        requires
            payload@.len() <= MAX_PAYLOAD_LENGTH,
        ensures
            r@ == encode(client_id, chunk_type.tag(), payload@),
            r.wf(),
    {
        let len = payload.len();
        let mut content: Vec<u8> = Vec::with_capacity(SERIALIZE_OVERHEAD + len);
        content.push((client_id % 256) as u8);
        content.push((client_id / 256) as u8);
        content.push(chunk_type.serialized());
        content.push((len % 256) as u8);
        content.push((len / 256) as u8);
        let mut i: usize = 0;
        assert(content@ =~= header(client_id, chunk_type.tag(), len as nat) + payload@.subrange(0, 0));
        while i < len
            invariant
                len == payload@.len(),
                i <= len,
                content@ == header(client_id, chunk_type.tag(), len as nat) + payload@.subrange(0, i as int),
            decreases len - i,
        {
            content.push(payload[i]);
            i = i + 1;
            assert(content@ =~= header(client_id, chunk_type.tag(), len as nat) + payload@.subrange(0, i as int));
        }
        assert(payload@.subrange(0, len as int) =~= payload@);
        let r = Chunk { content };
        assert(r@ == content@);
        r
    }

    /// A chunk of the given type and client carrying `data` (none: empty).
    /// Fails with `InvalidPayload` when the payload exceeds
    /// `MAX_PAYLOAD_LENGTH` bytes.
    pub fn new(chunk_type: ChunkType, client_id: ClientId, data: Option<&[u8]>) -> (r: Result<
        Chunk,
        Error,
    >)
        ensures
            ({
                let payload = match data {
                    Some(d) => d@,
                    None => Seq::<u8>::empty(),
                };
                &&& r is Ok <==> payload.len() <= MAX_PAYLOAD_LENGTH
                &&& r is Ok ==> r->Ok_0@ == encode(client_id, chunk_type.tag(), payload)
                    && r->Ok_0.wf()
                &&& r is Err ==> r->Err_0 == Error::InvalidPayload(payload.len() as usize)
            }),
    {
        match data {
            None => Ok(Self::build(chunk_type, client_id, &[])),
            Some(d) => {
                if d.len() > MAX_PAYLOAD_LENGTH {
                    Err(Error::InvalidPayload(d.len()))
                } else {
                    Ok(Self::build(chunk_type, client_id, d))
                }
            },
        }
    }

    /// The Start chunk that opens a stream of `service`: its payload is the
    /// service name. Fails with `InvalidPayload` when the name is too long.
    pub fn start(client_id: ClientId, service: &Service) -> (r: Result<Chunk, Error>)
        ensures
            r is Ok <==> service.name.spec_bytes().len() <= MAX_PAYLOAD_LENGTH,
            r is Ok ==> r->Ok_0@ == encode(client_id, ID_START, service.name.spec_bytes())
                && r->Ok_0.wf(),
            r is Err ==> r->Err_0 == Error::InvalidPayload(
                service.name.spec_bytes().len() as usize,
            ),
    {
        Self::new(ChunkType::Start, client_id, Some(service.name.as_bytes()))
    }

    /// A Data chunk carrying `data`. Does not split: fails with
    /// `InvalidPayload` when `data` exceeds `MAX_PAYLOAD_LENGTH` bytes.
    pub fn data(client_id: ClientId, data: &[u8]) -> (r: Result<Chunk, Error>)
        ensures
            r is Ok <==> data@.len() <= MAX_PAYLOAD_LENGTH,
            r is Ok ==> r->Ok_0@ == encode(client_id, ID_DATA, data@) && r->Ok_0.wf(),
            r is Ok ==> r->Ok_0.spec_payload() == data@ && r->Ok_0.spec_payload().len()
                <= MAX_PAYLOAD_LENGTH,
            r is Err ==> r->Err_0 == Error::InvalidPayload(data@.len() as usize),
    {
        let r = Self::new(ChunkType::Data, client_id, Some(data));
        proof {
            if data@.len() <= MAX_PAYLOAD_LENGTH {
                lemma_encode_fields(client_id, ID_DATA, data@);
            }
        }
        r
    }

    /// The End chunk of a client: never fails, carries no payload.
    pub fn end(client_id: ClientId) -> (r: Chunk)
        ensures
            r@ == encode(client_id, ID_END, Seq::empty()),
            r.wf(),
    {
        Self::build(ChunkType::End, client_id, &[])
    }

    pub fn client_id(&self) -> (r: ClientId)
        requires
            self.wf(),
        ensures
            r == self.spec_client_id(),
    {
        self.content[0] as u16 + 256 * (self.content[1] as u16)
    }

    /// The type named by the tag; `InvalidChunkType` for an unknown tag.
    pub fn chunk_type(&self) -> (r: Result<ChunkType, Error>)
        requires
            self.wf(),
        ensures
            match type_of_tag(self.spec_tag()) {
                Some(t) => r == Ok::<ChunkType, Error>(t),
                None => r == Err::<ChunkType, Error>(Error::InvalidChunkType(self.spec_tag())),
            },
    {
        let b = self.content[2];
        if b == ID_START {
            Ok(ChunkType::Start)
        } else if b == ID_DATA {
            Ok(ChunkType::Data)
        } else if b == ID_END {
            Ok(ChunkType::End)
        } else {
            Err(Error::InvalidChunkType(b))
        }
    }

    /// The type tag byte.
    pub fn content_tag(&self) -> (r: u8)
        requires
            self.wf(),
        ensures
            r == self.spec_tag(),
    {
        self.content[2]
    }

    pub fn payload_len(&self) -> (r: u16)
        requires
            self.wf(),
        ensures
            r == length_field(self@),
    {
        self.content[3] as u16 + 256 * (self.content[4] as u16)
    }

    /// The size of the complete chunk at the front of `data`; `None` when
    /// fewer than `SERIALIZE_OVERHEAD` bytes, or fewer than the length field
    /// announces, are there.
    pub fn can_deserialize_from(data: &[u8]) -> (r: Option<usize>)
        ensures
            match frame_size(data@) {
                Some(n) => r == Some(n as usize),
                None => r is None,
            },
    {
        let len = data.len();
        if len < SERIALIZE_OVERHEAD {
            return None;
        }
        let payload_len = data[3] as usize + 256 * (data[4] as usize);
        let expected_len = SERIALIZE_OVERHEAD + payload_len;
        if len < expected_len {
            return None;
        }
        Some(expected_len)
    }

    /// A chunk made from a copy of `data`; see `deserialize`.
    pub fn deserialize_from(data: &[u8]) -> (r: Result<Chunk, Error>)
        ensures
            r is Ok <==> frame_error(data@) is None,
            r is Ok ==> r->Ok_0@ == data@ && r->Ok_0.wf(),
            r is Err ==> frame_error(data@) == Some(r->Err_0),
    {
        let content = vstd::slice::slice_to_vec(data);
        Self::deserialize(content)
    }

    /// A chunk made of `content`, which must be exactly one valid frame with
    /// a known type tag: otherwise `InvalidChunkSize` with the size of
    /// `content`, or `InvalidChunkType` with the tag.
    pub fn deserialize(content: Vec<u8>) -> (r: Result<Chunk, Error>)
        ensures
            r is Ok <==> frame_error(content@) is None,
            r is Ok ==> r->Ok_0@ == content@ && r->Ok_0.wf(),
            r is Err ==> frame_error(content@) == Some(r->Err_0),
    {
        let len = content.len();
        if len < SERIALIZE_OVERHEAD || len > PDU_DATA_MAX_SIZE {
            return Err(Error::InvalidChunkSize(len));
        }
        let payload_len = content[3] as usize + 256 * (content[4] as usize);
        if SERIALIZE_OVERHEAD + payload_len != len {
            return Err(Error::InvalidChunkSize(len));
        }
        let tag = content[2];
        if tag != ID_START && tag != ID_DATA && tag != ID_END {
            return Err(Error::InvalidChunkType(tag));
        }
        Ok(Chunk { content })
    }

    pub fn serialized_overhead() -> (r: usize)
        ensures
            r == SERIALIZE_OVERHEAD,
    {
        SERIALIZE_OVERHEAD
    }

    pub fn max_payload_length() -> (r: usize)
        ensures
            r == MAX_PAYLOAD_LENGTH,
    {
        MAX_PAYLOAD_LENGTH
    }

    pub fn payload(&self) -> (r: &[u8])
        requires
            self.wf(),
        ensures
            r@ == self.spec_payload(),
    {
        let len = self.payload_len() as usize;
        let s = self.content.as_slice();
        &s[SERIALIZE_OVERHEAD..SERIALIZE_OVERHEAD + len]
    }

    /// The serialized bytes of the chunk.
    pub fn serialized(self) -> (r: Vec<u8>)
        ensures
            r@ == self@,
    {
        self.content
    }
}

/// What travels on the internal queues between the dispatcher and the
/// transport pumps.
pub enum Message {
    Chunk(Chunk),
    Shutdown,
}

/// The fields of a serialized chunk read back as they were written.
pub proof fn lemma_encode_fields(client_id: u16, tag: u8, payload: Seq<u8>)
    requires
        payload.len() <= MAX_PAYLOAD_LENGTH,
    ensures
        frame_ok(encode(client_id, tag, payload)),
        client_id_of(encode(client_id, tag, payload)) == client_id,
        tag_of(encode(client_id, tag, payload)) == tag,
        type_of_tag(tag) is Some ==> frame_error(encode(client_id, tag, payload)) is None,
        payload_of(encode(client_id, tag, payload)) == payload,
        frame_size(encode(client_id, tag, payload)) == Some(encode(client_id, tag, payload).len() as int),
{
    let b = encode(client_id, tag, payload);
    assert(b[0] == (client_id % 256) as u8);
    assert(b[1] == (client_id / 256) as u8);
    assert(b[3] == (payload.len() % 256) as u8);
    assert(b[4] == (payload.len() / 256) as u8);
    assert(payload_of(b) =~= payload);
}

/// Round trip: the serialized form of any valid chunk deserializes, and
/// yields a chunk with the same bytes, hence the same client id, type and
/// payload.
pub proof fn lemma_round_trip(c: Chunk)
    requires
        c.wf(),
    ensures
        frame_ok(c@),
        frame_error(c@) is None,
        frame_size(c@) == Some(c@.len() as int),
        c@ == encode(c.spec_client_id(), c.spec_tag(), c.spec_payload()),
{
    let b = c@;
    let e = encode(c.spec_client_id(), c.spec_tag(), c.spec_payload());
    assert(e[0] == b[0]);
    assert(e[1] == b[1]);
    assert(e[3] == b[3]);
    assert(e[4] == b[4]);
    assert(e =~= b);
}

} // verus!
