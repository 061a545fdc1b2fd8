//! Building blocks of the service sub-protocols: one-byte tags, 16-bit codes
//! and strings prefixed by their 64-bit little-endian byte length.
//!
//! Encoders append to a byte buffer; decoders read from the front of a byte
//! buffer and say how many bytes they used, or that more bytes are needed.

use vstd::prelude::*;
use vstd::bytes::{spec_u16_from_le_bytes, spec_u16_to_le_bytes, spec_u64_from_le_bytes, spec_u64_to_le_bytes};
use vstd::utf8::{decode_utf8, encode_utf8, valid_utf8};
use vstd::string::StringSliceAdditionalSpecFns;

verus! {

broadcast use vstd::utf8::group_utf8_lib;

/// Why bytes could not be decoded.
#[derive(Clone, Copy, Debug, PartialEq, Eq, Structural)]
pub enum DecodeError {
    /// The bytes end before the message does: more must be read.
    Incomplete,
    /// A tag that no message of the protocol has; holds it.
    InvalidTag(u8),
}

/// The string that `String::from_utf8_lossy` makes of some bytes.
pub uninterp spec fn utf8_lossy(b: Seq<u8>) -> Seq<char>;

/// Relies on String::from_utf8_lossy (then `to_string`): the bytes decoded
/// as UTF-8, each invalid sequence replaced by U+FFFD; valid UTF-8 is
/// returned unchanged.
#[verifier::external_body]
pub(crate) fn string_from_utf8_lossy(b: &[u8]) -> (r: String)
    ensures
        r@ == utf8_lossy(b@),
        valid_utf8(b@) ==> r@ == decode_utf8(b@),
{
    String::from_utf8_lossy(b).to_string()
}

/// The text of the raw bytes of a string: their UTF-8 decoding when they are
/// valid UTF-8, else what `String::from_utf8_lossy` makes of them.
pub open spec fn text_of(raw: Seq<u8>) -> Seq<char> {
    if valid_utf8(raw) {
        decode_utf8(raw)
    } else {
        utf8_lossy(raw)
    }
}

/// A string on the wire: its UTF-8 length as 8 little-endian bytes, then its
/// UTF-8 bytes.
pub open spec fn string_wire(s: Seq<char>) -> Seq<u8> {
    spec_u64_to_le_bytes(encode_utf8(s).len() as u64) + encode_utf8(s)
}

/// A 16-bit code on the wire.
pub open spec fn u16_wire(c: u16) -> Seq<u8> {
    spec_u16_to_le_bytes(c)
}

/// The raw bytes of the string that starts at `at`, and where it ends; `None`
/// when `data` ends before it does.
pub open spec fn read_string(data: Seq<u8>, at: int) -> Option<(Seq<u8>, int)> {
    if data.len() < at + 8 {
        None
    } else {
        let len = spec_u64_from_le_bytes(data.subrange(at, at + 8));
        if data.len() < at + 8 + len {
            None
        } else {
            Some((data.subrange(at + 8, at + 8 + len), at + 8 + len))
        }
    }
}

/// The 16-bit code at `at`, if `data` holds it whole.
pub open spec fn read_u16(data: Seq<u8>, at: int) -> Option<u16> {
    if data.len() < at + 2 {
        None
    } else {
        Some(spec_u16_from_le_bytes(data.subrange(at, at + 2)))
    }
}

/// Appends the wire form of `s` to `out`.
pub fn serialize_string(out: &mut Vec<u8>, s: &str)
    ensures
        final(out)@ == old(out)@ + string_wire(s@),
{
    let bytes = s.as_bytes();
    let len = vstd::bytes::u64_to_le_bytes(bytes.len() as u64);
    append_bytes(out, len.as_slice());
    append_bytes(out, bytes);
    proof {
        assert(bytes@ == encode_utf8(s@));
        assert(final(out)@ =~= old(out)@ + string_wire(s@));
    }
}

/// Appends the wire form of `c` to `out`.
pub fn serialize_u16(out: &mut Vec<u8>, c: u16)
    ensures
        final(out)@ == old(out)@ + u16_wire(c),
{
    let b = vstd::bytes::u16_to_le_bytes(c);
    append_bytes(out, b.as_slice());
}

/// Appends `b` to `out`.
pub fn append_bytes(out: &mut Vec<u8>, b: &[u8])
    ensures
        final(out)@ == old(out)@ + b@,
{
    let ghost start = out@;
    let mut i: usize = 0;
    while i < b.len()
        invariant
            i <= b@.len(),
            out@ == start + b@.subrange(0, i as int),
        decreases b@.len() - i,
    {
        out.push(b[i]);
        i = i + 1;
        assert(out@ =~= start + b@.subrange(0, i as int));
    }
    assert(b@.subrange(0, i as int) =~= b@);
}

/// Reads the string at `at`, decoding its bytes as `String::from_utf8_lossy`
/// does; returns it and where it ends, or `Incomplete`.
pub fn deserialize_string(data: &[u8], at: usize) -> (r: Result<(String, usize), DecodeError>)
    requires
        at <= data@.len(),
    ensures
        match read_string(data@, at as int) {
            None => r == Err::<(String, usize), DecodeError>(DecodeError::Incomplete),
            Some((raw, end)) => r is Ok && r->Ok_0.0@ == text_of(raw) && r->Ok_0.1 == end,
        },
{
    if data.len() - at < 8 {
        return Err(DecodeError::Incomplete);
    }
    let len = vstd::bytes::u64_from_le_bytes(&data[at..at + 8]);
    if ((data.len() - at - 8) as u64) < len {
        return Err(DecodeError::Incomplete);
    }
    let len = len as usize;
    let raw = &data[at + 8..at + 8 + len];
    Ok((string_from_utf8_lossy(raw), at + 8 + len))
}

/// Reads the 16-bit code at `at`, or `Incomplete`.
pub fn deserialize_u16(data: &[u8], at: usize) -> (r: Result<u16, DecodeError>)
    requires
        at <= data@.len(),
    ensures
        match read_u16(data@, at as int) {
            None => r == Err::<u16, DecodeError>(DecodeError::Incomplete),
            Some(c) => r == Ok::<u16, DecodeError>(c),
        },
{
    if data.len() - at < 2 {
        return Err(DecodeError::Incomplete);
    }
    Ok(vstd::bytes::u16_from_le_bytes(&data[at..at + 2]))
}

/// A string read back from its wire form, whatever follows it, is the
/// string that was written.
pub proof fn lemma_string_round_trip(s: Seq<char>, at: int, before: Seq<u8>, after: Seq<u8>)
    requires
        before.len() == at,
        encode_utf8(s).len() < 0x1_0000_0000_0000_0000,
    ensures
        read_string(before + string_wire(s) + after, at) == Some(
            (encode_utf8(s), at + string_wire(s).len()),
        ),
        text_of(encode_utf8(s)) == s,
{
    vstd::bytes::lemma_auto_spec_u64_to_from_le_bytes();
    let e = encode_utf8(s);
    let d = before + string_wire(s) + after;
    let lenb = spec_u64_to_le_bytes(e.len() as u64);
    assert(d.subrange(at, at + 8) =~= lenb);
    assert(d.subrange(at + 8, at + 8 + e.len()) =~= e);
}

/// A 16-bit code read back from its wire form is the code that was written.
pub proof fn lemma_u16_round_trip(c: u16, at: int, before: Seq<u8>, after: Seq<u8>)
    requires
        before.len() == at,
    ensures
        read_u16(before + u16_wire(c) + after, at) == Some(c),
        u16_wire(c).len() == 2,
{
    vstd::bytes::lemma_auto_spec_u16_to_from_le_bytes();
    let d = before + u16_wire(c) + after;
    assert(d.subrange(at, at + 2) =~= u16_wire(c));
}

/// A tag followed by a string, read back whatever follows: the tag, then
/// the string's bytes, which end where the tagged string ends and decode to
/// the string.
pub proof fn lemma_tagged_string_round_trip(tag: u8, s: Seq<char>, rest: Seq<u8>)
    requires
        encode_utf8(s).len() < 0x1_0000_0000_0000_0000,
    ensures
        (seq![tag] + string_wire(s) + rest).len() > 0,
        (seq![tag] + string_wire(s) + rest)[0] == tag,
        read_string(seq![tag] + string_wire(s) + rest, 1) == Some(
            (encode_utf8(s), (seq![tag] + string_wire(s)).len() as int),
        ),
        text_of(encode_utf8(s)) == s,
{
    lemma_string_round_trip(s, 1, seq![tag], rest);
}

} // verus!
