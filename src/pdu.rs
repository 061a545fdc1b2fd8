//! Headers that the hosts put in front of virtual channel data.

use vstd::prelude::*;

verus! {

/// Size of the header of a static channel PDU: length (4 bytes), flags (4 bytes).
pub const CHANNEL_PDU_HEADER_SIZE: usize = 8;

/// Flag of the first fragment of a channel PDU.
pub const CHANNEL_FLAG_FIRST: u32 = 0x1;

/// Flag of the last fragment of a channel PDU.
pub const CHANNEL_FLAG_LAST: u32 = 0x2;

/// Flags of a channel PDU that is both the first and the last fragment.
pub const CHANNEL_FLAG_ONLY: u32 = 0x3;

#[derive(Clone, Copy, Debug, PartialEq, Eq, Structural)]
pub enum PduError {
    /// Fewer bytes than a header; holds how many were read.
    NotAPdu(usize),
    /// Flags outside {first, last, first and last}; holds them.
    UnsupportedFlags(u32),
    /// The length field disagrees with the bytes read.
    LengthMismatch(u32, usize),
    /// A dynamic channel PDU cut short.
    Truncated,
    /// A dynamic channel PDU with an invalid channel id size.
    InvalidCbid(u8),
    /// A dynamic channel PDU with a command other than Data; holds the header.
    UnknownCommand(u8),
}

/// A 32-bit little-endian value.
pub open spec fn le32(b: Seq<u8>, at: int) -> int {
    b[at] + 256 * b[at + 1] + 65536 * b[at + 2] + 16777216 * b[at + 3]
}

/// Whether the flags of a channel PDU are accepted.
pub open spec fn flags_ok(flags: u32) -> bool {
    flags == CHANNEL_FLAG_FIRST || flags == CHANNEL_FLAG_LAST || flags == CHANNEL_FLAG_ONLY
}

fn read_le32(b: &[u8], at: usize) -> (r: u32)
    requires
        at + 4 <= b@.len(),
    ensures
        r == le32(b@, at as int),
{
    b[at] as u32 + 256 * (b[at + 1] as u32) + 65536 * (b[at + 2] as u32) + 16777216 * (
    b[at + 3] as u32)
}

/// Checks the header of a static channel PDU of which `data` holds the bytes
/// read, and returns the range `(start, end)` of its payload. Fails when
/// fewer than 8 bytes were read, when the flags are not one of 0x1, 0x2,
/// 0x3, or when the length field differs from the number of payload bytes.
pub fn check_channel_pdu(data: &[u8]) -> (r: Result<(usize, usize), PduError>)
    ensures
        data@.len() < CHANNEL_PDU_HEADER_SIZE ==> r == Err::<(usize, usize), PduError>(
            PduError::NotAPdu(data@.len() as usize),
        ),
        data@.len() >= CHANNEL_PDU_HEADER_SIZE ==> {
            let length = le32(data@, 0);
            let flags = le32(data@, 4) as u32;
            &&& !flags_ok(flags) ==> r == Err::<(usize, usize), PduError>(
                PduError::UnsupportedFlags(flags),
            )
            &&& flags_ok(flags) && length != data@.len() - CHANNEL_PDU_HEADER_SIZE ==> r == Err::<
                (usize, usize),
                PduError,
            >(PduError::LengthMismatch(length as u32, data@.len() as usize))
            &&& flags_ok(flags) && length == data@.len() - CHANNEL_PDU_HEADER_SIZE ==> r == Ok::<
                (usize, usize),
                PduError,
            >((CHANNEL_PDU_HEADER_SIZE, data@.len() as usize))
        },
{
    let read = data.len();
    if read < CHANNEL_PDU_HEADER_SIZE {
        return Err(PduError::NotAPdu(read));
    }
    let length = read_le32(data, 0);
    let flags = read_le32(data, 4);
    if !(flags == CHANNEL_FLAG_FIRST || flags == CHANNEL_FLAG_LAST || flags == CHANNEL_FLAG_ONLY) {
        return Err(PduError::UnsupportedFlags(flags));
    }
    if length as usize != read - CHANNEL_PDU_HEADER_SIZE {
        return Err(PduError::LengthMismatch(length, read));
    }
    Ok((CHANNEL_PDU_HEADER_SIZE, read))
}

/// Channel id of a dynamic channel PDU, in one of three sizes.
#[derive(Clone, Copy, Debug, PartialEq, Eq, Structural)]
pub enum PduChannel {
    Short(u8),
    Medium(u16),
    Large(u32),
}

/// The dynamic channel PDUs that carry data.
#[derive(Clone, Copy, Debug, PartialEq, Eq, Structural)]
pub enum Pdu {
    Data { channel_id: PduChannel },
}

/// Command code of a dynamic channel Data PDU.
pub const DVC_CMD_DATA: u8 = 0x03;

/// What `Pdu::parse` gives for `data`: the PDU and its header size.
pub open spec fn spec_parse(data: Seq<u8>) -> Result<(Pdu, usize), PduError> {
    if data.len() < 1 {
        Err(PduError::Truncated)
    } else {
        let header = data[0];
        let cbid = header % 4;
        let cmd = header / 16;
        if cmd != DVC_CMD_DATA {
            Err(PduError::UnknownCommand(header))
        } else if cbid == 0 {
            if data.len() < 2 {
                Err(PduError::Truncated)
            } else {
                Ok((Pdu::Data { channel_id: PduChannel::Short(data[1]) }, 2))
            }
        } else if cbid == 1 {
            if data.len() < 3 {
                Err(PduError::Truncated)
            } else {
                Ok((Pdu::Data { channel_id: PduChannel::Medium((data[1] + 256 * data[2]) as u16) }, 3))
            }
        } else if cbid == 2 {
            if data.len() < 5 {
                Err(PduError::Truncated)
            } else {
                Ok((Pdu::Data { channel_id: PduChannel::Large(le32(data, 1) as u32) }, 5))
            }
        } else {
            Err(PduError::InvalidCbid(cbid as u8))
        }
    }
}

impl Pdu {
    /// Parses the header of a dynamic channel PDU: one byte with the command
    /// in its high nibble and the channel id size in its two low bits, then
    /// the channel id. Returns the PDU and the size of the header.
    pub fn parse(data: &[u8]) -> (r: Result<(Pdu, usize), PduError>)
        ensures
            r == spec_parse(data@),
    {
        if data.len() < 1 {
            return Err(PduError::Truncated);
        }
        let header = data[0];
        let cbid = header % 4;
        let cmd = header / 16;
        if cmd != DVC_CMD_DATA {
            return Err(PduError::UnknownCommand(header));
        }
        if cbid == 0 {
            if data.len() < 2 {
                return Err(PduError::Truncated);
            }
            Ok((Pdu::Data { channel_id: PduChannel::Short(data[1]) }, 2))
        } else if cbid == 1 {
            if data.len() < 3 {
                return Err(PduError::Truncated);
            }
            let id = data[1] as u16 + 256 * (data[2] as u16);
            Ok((Pdu::Data { channel_id: PduChannel::Medium(id) }, 3))
        } else if cbid == 2 {
            if data.len() < 5 {
                return Err(PduError::Truncated);
            }
            Ok((Pdu::Data { channel_id: PduChannel::Large(read_le32(data, 1)) }, 5))
        } else {
            Err(PduError::InvalidCbid(cbid))
        }
    }

    /// The channel data that a dynamic channel delivered in `buffer`: what
    /// follows the PDU header when one parses, else the whole buffer, taken
    /// as raw data.
    pub fn strip_header(buffer: &[u8]) -> (r: &[u8])
        ensures
            r@ == match spec_parse(buffer@) {
                Ok((_, skip)) => buffer@.subrange(skip as int, buffer@.len() as int),
                Err(_) => buffer@,
            },
    {
        match Pdu::parse(buffer) {
            Ok((_, skip)) => &buffer[skip..buffer.len()],
            Err(_) => buffer,
        }
    }
}

} // verus!
