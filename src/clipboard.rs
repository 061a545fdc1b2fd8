//! Messages of the clipboard service.

use vstd::prelude::*;
use crate::wire::{
    append_bytes, deserialize_string, lemma_tagged_string_round_trip, read_string,
    serialize_string, string_wire, text_of, DecodeError,
};
use vstd::utf8::encode_utf8;

verus! {

pub const ID_READ: u8 = 0x0;

pub const ID_WRITE_TEXT: u8 = 0x1;

pub const ID_TEXT: u8 = 0x0;

pub const ID_FAILED: u8 = 0x1;

pub const ID_WRITE_DONE: u8 = 0x2;

/// What the frontend asks of the clipboard.
pub enum Command {
    Read,
    WriteText(String),
}

/// What the backend answers.
pub enum Response {
    Text(String),
    Failed,
    WriteDone,
}

impl Command {
    /// The wire form of the command.
    pub open spec fn wire(&self) -> Seq<u8> {
        match self {
            Command::Read => seq![ID_READ],
            Command::WriteText(t) => seq![ID_WRITE_TEXT] + string_wire(t@),
        }
    }

    /// Appends the wire form of the command to `out`.
    pub fn send(&self, out: &mut Vec<u8>)
        ensures
            final(out)@ == old(out)@ + self.wire(),
    {
        match self {
            Command::Read => {
                append_bytes(out, &[ID_READ]);
            },
            Command::WriteText(t) => {
                append_bytes(out, &[ID_WRITE_TEXT]);
                serialize_string(out, t.as_str());
                assert(final(out)@ =~= old(out)@ + self.wire());
            },
        }
    }

    /// Reads a command from the front of `data`; returns it and the number of
    /// bytes it took.
    pub fn receive(data: &[u8]) -> (r: Result<(Command, usize), DecodeError>)
        ensures
            data@.len() == 0 ==> r == Err::<(Command, usize), DecodeError>(DecodeError::Incomplete),
            data@.len() > 0 && data@[0] == ID_READ ==> r matches Ok((Command::Read, 1)),
            data@.len() > 0 && data@[0] == ID_WRITE_TEXT ==> match read_string(data@, 1) {
                None => r == Err::<(Command, usize), DecodeError>(DecodeError::Incomplete),
                Some((raw, end)) => match r {
                    Ok((Command::WriteText(t), n)) => t@ == text_of(raw) && n == end,
                    _ => false,
                },
            },
            data@.len() > 0 && data@[0] != ID_READ && data@[0] != ID_WRITE_TEXT ==> r == Err::<
                (Command, usize),
                DecodeError,
            >(DecodeError::InvalidTag(data@[0])),
    {
        if data.len() == 0 {
            return Err(DecodeError::Incomplete);
        }
        let tag = data[0];
        if tag == ID_READ {
            Ok((Command::Read, 1))
        } else if tag == ID_WRITE_TEXT {
            match deserialize_string(data, 1) {
                Err(e) => Err(e),
                Ok((t, end)) => Ok((Command::WriteText(t), end)),
            }
        } else {
            Err(DecodeError::InvalidTag(tag))
        }
    }
}

impl Response {
    /// The wire form of the response.
    pub open spec fn wire(&self) -> Seq<u8> {
        match self {
            Response::Text(t) => seq![ID_TEXT] + string_wire(t@),
            Response::Failed => seq![ID_FAILED],
            Response::WriteDone => seq![ID_WRITE_DONE],
        }
    }

    /// Appends the wire form of the response to `out`.
    pub fn send(&self, out: &mut Vec<u8>)
        ensures
            final(out)@ == old(out)@ + self.wire(),
    {
        match self {
            Response::Text(t) => {
                append_bytes(out, &[ID_TEXT]);
                serialize_string(out, t.as_str());
                assert(final(out)@ =~= old(out)@ + self.wire());
            },
            Response::Failed => {
                append_bytes(out, &[ID_FAILED]);
            },
            Response::WriteDone => {
                append_bytes(out, &[ID_WRITE_DONE]);
            },
        }
    }

    /// Reads a response from the front of `data`; returns it and the number
    /// of bytes it took.
    pub fn receive(data: &[u8]) -> (r: Result<(Response, usize), DecodeError>)
        ensures
            data@.len() == 0 ==> r == Err::<(Response, usize), DecodeError>(DecodeError::Incomplete),
            data@.len() > 0 && data@[0] == ID_TEXT ==> match read_string(data@, 1) {
                None => r == Err::<(Response, usize), DecodeError>(DecodeError::Incomplete),
                Some((raw, end)) => match r {
                    Ok((Response::Text(t), n)) => t@ == text_of(raw) && n == end,
                    _ => false,
                },
            },
            data@.len() > 0 && data@[0] == ID_FAILED ==> r matches Ok((Response::Failed, 1)),
            data@.len() > 0 && data@[0] == ID_WRITE_DONE ==> r matches Ok((Response::WriteDone, 1)),
            data@.len() > 0 && data@[0] > ID_WRITE_DONE ==> r == Err::<(Response, usize), DecodeError>(
                DecodeError::InvalidTag(data@[0]),
            ),
    {
        if data.len() == 0 {
            return Err(DecodeError::Incomplete);
        }
        let tag = data[0];
        if tag == ID_TEXT {
            match deserialize_string(data, 1) {
                Err(e) => Err(e),
                Ok((t, end)) => Ok((Response::Text(t), end)),
            }
        } else if tag == ID_FAILED {
            Ok((Response::Failed, 1))
        } else if tag == ID_WRITE_DONE {
            Ok((Response::WriteDone, 1))
        } else {
            Err(DecodeError::InvalidTag(tag))
        }
    }
}

/// A command is read back from its wire form, whatever follows it: the
/// first byte is its tag and, for `WriteText`, the text read back is the
/// text written and ends where the wire form ends.
pub proof fn lemma_command_round_trip(c: Command, rest: Seq<u8>)
    requires
        c matches Command::WriteText(t) ==> encode_utf8(t@).len() < 0x1_0000_0000_0000_0000,
    ensures
        (c.wire() + rest).len() > 0,
        c is Read ==> (c.wire() + rest)[0] == ID_READ,
        c matches Command::WriteText(t) ==> {
            &&& (c.wire() + rest)[0] == ID_WRITE_TEXT
            &&& read_string(c.wire() + rest, 1) == Some((encode_utf8(t@), c.wire().len() as int))
            &&& text_of(encode_utf8(t@)) == t@
        },
{
    match c {
        Command::Read => {},
        Command::WriteText(t) => {
            lemma_tagged_string_round_trip(ID_WRITE_TEXT, t@, rest);
        },
    }
}

/// A response is read back from its wire form, whatever follows it: the
/// first byte is its tag and, for `Text`, the text read back is the text
/// written and ends where the wire form ends.
pub proof fn lemma_response_round_trip(r: Response, rest: Seq<u8>)
    requires
        r matches Response::Text(t) ==> encode_utf8(t@).len() < 0x1_0000_0000_0000_0000,
    ensures
        (r.wire() + rest).len() > 0,
        r is Failed ==> (r.wire() + rest)[0] == ID_FAILED,
        r is WriteDone ==> (r.wire() + rest)[0] == ID_WRITE_DONE,
        r matches Response::Text(t) ==> {
            &&& (r.wire() + rest)[0] == ID_TEXT
            &&& read_string(r.wire() + rest, 1) == Some((encode_utf8(t@), r.wire().len() as int))
            &&& text_of(encode_utf8(t@)) == t@
        },
{
    match r {
        Response::Text(t) => {
            lemma_tagged_string_round_trip(ID_TEXT, t@, rest);
        },
        _ => {},
    }
}

} // verus!
