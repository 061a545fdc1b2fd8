//! Messages of the port-forwarding service.

use vstd::prelude::*;
use crate::wire::{
    append_bytes, deserialize_string, lemma_tagged_string_round_trip, read_string,
    serialize_string, string_wire, text_of, DecodeError,
};
use vstd::utf8::encode_utf8;

verus! {

pub const ID_COMMAND_CONNECT: u8 = 0xF1;

pub const ID_RESPONSE_CONNECTED: u8 = 0xE0;

pub const ID_RESPONSE_ERROR: u8 = 0xE1;

/// What the frontend asks: a connection to a destination `host:port`.
pub enum Command {
    Connect(String),
}

/// What the backend answers.
pub enum Response {
    Connected,
    Error(String),
}

impl Command {
    /// The wire form of the command.
    pub open spec fn wire(&self) -> Seq<u8> {
        match self {
            Command::Connect(d) => seq![ID_COMMAND_CONNECT] + string_wire(d@),
        }
    }

    /// Appends the wire form of the command to `out`.
    pub fn send(&self, out: &mut Vec<u8>)
        ensures
            final(out)@ == old(out)@ + self.wire(),
    {
        match self {
            Command::Connect(d) => {
                append_bytes(out, &[ID_COMMAND_CONNECT]);
                serialize_string(out, d.as_str());
                assert(final(out)@ =~= old(out)@ + self.wire());
            },
        }
    }

    /// Reads a command from the front of `data`; returns it and the number of
    /// bytes it took.
    pub fn receive(data: &[u8]) -> (r: Result<(Command, usize), DecodeError>)
        ensures
            data@.len() == 0 ==> r == Err::<(Command, usize), DecodeError>(DecodeError::Incomplete),
            data@.len() > 0 && data@[0] == ID_COMMAND_CONNECT ==> match read_string(data@, 1) {
                None => r == Err::<(Command, usize), DecodeError>(DecodeError::Incomplete),
                Some((raw, end)) => match r {
                    Ok((Command::Connect(d), n)) => d@ == text_of(raw) && n == end,
                    _ => false,
                },
            },
            data@.len() > 0 && data@[0] != ID_COMMAND_CONNECT ==> r == Err::<
                (Command, usize),
                DecodeError,
            >(DecodeError::InvalidTag(data@[0])),
    {
        if data.len() == 0 {
            return Err(DecodeError::Incomplete);
        }
        let tag = data[0];
        if tag == ID_COMMAND_CONNECT {
            match deserialize_string(data, 1) {
                Err(e) => Err(e),
                Ok((d, end)) => Ok((Command::Connect(d), end)),
            }
        } else {
            Err(DecodeError::InvalidTag(tag))
        }
    }
}

impl Response {
    /// The wire form of the response.
    pub open spec fn wire(&self) -> Seq<u8> {
        match self {
            Response::Connected => seq![ID_RESPONSE_CONNECTED],
            Response::Error(m) => seq![ID_RESPONSE_ERROR] + string_wire(m@),
        }
    }

    /// Appends the wire form of the response to `out`.
    pub fn send(&self, out: &mut Vec<u8>)
        ensures
            final(out)@ == old(out)@ + self.wire(),
    {
        match self {
            Response::Connected => {
                append_bytes(out, &[ID_RESPONSE_CONNECTED]);
            },
            Response::Error(m) => {
                append_bytes(out, &[ID_RESPONSE_ERROR]);
                serialize_string(out, m.as_str());
                assert(final(out)@ =~= old(out)@ + self.wire());
            },
        }
    }

    /// Reads a response from the front of `data`; returns it and the number
    /// of bytes it took.
    pub fn receive(data: &[u8]) -> (r: Result<(Response, usize), DecodeError>)
        ensures
            data@.len() == 0 ==> r == Err::<(Response, usize), DecodeError>(DecodeError::Incomplete),
            data@.len() > 0 && data@[0] == ID_RESPONSE_CONNECTED ==> r matches Ok(
                (Response::Connected, 1),
            ),
            data@.len() > 0 && data@[0] == ID_RESPONSE_ERROR ==> match read_string(data@, 1) {
                None => r == Err::<(Response, usize), DecodeError>(DecodeError::Incomplete),
                Some((raw, end)) => match r {
                    Ok((Response::Error(m), n)) => m@ == text_of(raw) && n == end,
                    _ => false,
                },
            },
            data@.len() > 0 && data@[0] != ID_RESPONSE_CONNECTED && data@[0] != ID_RESPONSE_ERROR
                ==> r == Err::<(Response, usize), DecodeError>(DecodeError::InvalidTag(data@[0])),
    {
        if data.len() == 0 {
            return Err(DecodeError::Incomplete);
        }
        let tag = data[0];
        if tag == ID_RESPONSE_CONNECTED {
            Ok((Response::Connected, 1))
        } else if tag == ID_RESPONSE_ERROR {
            match deserialize_string(data, 1) {
                Err(e) => Err(e),
                Ok((m, end)) => Ok((Response::Error(m), end)),
            }
        } else {
            Err(DecodeError::InvalidTag(tag))
        }
    }
}

/// A command is read back from its wire form, whatever follows it: the
/// destination read back is the one written and ends where the wire form
/// ends.
pub proof fn lemma_command_round_trip(c: Command, rest: Seq<u8>)
    requires
        c matches Command::Connect(d) ==> encode_utf8(d@).len() < 0x1_0000_0000_0000_0000,
    ensures
        c matches Command::Connect(d) ==> {
            &&& (c.wire() + rest).len() > 0
            &&& (c.wire() + rest)[0] == ID_COMMAND_CONNECT
            &&& read_string(c.wire() + rest, 1) == Some((encode_utf8(d@), c.wire().len() as int))
            &&& text_of(encode_utf8(d@)) == d@
        },
{
    match c {
        Command::Connect(d) => {
            lemma_tagged_string_round_trip(ID_COMMAND_CONNECT, d@, rest);
        },
    }
}

/// A response is read back from its wire form, whatever follows it: the
/// first byte is its tag and, for `Error`, the message read back is the one
/// written and ends where the wire form ends.
pub proof fn lemma_response_round_trip(r: Response, rest: Seq<u8>)
    requires
        r matches Response::Error(m) ==> encode_utf8(m@).len() < 0x1_0000_0000_0000_0000,
    ensures
        (r.wire() + rest).len() > 0,
        r is Connected ==> (r.wire() + rest)[0] == ID_RESPONSE_CONNECTED,
        r matches Response::Error(m) ==> {
            &&& (r.wire() + rest)[0] == ID_RESPONSE_ERROR
            &&& read_string(r.wire() + rest, 1) == Some((encode_utf8(m@), r.wire().len() as int))
            &&& text_of(encode_utf8(m@)) == m@
        },
{
    match r {
        Response::Error(m) => {
            lemma_tagged_string_round_trip(ID_RESPONSE_ERROR, m@, rest);
        },
        _ => {},
    }
}

} // verus!
