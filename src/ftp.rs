//! Messages of the FTP service: the mode of a backend stream, the control
//! commands and responses, and the data transfer commands.

use vstd::prelude::*;
use vstd::string::StringSliceAdditionalSpecFns;
use crate::wire::{
    append_bytes, deserialize_string, deserialize_u16, read_string, read_u16, serialize_string,
    serialize_u16, string_from_utf8_lossy, string_wire, u16_wire, text_of, DecodeError,
    lemma_tagged_string_round_trip, lemma_string_round_trip, lemma_u16_round_trip,
};
use vstd::utf8::encode_utf8;
use crate::naming::{str_eq, upper_of, uppercase};

verus! {

pub const ID_MODE_CONTROL: u8 = 0x00;

pub const ID_MODE_DATA: u8 = 0x01;

pub const ID_CTRL_CMD_CDUP: u8 = 0x00;

pub const ID_CTRL_CMD_CWD: u8 = 0x01;

pub const ID_CTRL_CMD_DELE: u8 = 0x02;

pub const ID_CTRL_CMD_EPSV: u8 = 0x03;

pub const ID_CTRL_CMD_FEAT: u8 = 0x04;

pub const ID_CTRL_CMD_LIST: u8 = 0x05;

pub const ID_CTRL_CMD_NLST: u8 = 0x06;

pub const ID_CTRL_CMD_OPTS: u8 = 0x07;

pub const ID_CTRL_CMD_PASS: u8 = 0x08;

pub const ID_CTRL_CMD_PASV: u8 = 0x09;

pub const ID_CTRL_CMD_PWD: u8 = 0x0a;

pub const ID_CTRL_CMD_QUIT: u8 = 0x0b;

pub const ID_CTRL_CMD_RETR: u8 = 0x0c;

pub const ID_CTRL_CMD_STOR: u8 = 0x0d;

pub const ID_CTRL_CMD_SIZE: u8 = 0x0e;

pub const ID_CTRL_CMD_TYPE: u8 = 0x0f;

pub const ID_CTRL_CMD_USER: u8 = 0x10;

pub const ID_CTRL_RESP_OK: u8 = 0x00;

pub const ID_CTRL_RESP_ERROR: u8 = 0x01;

pub const ID_CTRL_RESP_DATA: u8 = 0x02;

pub const ID_CTRL_RESP_QUIT: u8 = 0x03;

pub const ID_CTRL_RESP_FEAT: u8 = 0x04;

pub const ID_CTRL_RESP_PASV: u8 = 0x05;

pub const ID_CTRL_RESP_EPSV: u8 = 0x06;

pub const ID_DATA_CMD_LIST: u8 = 0x00;

pub const ID_DATA_CMD_NLST: u8 = 0x01;

pub const ID_DATA_CMD_RETR: u8 = 0x02;

pub const ID_DATA_CMD_STOR: u8 = 0x03;

/// What a backend stream of the FTP service carries.
#[derive(Clone, Copy, Debug, PartialEq, Eq, Structural)]
pub enum BackendMode {
    Control,
    Data,
}

#[derive(Debug)]
pub enum ControlCommand {
    Cdup,
    Cwd(String),
    Dele(String),
    Epsv,
    Feat,
    List,
    Nlst,
    Opts,
    Pass,
    Pasv,
    Pwd,
    Quit,
    Retr(String),
    Stor(String),
    Size(String),
    Type,
    User,
}

#[derive(Debug)]
pub enum ControlResponse {
    Success(u16, Option<String>),
    Error(u16),
    Data(DataCommand),
    Quit,
    Feat,
    Pasv,
    Epsv,
}

#[derive(Debug)]
pub enum DataCommand {
    List(String),
    Nlst(String),
    Retr(String),
    Stor(String),
}

impl BackendMode {
    pub open spec fn code(&self) -> u8 {
        match self {
            BackendMode::Control => ID_MODE_CONTROL,
            BackendMode::Data => ID_MODE_DATA,
        }
    }

    /// Appends the mode byte to `out`.
    pub fn send(&self, out: &mut Vec<u8>)
        ensures
            final(out)@ == old(out)@.push(self.code()),
    {
        let code = match self {
            BackendMode::Control => ID_MODE_CONTROL,
            BackendMode::Data => ID_MODE_DATA,
        };
        out.push(code);
    }

    /// Reads the mode byte at the front of `data`.
    pub fn receive(data: &[u8]) -> (r: Result<(BackendMode, usize), DecodeError>)
        ensures
            data@.len() == 0 ==> r == Err::<(BackendMode, usize), DecodeError>(
                DecodeError::Incomplete,
            ),
            data@.len() > 0 && data@[0] == ID_MODE_CONTROL ==> r == Ok::<
                (BackendMode, usize),
                DecodeError,
            >((BackendMode::Control, 1)),
            data@.len() > 0 && data@[0] == ID_MODE_DATA ==> r == Ok::<
                (BackendMode, usize),
                DecodeError,
            >((BackendMode::Data, 1)),
            data@.len() > 0 && data@[0] > ID_MODE_DATA ==> r == Err::<
                (BackendMode, usize),
                DecodeError,
            >(DecodeError::InvalidTag(data@[0])),
    {
        if data.len() == 0 {
            return Err(DecodeError::Incomplete);
        }
        if data[0] == ID_MODE_CONTROL {
            Ok((BackendMode::Control, 1))
        } else if data[0] == ID_MODE_DATA {
            Ok((BackendMode::Data, 1))
        } else {
            Err(DecodeError::InvalidTag(data[0]))
        }
    }
}

/// Whether control command `code` carries a path.
pub open spec fn control_code_has_text(code: u8) -> bool {
    code == ID_CTRL_CMD_CWD || code == ID_CTRL_CMD_DELE || code == ID_CTRL_CMD_RETR || code
        == ID_CTRL_CMD_STOR || code == ID_CTRL_CMD_SIZE
}

impl ControlCommand {
    pub open spec fn code(&self) -> u8 {
        match self {
            ControlCommand::Cdup => ID_CTRL_CMD_CDUP,
            ControlCommand::Cwd(_) => ID_CTRL_CMD_CWD,
            ControlCommand::Dele(_) => ID_CTRL_CMD_DELE,
            ControlCommand::Epsv => ID_CTRL_CMD_EPSV,
            ControlCommand::Feat => ID_CTRL_CMD_FEAT,
            ControlCommand::List => ID_CTRL_CMD_LIST,
            ControlCommand::Nlst => ID_CTRL_CMD_NLST,
            ControlCommand::Opts => ID_CTRL_CMD_OPTS,
            ControlCommand::Pass => ID_CTRL_CMD_PASS,
            ControlCommand::Pasv => ID_CTRL_CMD_PASV,
            ControlCommand::Pwd => ID_CTRL_CMD_PWD,
            ControlCommand::Quit => ID_CTRL_CMD_QUIT,
            ControlCommand::Retr(_) => ID_CTRL_CMD_RETR,
            ControlCommand::Stor(_) => ID_CTRL_CMD_STOR,
            ControlCommand::Size(_) => ID_CTRL_CMD_SIZE,
            ControlCommand::Type => ID_CTRL_CMD_TYPE,
            ControlCommand::User => ID_CTRL_CMD_USER,
        }
    }

    /// The path that the command carries, if any.
    pub open spec fn text(&self) -> Option<Seq<char>> {
        match self {
            ControlCommand::Cwd(s) | ControlCommand::Dele(s) | ControlCommand::Retr(s)
            | ControlCommand::Stor(s) | ControlCommand::Size(s) => Some(s@),
            _ => None,
        }
    }

    pub open spec fn wire(&self) -> Seq<u8> {
        match self.text() {
            Some(t) => seq![self.code()] + string_wire(t),
            None => seq![self.code()],
        }
    }

    /// Appends the wire form of the command to `out`.
    pub fn send(&self, out: &mut Vec<u8>)
        ensures
            final(out)@ == old(out)@ + self.wire(),
    {
        let code = match self {
            ControlCommand::Cdup => ID_CTRL_CMD_CDUP,
            ControlCommand::Cwd(_) => ID_CTRL_CMD_CWD,
            ControlCommand::Dele(_) => ID_CTRL_CMD_DELE,
            ControlCommand::Epsv => ID_CTRL_CMD_EPSV,
            ControlCommand::Feat => ID_CTRL_CMD_FEAT,
            ControlCommand::List => ID_CTRL_CMD_LIST,
            ControlCommand::Nlst => ID_CTRL_CMD_NLST,
            ControlCommand::Opts => ID_CTRL_CMD_OPTS,
            ControlCommand::Pass => ID_CTRL_CMD_PASS,
            ControlCommand::Pasv => ID_CTRL_CMD_PASV,
            ControlCommand::Pwd => ID_CTRL_CMD_PWD,
            ControlCommand::Quit => ID_CTRL_CMD_QUIT,
            ControlCommand::Retr(_) => ID_CTRL_CMD_RETR,
            ControlCommand::Stor(_) => ID_CTRL_CMD_STOR,
            ControlCommand::Size(_) => ID_CTRL_CMD_SIZE,
            ControlCommand::Type => ID_CTRL_CMD_TYPE,
            ControlCommand::User => ID_CTRL_CMD_USER,
        };
        out.push(code);
        match self {
            ControlCommand::Cwd(s) | ControlCommand::Dele(s) | ControlCommand::Retr(s)
            | ControlCommand::Stor(s) | ControlCommand::Size(s) => {
                serialize_string(out, s.as_str());
            },
            _ => {},
        }
        assert(final(out)@ =~= old(out)@ + self.wire());
    }

    /// Reads a control command from the front of `data`; returns it and the
    /// number of bytes it took.
    pub fn receive(data: &[u8]) -> (r: Result<(ControlCommand, usize), DecodeError>)
        ensures
            data@.len() == 0 ==> r == Err::<(ControlCommand, usize), DecodeError>(
                DecodeError::Incomplete,
            ),
            data@.len() > 0 && data@[0] > ID_CTRL_CMD_USER ==> r == Err::<
                (ControlCommand, usize),
                DecodeError,
            >(DecodeError::InvalidTag(data@[0])),
            data@.len() > 0 && data@[0] <= ID_CTRL_CMD_USER && !control_code_has_text(data@[0])
                ==> r is Ok && r->Ok_0.0.code() == data@[0] && r->Ok_0.0.text() is None
                && r->Ok_0.1 == 1,
            data@.len() > 0 && control_code_has_text(data@[0]) ==> match read_string(data@, 1) {
                None => r == Err::<(ControlCommand, usize), DecodeError>(DecodeError::Incomplete),
                Some((raw, end)) => r is Ok && r->Ok_0.0.code() == data@[0] && r->Ok_0.0.text()
                    == Some(text_of(raw)) && r->Ok_0.1 == end,
            },
    {
        if data.len() == 0 {
            return Err(DecodeError::Incomplete);
        }
        let code = data[0];
        if code > ID_CTRL_CMD_USER {
            return Err(DecodeError::InvalidTag(code));
        }
        if code == ID_CTRL_CMD_CWD || code == ID_CTRL_CMD_DELE || code == ID_CTRL_CMD_RETR || code
            == ID_CTRL_CMD_STOR || code == ID_CTRL_CMD_SIZE {
            let (s, end) = match deserialize_string(data, 1) {
                Err(e) => {
                    return Err(e);
                },
                Ok(v) => v,
            };
            let c = if code == ID_CTRL_CMD_CWD {
                ControlCommand::Cwd(s)
            } else if code == ID_CTRL_CMD_DELE {
                ControlCommand::Dele(s)
            } else if code == ID_CTRL_CMD_RETR {
                ControlCommand::Retr(s)
            } else if code == ID_CTRL_CMD_STOR {
                ControlCommand::Stor(s)
            } else {
                ControlCommand::Size(s)
            };
            return Ok((c, end));
        }
        let c = if code == ID_CTRL_CMD_CDUP {
            ControlCommand::Cdup
        } else if code == ID_CTRL_CMD_EPSV {
            ControlCommand::Epsv
        } else if code == ID_CTRL_CMD_FEAT {
            ControlCommand::Feat
        } else if code == ID_CTRL_CMD_LIST {
            ControlCommand::List
        } else if code == ID_CTRL_CMD_NLST {
            ControlCommand::Nlst
        } else if code == ID_CTRL_CMD_OPTS {
            ControlCommand::Opts
        } else if code == ID_CTRL_CMD_PASS {
            ControlCommand::Pass
        } else if code == ID_CTRL_CMD_PASV {
            ControlCommand::Pasv
        } else if code == ID_CTRL_CMD_PWD {
            ControlCommand::Pwd
        } else if code == ID_CTRL_CMD_QUIT {
            ControlCommand::Quit
        } else if code == ID_CTRL_CMD_TYPE {
            ControlCommand::Type
        } else {
            ControlCommand::User
        };
        Ok((c, 1))
    }
}

impl DataCommand {
    pub open spec fn code(&self) -> u8 {
        match self {
            DataCommand::List(_) => ID_DATA_CMD_LIST,
            DataCommand::Nlst(_) => ID_DATA_CMD_NLST,
            DataCommand::Retr(_) => ID_DATA_CMD_RETR,
            DataCommand::Stor(_) => ID_DATA_CMD_STOR,
        }
    }

    /// The path that the command carries.
    pub open spec fn path(&self) -> Seq<char> {
        match self {
            DataCommand::List(p) | DataCommand::Nlst(p) | DataCommand::Retr(p)
            | DataCommand::Stor(p) => p@,
        }
    }

    pub open spec fn wire(&self) -> Seq<u8> {
        seq![self.code()] + string_wire(self.path())
    }

    /// Appends the wire form of the command to `out`.
    pub fn send(&self, out: &mut Vec<u8>)
        ensures
            final(out)@ == old(out)@ + self.wire(),
    {
        let code = match self {
            DataCommand::List(_) => ID_DATA_CMD_LIST,
            DataCommand::Nlst(_) => ID_DATA_CMD_NLST,
            DataCommand::Retr(_) => ID_DATA_CMD_RETR,
            DataCommand::Stor(_) => ID_DATA_CMD_STOR,
        };
        out.push(code);
        match self {
            DataCommand::List(p) | DataCommand::Nlst(p) | DataCommand::Retr(p)
            | DataCommand::Stor(p) => {
                serialize_string(out, p.as_str());
            },
        }
        assert(final(out)@ =~= old(out)@ + self.wire());
    }

    /// Reads a data command at `at` in `data`; see `decoded_at`.
    pub fn receive_at(data: &[u8], at: usize) -> (r: Result<(DataCommand, usize), DecodeError>)
        requires
            at <= data@.len(),
        ensures
            decoded_at(data@, at as int, r),
    {
        if data.len() == at {
            return Err(DecodeError::Incomplete);
        }
        let code = data[at];
        if code > ID_DATA_CMD_STOR {
            return Err(DecodeError::InvalidTag(code));
        }
        let (p, end) = match deserialize_string(data, at + 1) {
            Err(e) => {
                return Err(e);
            },
            Ok(v) => v,
        };
        let c = if code == ID_DATA_CMD_LIST {
            DataCommand::List(p)
        } else if code == ID_DATA_CMD_NLST {
            DataCommand::Nlst(p)
        } else if code == ID_DATA_CMD_RETR {
            DataCommand::Retr(p)
        } else {
            DataCommand::Stor(p)
        };
        Ok((c, end))
    }

    /// Reads a data command from the front of `data`; returns it and the
    /// number of bytes it took.
    pub fn receive(data: &[u8]) -> (r: Result<(DataCommand, usize), DecodeError>)
        ensures
            decoded_at(data@, 0, r),
    {
        Self::receive_at(data, 0)
    }
}

/// `r` is what reading a data command at `at` in `data` gives: `Incomplete`
/// while bytes are missing, `InvalidTag` for a code above Stor, else the
/// command with that code and the path decoded from its bytes, and where it
/// ends.
pub open spec fn decoded_at(data: Seq<u8>, at: int, r: Result<(DataCommand, usize), DecodeError>) -> bool {
    if data.len() <= at {
        r == Err::<(DataCommand, usize), DecodeError>(DecodeError::Incomplete)
    } else if data[at] > ID_DATA_CMD_STOR {
        r == Err::<(DataCommand, usize), DecodeError>(DecodeError::InvalidTag(data[at]))
    } else {
        match read_string(data, at + 1) {
            None => r == Err::<(DataCommand, usize), DecodeError>(DecodeError::Incomplete),
            Some((raw, end)) => r is Ok && r->Ok_0.0.code() == data[at] && r->Ok_0.0.path()
                == text_of(raw) && r->Ok_0.1 == end,
        }
    }
}

impl ControlResponse {
    pub open spec fn code(&self) -> u8 {
        match self {
            ControlResponse::Success(_, _) => ID_CTRL_RESP_OK,
            ControlResponse::Error(_) => ID_CTRL_RESP_ERROR,
            ControlResponse::Data(_) => ID_CTRL_RESP_DATA,
            ControlResponse::Quit => ID_CTRL_RESP_QUIT,
            ControlResponse::Feat => ID_CTRL_RESP_FEAT,
            ControlResponse::Pasv => ID_CTRL_RESP_PASV,
            ControlResponse::Epsv => ID_CTRL_RESP_EPSV,
        }
    }

    pub open spec fn wire(&self) -> Seq<u8> {
        match self {
            ControlResponse::Success(c, m) => seq![ID_CTRL_RESP_OK] + u16_wire(*c) + string_wire(
                match m {
                    Some(s) => s@,
                    None => Seq::empty(),
                },
            ),
            ControlResponse::Error(c) => seq![ID_CTRL_RESP_ERROR] + u16_wire(*c),
            ControlResponse::Data(d) => seq![ID_CTRL_RESP_DATA] + d.wire(),
            _ => seq![self.code()],
        }
    }

    /// Appends the wire form of the response to `out`; `Ok` without a
    /// message carries the empty string.
    pub fn send(&self, out: &mut Vec<u8>)
        ensures
            final(out)@ == old(out)@ + self.wire(),
    {
        match self {
            ControlResponse::Success(c, m) => {
                out.push(ID_CTRL_RESP_OK);
                serialize_u16(out, *c);
                match m {
                    None => {
                        proof {
                            reveal_strlit("");
                        }
                        serialize_string(out, "");
                    },
                    Some(s) => {
                        serialize_string(out, s.as_str());
                    },
                }
            },
            ControlResponse::Error(c) => {
                out.push(ID_CTRL_RESP_ERROR);
                serialize_u16(out, *c);
            },
            ControlResponse::Data(d) => {
                out.push(ID_CTRL_RESP_DATA);
                d.send(out);
            },
            ControlResponse::Quit => {
                out.push(ID_CTRL_RESP_QUIT);
            },
            ControlResponse::Feat => {
                out.push(ID_CTRL_RESP_FEAT);
            },
            ControlResponse::Pasv => {
                out.push(ID_CTRL_RESP_PASV);
            },
            ControlResponse::Epsv => {
                out.push(ID_CTRL_RESP_EPSV);
            },
        }
        assert(final(out)@ =~= old(out)@ + self.wire());
    }

    /// Reads a control response from the front of `data`; returns it and the
    /// number of bytes it took. An `Ok` with an empty message has none.
    pub fn receive(data: &[u8]) -> (r: Result<(ControlResponse, usize), DecodeError>)
        ensures
            data@.len() == 0 ==> r == Err::<(ControlResponse, usize), DecodeError>(
                DecodeError::Incomplete,
            ),
            data@.len() > 0 && data@[0] > ID_CTRL_RESP_EPSV ==> r == Err::<
                (ControlResponse, usize),
                DecodeError,
            >(DecodeError::InvalidTag(data@[0])),
            data@.len() > 0 && data@[0] == ID_CTRL_RESP_OK ==> match read_u16(data@, 1) {
                None => r == Err::<(ControlResponse, usize), DecodeError>(DecodeError::Incomplete),
                Some(c) => match read_string(data@, 3) {
                    None => r == Err::<(ControlResponse, usize), DecodeError>(
                        DecodeError::Incomplete,
                    ),
                    Some((raw, end)) => match r {
                        Ok((ControlResponse::Success(c2, m), n)) => {
                            &&& c2 == c
                            &&& n == end
                            &&& text_of(raw).len() == 0 ==> m is None
                            &&& text_of(raw).len() > 0 ==> m is Some && m->Some_0@
                                == text_of(raw)
                        },
                        _ => false,
                    },
                },
            },
            data@.len() > 0 && data@[0] == ID_CTRL_RESP_ERROR ==> match read_u16(data@, 1) {
                None => r == Err::<(ControlResponse, usize), DecodeError>(DecodeError::Incomplete),
                Some(c) => r matches Ok((ControlResponse::Error(c2), 3)) && c2 == c,
            },
            data@.len() > 0 && data@[0] == ID_CTRL_RESP_DATA ==> match r {
                Ok((ControlResponse::Data(d), n)) => decoded_at(
                    data@,
                    1,
                    Ok::<(DataCommand, usize), DecodeError>((d, n)),
                ),
                Ok(_) => false,
                Err(e) => decoded_at(data@, 1, Err::<(DataCommand, usize), DecodeError>(e)),
            },
            data@.len() > 0 && ID_CTRL_RESP_QUIT <= data@[0] <= ID_CTRL_RESP_EPSV ==> r is Ok
                && r->Ok_0.0.code() == data@[0] && r->Ok_0.1 == 1,
    {
        if data.len() == 0 {
            return Err(DecodeError::Incomplete);
        }
        let code = data[0];
        if code == ID_CTRL_RESP_OK {
            let c = match deserialize_u16(data, 1) {
                Err(e) => {
                    return Err(e);
                },
                Ok(c) => c,
            };
            let (m, end) = match deserialize_string(data, 3) {
                Err(e) => {
                    return Err(e);
                },
                Ok(v) => v,
            };
            if m.as_str().is_empty() {
                Ok((ControlResponse::Success(c, None), end))
            } else {
                Ok((ControlResponse::Success(c, Some(m)), end))
            }
        } else if code == ID_CTRL_RESP_ERROR {
            match deserialize_u16(data, 1) {
                Err(e) => Err(e),
                Ok(c) => Ok((ControlResponse::Error(c), 3)),
            }
        } else if code == ID_CTRL_RESP_DATA {
            match DataCommand::receive_at(data, 1) {
                Err(e) => Err(e),
                Ok((d, n)) => Ok((ControlResponse::Data(d), n)),
            }
        } else if code == ID_CTRL_RESP_QUIT {
            Ok((ControlResponse::Quit, 1))
        } else if code == ID_CTRL_RESP_FEAT {
            Ok((ControlResponse::Feat, 1))
        } else if code == ID_CTRL_RESP_PASV {
            Ok((ControlResponse::Pasv, 1))
        } else if code == ID_CTRL_RESP_EPSV {
            Ok((ControlResponse::Epsv, 1))
        } else {
            Err(DecodeError::InvalidTag(code))
        }
    }
}

/// The control command code that an FTP client command name stands for.
pub open spec fn ftp_code_named(name: Seq<char>) -> Option<u8> {
    if name == "CDUP"@ {
        Some(ID_CTRL_CMD_CDUP)
    } else if name == "CWD"@ {
        Some(ID_CTRL_CMD_CWD)
    } else if name == "DELE"@ {
        Some(ID_CTRL_CMD_DELE)
    } else if name == "EPSV"@ {
        Some(ID_CTRL_CMD_EPSV)
    } else if name == "FEAT"@ {
        Some(ID_CTRL_CMD_FEAT)
    } else if name == "LIST"@ {
        Some(ID_CTRL_CMD_LIST)
    } else if name == "NLST"@ {
        Some(ID_CTRL_CMD_NLST)
    } else if name == "OPTS"@ {
        Some(ID_CTRL_CMD_OPTS)
    } else if name == "PASS"@ {
        Some(ID_CTRL_CMD_PASS)
    } else if name == "PASV"@ {
        Some(ID_CTRL_CMD_PASV)
    } else if name == "PWD"@ {
        Some(ID_CTRL_CMD_PWD)
    } else if name == "QUIT"@ {
        Some(ID_CTRL_CMD_QUIT)
    } else if name == "RETR"@ {
        Some(ID_CTRL_CMD_RETR)
    } else if name == "SIZE"@ {
        Some(ID_CTRL_CMD_SIZE)
    } else if name == "STOR"@ {
        Some(ID_CTRL_CMD_STOR)
    } else if name == "TYPE"@ {
        Some(ID_CTRL_CMD_TYPE)
    } else if name == "USER"@ {
        Some(ID_CTRL_CMD_USER)
    } else {
        None
    }
}

/// `i` is where the first space of `s` is, or its length when it has none.
pub open spec fn first_space_at(s: Seq<u8>, i: int) -> bool {
    &&& 0 <= i <= s.len()
    &&& forall|j: int| 0 <= j < i ==> s[j] != 0x20u8
    &&& i < s.len() ==> s[i] == 0x20u8
}

/// Whether `b` ends with CR LF.
pub open spec fn ends_with_crlf(b: Seq<u8>) -> bool {
    b.len() >= 2 && b[b.len() - 2] == 0x0du8 && b[b.len() - 1] == 0x0au8
}

/// The command that `name` and `args` make: its code and, for the commands
/// that carry a path, `args` as the path.
pub open spec fn command_matches(r: Option<ControlCommand>, name: Seq<char>, args: Seq<char>) -> bool {
    match ftp_code_named(name) {
        None => r is None,
        Some(code) => {
            &&& r is Some
            &&& r->Some_0.code() == code
            &&& control_code_has_text(code) ==> r->Some_0.text() == Some(args)
            &&& !control_code_has_text(code) ==> r->Some_0.text() is None
        },
    }
}

fn first_space(s: &[u8]) -> (r: usize)
    ensures
        first_space_at(s@, r as int),
{
    let mut i: usize = 0;
    while i < s.len()
        invariant
            i <= s@.len(),
            forall|j: int| 0 <= j < i ==> s@[j] != 0x20u8,
        decreases s@.len() - i,
    {
        if s[i] == 0x20u8 {
            return i;
        }
        i = i + 1;
    }
    i
}

/// The command that an FTP client sent as `line`: the line must end with
/// CR LF; the command name is what precedes the first space, in any case,
/// and the arguments what follows it. Unknown commands and lines without CR
/// LF give `None`.
pub fn parse_command(line: &str) -> (r: Option<ControlCommand>)
    ensures
        !ends_with_crlf(line.spec_bytes()) ==> r is None,
        ends_with_crlf(line.spec_bytes()) ==> {
            let body = line.spec_bytes().subrange(0, line.spec_bytes().len() - 2);
            forall|i: int|
                first_space_at(body, i) ==> command_matches(
                    r,
                    upper_of(text_of(body.subrange(0, i))),
                    if i < body.len() {
                        text_of(body.subrange(i + 1, body.len() as int))
                    } else {
                        text_of(Seq::empty())
                    },
                )
        },
{
    let bytes = line.as_bytes();
    let len = bytes.len();
    if len < 2 || bytes[len - 2] != 0x0du8 || bytes[len - 1] != 0x0au8 {
        return None;
    }
    let body = &bytes[0..len - 2];
    let i = first_space(body);
    let name = string_from_utf8_lossy(&body[0..i]);
    let args = if i < body.len() {
        string_from_utf8_lossy(&body[i + 1..body.len()])
    } else {
        string_from_utf8_lossy(&body[0..0])
    };
    let upper = uppercase(name.as_str());
    let u = upper.as_str();
    let r = if str_eq(u, "CDUP") {
        Some(ControlCommand::Cdup)
    } else if str_eq(u, "CWD") {
        Some(ControlCommand::Cwd(args))
    } else if str_eq(u, "DELE") {
        Some(ControlCommand::Dele(args))
    } else if str_eq(u, "EPSV") {
        Some(ControlCommand::Epsv)
    } else if str_eq(u, "FEAT") {
        Some(ControlCommand::Feat)
    } else if str_eq(u, "LIST") {
        Some(ControlCommand::List)
    } else if str_eq(u, "NLST") {
        Some(ControlCommand::Nlst)
    } else if str_eq(u, "OPTS") {
        Some(ControlCommand::Opts)
    } else if str_eq(u, "PASS") {
        Some(ControlCommand::Pass)
    } else if str_eq(u, "PASV") {
        Some(ControlCommand::Pasv)
    } else if str_eq(u, "PWD") {
        Some(ControlCommand::Pwd)
    } else if str_eq(u, "QUIT") {
        Some(ControlCommand::Quit)
    } else if str_eq(u, "RETR") {
        Some(ControlCommand::Retr(args))
    } else if str_eq(u, "SIZE") {
        Some(ControlCommand::Size(args))
    } else if str_eq(u, "STOR") {
        Some(ControlCommand::Stor(args))
    } else if str_eq(u, "TYPE") {
        Some(ControlCommand::Type)
    } else if str_eq(u, "USER") {
        Some(ControlCommand::User)
    } else {
        None
    };
    proof {
        assert forall|k: int| first_space_at(body@, k) implies k == i as int by {
            if k < i {
                assert(body@[k] == 0x20u8);
            } else if k > i {
                assert(body@[i as int] == 0x20u8);
            }
        }
        assert(body@.subrange(0, 0) =~= Seq::<u8>::empty());
    }
    r
}

/// A control command is read back from its wire form, whatever follows it:
/// the first byte is its code and, for the commands with a path, the path
/// read back is the path written and ends where the wire form ends.
pub proof fn lemma_control_command_round_trip(c: ControlCommand, rest: Seq<u8>)
    requires
        c.text() matches Some(t) ==> encode_utf8(t).len() < 0x1_0000_0000_0000_0000,
    ensures
        (c.wire() + rest).len() > 0,
        (c.wire() + rest)[0] == c.code(),
        c.code() <= ID_CTRL_CMD_USER,
        control_code_has_text(c.code()) == (c.text() is Some),
        c.text() matches Some(t) ==> {
            &&& read_string(c.wire() + rest, 1) == Some((encode_utf8(t), c.wire().len() as int))
            &&& text_of(encode_utf8(t)) == t
        },
{
    match c.text() {
        Some(t) => {
            lemma_tagged_string_round_trip(c.code(), t, rest);
        },
        None => {},
    }
}

/// A data command is read back from its wire form, whatever follows it: the
/// first byte is its code, and the path read back is the path written and
/// ends where the wire form ends.
pub proof fn lemma_data_command_round_trip(c: DataCommand, rest: Seq<u8>)
    requires
        encode_utf8(c.path()).len() < 0x1_0000_0000_0000_0000,
    ensures
        (c.wire() + rest).len() > 0,
        (c.wire() + rest)[0] == c.code(),
        c.code() <= ID_DATA_CMD_STOR,
        read_string(c.wire() + rest, 1) == Some((encode_utf8(c.path()), c.wire().len() as int)),
        text_of(encode_utf8(c.path())) == c.path(),
{
    lemma_tagged_string_round_trip(c.code(), c.path(), rest);
}

/// The message that a `Success` response carries: the empty text for none.
pub open spec fn message_text(m: Option<String>) -> Seq<char> {
    match m {
        Some(s) => s@,
        None => Seq::empty(),
    }
}

/// A control response is read back from its wire form, whatever follows it:
/// the first byte is its code; the 16-bit code of `Success` and `Error` is
/// the one written; the message of `Success` reads back as written (an empty
/// one reads back as none), ending where the wire form ends.
pub proof fn lemma_control_response_round_trip(r: ControlResponse, rest: Seq<u8>)
    requires
        r matches ControlResponse::Success(_, m) ==> encode_utf8(message_text(m)).len()
            < 0x1_0000_0000_0000_0000,
    ensures
        (r.wire() + rest).len() > 0,
        (r.wire() + rest)[0] == r.code(),
        r.code() <= ID_CTRL_RESP_EPSV,
        r matches ControlResponse::Success(c, m) ==> {
            &&& read_u16(r.wire() + rest, 1) == Some(c)
            &&& read_string(r.wire() + rest, 3) == Some(
                (encode_utf8(message_text(m)), r.wire().len() as int),
            )
            &&& text_of(encode_utf8(message_text(m))) == message_text(m)
        },
        r matches ControlResponse::Error(c) ==> read_u16(r.wire() + rest, 1) == Some(c)
            && r.wire().len() == 3,
        r matches ControlResponse::Data(d) ==> r.wire() + rest == seq![ID_CTRL_RESP_DATA] + (
        d.wire() + rest),
{
    match r {
        ControlResponse::Success(c, m) => {
            let t = message_text(m);
            let w = r.wire() + rest;
            lemma_u16_round_trip(c, 1, seq![ID_CTRL_RESP_OK], string_wire(t) + rest);
            assert(w =~= seq![ID_CTRL_RESP_OK] + u16_wire(c) + (string_wire(t) + rest));
            lemma_string_round_trip(t, 3, seq![ID_CTRL_RESP_OK] + u16_wire(c), rest);
            assert(w =~= seq![ID_CTRL_RESP_OK] + u16_wire(c) + string_wire(t) + rest);
        },
        ControlResponse::Error(c) => {
            lemma_u16_round_trip(c, 1, seq![ID_CTRL_RESP_ERROR], rest);
            assert(r.wire() + rest =~= seq![ID_CTRL_RESP_ERROR] + u16_wire(c) + rest);
        },
        ControlResponse::Data(d) => {
            assert(r.wire() + rest =~= seq![ID_CTRL_RESP_DATA] + (d.wire() + rest));
        },
        _ => {},
    }
}

} // verus!
