//! The virtual channel name and the log level, as given by configuration.

use vstd::prelude::*;
use vstd::string::StringSliceAdditionalSpecFns;

verus! {

/// Name of the virtual channel unless configured otherwise.
pub const VIRTUAL_CHANNEL_DEFAULT_NAME: &'static str = "SOXY";

/// Longest channel name: the host takes 8 bytes ending with a NUL.
pub const CHANNEL_NAME_MAX_LEN: usize = 7;

#[derive(Clone, Copy, Debug, PartialEq, Eq, Structural)]
pub enum NameError {
    /// The name has more than 7 bytes; holds its length.
    TooLong(usize),
}

/// The 8 bytes that name the channel to the host: the UTF-8 bytes of `name`,
/// then zeros. Names longer than 7 bytes are refused.
pub fn virtual_channel_name(name: &str) -> (r: Result<[u8; 8], NameError>)
    ensures
        name.spec_bytes().len() > CHANNEL_NAME_MAX_LEN ==> r == Err::<[u8; 8], NameError>(
            NameError::TooLong(name.spec_bytes().len() as usize),
        ),
        name.spec_bytes().len() <= CHANNEL_NAME_MAX_LEN ==> r is Ok && (forall|i: int|
            0 <= i < 8 ==> #[trigger] r->Ok_0@[i] == if i < name.spec_bytes().len() {
                name.spec_bytes()[i]
            } else {
                0u8
            }),
{
    let bytes = name.as_bytes();
    if bytes.len() > CHANNEL_NAME_MAX_LEN {
        return Err(NameError::TooLong(bytes.len()));
    }
    let mut out = [0u8; 8];
    let mut i: usize = 0;
    while i < bytes.len()
        invariant
            bytes@ == name.spec_bytes(),
            bytes@.len() <= CHANNEL_NAME_MAX_LEN,
            i <= bytes@.len(),
            forall|j: int| 0 <= j < 8 ==> #[trigger] out@[j] == if j < i {
                bytes@[j]
            } else {
                0u8
            },
        decreases bytes@.len() - i,
    {
        out[i] = bytes[i];
        i = i + 1;
    }
    Ok(out)
}

/// Verbosity of the logs.
#[derive(Clone, Copy, Debug, PartialEq, Eq, Structural)]
pub enum Level {
    Off,
    Error,
    Warn,
    Info,
    Debug,
    Trace,
}

/// The string that `str::to_uppercase` makes of a string.
pub uninterp spec fn upper_of(s: Seq<char>) -> Seq<char>;

/// Relies on str::to_uppercase: the uppercase mapping of each character,
/// which depends on the characters alone.
#[verifier::external_body]
pub(crate) fn uppercase(s: &str) -> (r: String)
    ensures
        r@ == upper_of(s@),
{
    s.to_uppercase()
}

/// The level named by an uppercase string.
pub open spec fn level_named(u: Seq<char>) -> Option<Level> {
    if u == "OFF"@ {
        Some(Level::Off)
    } else if u == "ERROR"@ {
        Some(Level::Error)
    } else if u == "WARN"@ || u == "WARNING"@ {
        Some(Level::Warn)
    } else if u == "INFO"@ {
        Some(Level::Info)
    } else if u == "DEBUG"@ {
        Some(Level::Debug)
    } else if u == "TRACE"@ {
        Some(Level::Trace)
    } else {
        None
    }
}

pub(crate) fn str_eq(a: &str, b: &str) -> (r: bool)
    ensures
        r == (a@ == b@),
{
    let r = crate::service::bytes_eq(a.as_bytes(), b.as_bytes());
    proof {
        if a.spec_bytes() == b.spec_bytes() {
            vstd::utf8::encode_utf8_decode_utf8(a@);
            vstd::utf8::encode_utf8_decode_utf8(b@);
        }
    }
    r
}

impl Level {
    /// The level named by an already uppercase string.
    pub fn from_upper(u: &str) -> (r: Option<Level>)
        ensures
            r == level_named(u@),
    {
        if str_eq(u, "OFF") {
            Some(Level::Off)
        } else if str_eq(u, "ERROR") {
            Some(Level::Error)
        } else if str_eq(u, "WARN") || str_eq(u, "WARNING") {
            Some(Level::Warn)
        } else if str_eq(u, "INFO") {
            Some(Level::Info)
        } else if str_eq(u, "DEBUG") {
            Some(Level::Debug)
        } else if str_eq(u, "TRACE") {
            Some(Level::Trace)
        } else {
            None
        }
    }

    /// The level named by `s`, in any case: off, error, warn or warning,
    /// info, debug, trace.
    pub fn parse(s: &str) -> (r: Option<Level>)
        ensures
            r == level_named(upper_of(s@)),
    {
        let u = uppercase(s);
        Self::from_upper(u.as_str())
    }
}

} // verus!
