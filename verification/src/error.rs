//! The error type shared by every module.
//!
//! Two failure modes are modeled:
//! - [`Errno`]: a POSIX `errno` from a failed libc call.
//! - [`SceError`]: a negative status code returned by a Sony SCE call
//!   (HTTP/TLS), which does not use `errno`.
use vstd::prelude::*;
use vstd::string::StringExecFns;
use vstd::utf8::{decode_utf8, valid_utf8};

use crate::text::{hex_digits, push_hex_digits, push_signed_decimal, signed_decimal, str_from_utf8};

verus! {

/// `EINTR`: the call was interrupted by a signal.
pub const EINTR: i32 = 4;

/// `EINVAL`: invalid argument.
pub const EINVAL: i32 = 22;

/// `EAGAIN`: the resource is temporarily unavailable.
pub const EAGAIN: i32 = 35;

/// `EWOULDBLOCK`: the operation would block (same code as `EAGAIN`).
pub const EWOULDBLOCK: i32 = 35;

/// A POSIX `errno` value captured after a failing libc call.
#[derive(Clone, Copy, PartialEq, Eq, Debug)]
pub struct Errno(pub i32);

impl Errno {
    /// The raw `errno` integer.
    pub fn code(self) -> (c: i32)
        ensures
            c == self.0,
    {
        self.0
    }

    /// `true` if the code indicates a non-blocking op would block
    /// (`EAGAIN`/`EWOULDBLOCK`).
    pub fn would_block(self) -> (b: bool)
        ensures
            b == (self.0 == EAGAIN || self.0 == EWOULDBLOCK),
    {
        self.0 == EAGAIN || self.0 == EWOULDBLOCK
    }

    /// `true` if the call was interrupted by a signal (`EINTR`) and may be
    /// retried.
    pub fn interrupted(self) -> (b: bool)
        ensures
            b == (self.0 == EINTR),
    {
        self.0 == EINTR
    }
}

impl Errno {
    /// `"<message> (errno <code>)"`, given the message `strerror` gave for
    /// the code (see [`strerror_message`]).
    pub fn describe(&self, message: &str) -> (s: String)
        ensures
            s@ == message@ + " (errno "@ + signed_decimal(self.0 as int) + ")"@,
    {
        let mut s = String::from_str(message);
        s.append(" (errno ");
        push_signed_decimal(&mut s, self.0);
        s.append(")");
        s
    }
}

/// The text of a `strerror` result: `"unknown error"` for a null pointer,
/// `"invalid error message"` when its bytes are not UTF-8.
pub open spec fn strerror_text(bytes: Option<Seq<u8>>) -> Seq<char> {
    match bytes {
        None => "unknown error"@,
        Some(b) => if valid_utf8(b) {
            decode_utf8(b)
        } else {
            "invalid error message"@
        },
    }
}

/// The message of a `strerror` result, given the bytes of the C string
/// before its NUL (`None` for a null pointer).
pub fn strerror_message(bytes: Option<&[u8]>) -> (s: String)
    ensures
        s@ == strerror_text(
            match bytes {
                None => None,
                Some(b) => Some(b@),
            },
        ),
{
    match bytes {
        None => String::from_str("unknown error"),
        Some(b) => match str_from_utf8(b) {
            Some(text) => {
                proof {
                    vstd::utf8::encode_utf8_decode_utf8(text@);
                }
                String::from_str(text)
            },
            None => String::from_str("invalid error message"),
        },
    }
}

/// A failure from a Sony SCE library call (HTTP/TLS), which signals errors
/// with a negative return value rather than `errno`.
#[derive(Clone, Copy, PartialEq, Eq, Debug)]
pub struct SceError {
    /// The SCE function that failed (e.g. `"sceHttp2SendRequest"`).
    pub op: &'static str,
    /// The negative status code it returned.
    pub code: i32,
}

impl SceError {
    /// `"<op> failed (sce 0x<code>)"`, the code as 8 hexadecimal digits of
    /// its two's-complement bits.
    pub fn message(&self) -> (s: String)
        ensures
            s@ == self.op@ + " failed (sce 0x"@ + hex_digits(self.code as u32 as nat, 8) + ")"@,
    {
        let mut s = String::from_str(self.op);
        s.append(" failed (sce 0x");
        push_hex_digits(&mut s, self.code as u32, 8);
        s.append(")");
        s
    }
}

/// The unified error.
#[derive(Clone, Copy, PartialEq, Eq, Debug)]
pub enum Error {
    /// A POSIX/libc failure (`fs`, `net`, `thread`).
    Os(Errno),
    /// A Sony SCE failure (`http`).
    Sce(SceError),
    /// A `getaddrinfo` failure (an `EAI_*` code, distinct from `errno`).
    Gai(i32),
    /// An argument could not be represented, or a peer sent malformed data.
    InvalidInput(&'static str),
}

impl Error {
    /// Build an [`Error::Os`] from `errno`, the thread's `errno` as read by
    /// the platform layer right after the failing call.
    pub fn last_os(errno: i32) -> (e: Error)
        ensures
            e == Error::Os(Errno(errno)),
    {
        Error::Os(Errno(errno))
    }

    /// Build an [`Error::Sce`] for a failed SCE `op` returning `code`.
    pub fn sce(op: &'static str, code: i32) -> (e: Error)
        ensures
            e == Error::Sce(SceError { op, code }),
    {
        Error::Sce(SceError { op, code })
    }

    /// Build an [`Error::Gai`] from a `getaddrinfo` `EAI_*` code.
    pub fn gai(code: i32) -> (e: Error)
        ensures
            e == Error::Gai(code),
    {
        Error::Gai(code)
    }

    /// The underlying `errno`, if this is an OS error.
    pub fn errno(&self) -> (r: Option<Errno>)
        ensures
            r == (match *self {
                Error::Os(e) => Some(e),
                _ => None,
            }),
    {
        match self {
            Error::Os(e) => Some(*e),
            _ => None,
        }
    }

    /// This is an OS error whose `errno` is `EINTR`.
    pub open spec fn is_interrupted_spec(&self) -> bool {
        *self matches Error::Os(e) && e.0 == EINTR
    }

    /// `true` if this is an OS error whose `errno` is `EINTR`: the failed call
    /// may simply be retried.
    pub fn is_interrupted(&self) -> (b: bool)
        ensures
            b == self.is_interrupted_spec(),
    {
        match self.errno() {
            Some(e) => e.interrupted(),
            None => false,
        }
    }
}

impl Error {
    /// The error as text; `os_message` is what `strerror` gave for the code
    /// of an [`Error::Os`] (ignored for the other variants).
    pub fn describe(&self, os_message: &str) -> (s: String)
        ensures
            s@ == (match *self {
                Error::Os(e) => os_message@ + " (errno "@ + signed_decimal(e.0 as int) + ")"@,
                Error::Sce(e) => e.op@ + " failed (sce 0x"@ + hex_digits(e.code as u32 as nat, 8)
                    + ")"@,
                Error::Gai(c) => "name resolution failed (EAI "@ + signed_decimal(c as int) + ")"@,
                Error::InvalidInput(m) => "invalid input: "@ + m@,
            }),
    {
        match self {
            Error::Os(e) => e.describe(os_message),
            Error::Sce(e) => e.message(),
            Error::Gai(c) => {
                let mut s = String::from_str("name resolution failed (EAI ");
                push_signed_decimal(&mut s, *c);
                s.append(")");
                s
            },
            Error::InvalidInput(m) => {
                let mut s = String::from_str("invalid input: ");
                s.append(m);
                s
            },
        }
    }
}

impl From<Errno> for Error {
    fn from(e: Errno) -> (r: Error)
        ensures
            r == Error::Os(e),
    {
        Error::Os(e)
    }
}

impl vstd::std_specs::convert::FromSpecImpl<Errno> for Error {
    open spec fn obeys_from_spec() -> bool {
        true
    }

    open spec fn from_spec(v: Errno) -> Error {
        Error::Os(v)
    }
}

} // verus!
