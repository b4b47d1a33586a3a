//! Error taxonomy of the controller core.
//!
//! Every failure the library reports falls in one of four kinds: codec
//! failures, I/O failures reported by the caller, malformed addresses, and
//! everything else. Each error carries a human-readable description.

use vstd::prelude::*;
use vstd::string::StringExecFns;

verus! {

/// The kind of a failure.
#[derive(Debug, Clone, Copy, PartialEq, Eq, Structural)]
pub enum ErrorKind {
    Io,
    Serde,
    AddrParseError,
    Other,
}

impl ErrorKind {
    /// The tag of this kind as it appears in error descriptions.
    pub open spec fn tag(self) -> Seq<char> {
        match self {
            ErrorKind::Io => "io"@,
            ErrorKind::Serde => "serde"@,
            ErrorKind::AddrParseError => "AddrParseError"@,
            ErrorKind::Other => "other"@,
        }
    }

    /// Renders the kind's tag.
    pub fn to_string(&self) -> (r: String)
        ensures
            r@ == self.tag(),
    {
        match self {
            ErrorKind::Io => String::from_str("io"),
            ErrorKind::Serde => String::from_str("serde"),
            ErrorKind::AddrParseError => String::from_str("AddrParseError"),
            ErrorKind::Other => String::from_str("other"),
        }
    }
}

/// An error of the controller core: a kind plus a description.
#[derive(Debug, Clone)]
pub struct Error {
    pub kind: ErrorKind,
    pub reason: String,
}

impl Error {
    /// An error of the catch-all kind with a fixed description.
    pub fn new(reason: &'static str) -> (r: Self)
        ensures
            r.kind == ErrorKind::Other,
            r.reason@ == reason@,
    {
        Error { kind: ErrorKind::Other, reason: String::from_str(reason) }
    }

    /// A codec error with the given description.
    pub fn serde(reason: String) -> (r: Self)
        ensures
            r.kind == ErrorKind::Serde,
            r.reason@ == reason@,
    {
        Error { kind: ErrorKind::Serde, reason }
    }

    /// An I/O error with the given description.
    pub fn io(reason: String) -> (r: Self)
        ensures
            r.kind == ErrorKind::Io,
            r.reason@ == reason@,
    {
        Error { kind: ErrorKind::Io, reason }
    }

    /// A malformed-address error with the given description.
    pub fn addr(reason: String) -> (r: Self)
        ensures
            r.kind == ErrorKind::AddrParseError,
            r.reason@ == reason@,
    {
        Error { kind: ErrorKind::AddrParseError, reason }
    }

    /// The full description of this error, as a single line.
    pub fn describe(&self) -> (r: String)
        ensures
            r@ == "ephc error, kind: "@ + self.kind.tag() + ", err: "@ + self.reason@,
    {
        let mut s = String::from_str("ephc error, kind: ");
        let tag = self.kind.to_string();
        s.append(tag.as_str());
        s.append(", err: ");
        s.append(self.reason.as_str());
        proof {
            assert(s@ =~= "ephc error, kind: "@ + self.kind.tag() + ", err: "@ + self.reason@);
        }
        s
    }
}

} // verus!
