//! The errors the library reports: an operating system error code, or a kind with a
//! fixed message.
use vstd::prelude::*;

verus! {

/// The category of an error that does not come from the operating system.
#[derive(Clone, Copy, PartialEq, Eq, Debug)]
pub enum ErrorKind {
    /// An argument was not acceptable.
    InvalidInput,
    /// Data read was not in the expected format.
    InvalidData,
    /// A write accepted no bytes.
    WriteZero,
    /// The operation or the value is not supported here.
    Unsupported,
    /// Anything else.
    Other,
}

/// The ways the DNS wire format can fail to be written or read.
#[derive(Clone, Copy, PartialEq, Eq, Debug)]
pub enum DnsErrorKind {
    NotEnoughWriteSpace,
    NotEnoughReadBytes,
    Parse,
    NameTooLong,
    InvalidUtf8,
    InvalidCode,
    TooManyUrlSegments,
    Unknown,
}

/// An I/O error.
#[derive(Clone, Copy, PartialEq, Eq, Debug)]
pub enum IoError {
    /// An error code of the operating system (`errno`).
    Os(i32),
    /// An error of the given kind, with a fixed message.
    Simple { kind: ErrorKind, message: &'static str },
    /// An error of the given kind, with no message of its own.
    Kind(ErrorKind),
    /// A DNS message could not be written or read; its kind is `Other`.
    Dns(DnsErrorKind),
}

impl IoError {
    /// The category of an error that does not come from the operating system.
    pub open spec fn spec_kind(self) -> Option<ErrorKind> {
        match self {
            IoError::Os(_) => None,
            IoError::Simple { kind, .. } => Some(kind),
            IoError::Kind(kind) => Some(kind),
            IoError::Dns(_) => Some(ErrorKind::Other),
        }
    }

    /// An error built from an operating system error code.
    pub fn from_raw_os_error(code: i32) -> (e: IoError)
        ensures
            e == IoError::Os(code),
    {
        IoError::Os(code)
    }

    /// The operating system error code, if the error carries one.
    pub fn raw_os_error(&self) -> (r: Option<i32>)
        ensures
            r == match *self {
                IoError::Os(c) => Some(c),
                _ => None,
            },
    {
        match self {
            IoError::Os(c) => Some(*c),
            _ => None,
        }
    }
}

} // verus!
