//! The reactors' bookkeeping: which task waits on which I/O event, and when a
//! non-blocking operation waits for readiness before it is tried again.
use vstd::prelude::*;

use crate::error::IoError;

pub mod iouring;
pub mod poll;

verus! {

/// The operation would block (Linux value).
pub const EAGAIN: i32 = 11;
/// A connection is being set up (Linux value).
pub const EINPROGRESS: i32 = 115;

/// Whether a non-blocking operation that failed with `e` waits for its descriptor to be
/// ready and is tried again: it does for `EAGAIN` and `EINPROGRESS`; any other error is
/// handed back.
pub fn must_wait(e: &IoError) -> (r: bool)
    ensures
        r == (e matches IoError::Os(code) && (code == EAGAIN || code == EINPROGRESS)),
{
    match e.raw_os_error() {
        Some(code) => code == EAGAIN || code == EINPROGRESS,
        None => false,
    }
}

/// The outcome of a connection from the error a socket reports (`SO_ERROR`): zero means
/// none.
pub fn connection_error(so_error: i32) -> (r: Result<(), IoError>)
    ensures
        so_error == 0 ==> r is Ok,
        so_error != 0 ==> r == Err::<(), IoError>(IoError::Os(so_error)),
{
    if so_error != 0 {
        return Err(IoError::from_raw_os_error(so_error));
    }
    Ok(())
}

} // verus!
