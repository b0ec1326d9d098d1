//! The decisions of writing a whole buffer to a stream, one write at a time.
use vstd::prelude::*;

use crate::error::{ErrorKind, IoError};

verus! {

/// The message of the error for a write that accepted nothing.
pub const WRITE_ZERO: &'static str = "failed to write whole buffer";

/// What a `write_all` does next.
#[derive(Clone, Copy, PartialEq, Eq, Debug)]
pub enum WriteAll {
    /// Write the bytes from this position on.
    Continue(usize),
    /// Every byte was written.
    Done,
    /// Stop with this error.
    Fail(IoError),
}

/// The first step for a buffer of `total` initialized bytes: nothing to write for an empty
/// one.
pub fn write_all_begin(total: usize) -> (step: WriteAll)
    ensures
        step == if 0 < total { WriteAll::Continue(0) } else { WriteAll::Done },
{
    if 0 < total {
        WriteAll::Continue(0)
    } else {
        WriteAll::Done
    }
}

/// The step after a write of the bytes from `n` on: a write that accepted nothing fails
/// with `WriteZero`, an error stops everything, and otherwise the position moves on by
/// what was written until it reaches `total`.
pub fn write_all_step(n: usize, total: usize, written: Result<usize, IoError>) -> (step: WriteAll)
    requires
        written is Ok ==> n + written->Ok_0 <= usize::MAX,
    ensures
        step == match written {
            Ok(0) => WriteAll::Fail(
                IoError::Simple { kind: ErrorKind::WriteZero, message: WRITE_ZERO },
            ),
            Ok(w) => if n + w < total {
                WriteAll::Continue((n + w) as usize)
            } else {
                WriteAll::Done
            },
            Err(e) => WriteAll::Fail(e),
        },
{
    match written {
        Ok(0) => WriteAll::Fail(IoError::Simple { kind: ErrorKind::WriteZero, message: WRITE_ZERO }),
        Ok(w) => {
            let next = n + w;
            if next < total {
                WriteAll::Continue(next)
            } else {
                WriteAll::Done
            }
        },
        Err(e) => WriteAll::Fail(e),
    }
}

/// Each write that goes on moves strictly forward and stays short of the end, so a
/// `write_all` ends after at most `total` writes; it is done only once every byte before
/// `total` has been written.
pub proof fn lemma_write_all_progress(n: usize, total: usize, w: usize)
    requires
        n + w <= usize::MAX,
    ensures
        ({
            let step = if w == 0 {
                WriteAll::Fail(IoError::Simple { kind: ErrorKind::WriteZero, message: WRITE_ZERO })
            } else if n + w < total {
                WriteAll::Continue((n + w) as usize)
            } else {
                WriteAll::Done
            };
            &&& step matches WriteAll::Continue(m) ==> n < m < total
            &&& step is Done ==> n + w >= total
        }),
{
}

} // verus!
