//! The submission queue of an io-uring instance, read as plain values.
use vstd::prelude::*;

verus! {

/// The kernel's polling thread sleeps and must be woken by `io_uring_enter`.
pub const IORING_SQ_NEED_WAKEUP: u32 = 1;

/// The submission ring: the indices that the kernel and the runtime share, its flags and
/// the index array.
pub struct Submission {
    pub head: u32,
    pub tail: u32,
    pub ring_mask: u32,
    pub ring_entries: u32,
    pub flags: u32,
    pub dropped: u32,
    pub array: Vec<u32>,
}

impl Submission {
    /// Whether the kernel's polling thread asks to be woken up.
    pub fn needs_wakeup(&self) -> (r: bool)
        ensures
            r == (self.flags & IORING_SQ_NEED_WAKEUP != 0),
    {
        (self.flags & IORING_SQ_NEED_WAKEUP) != 0
    }
}

} // verus!
