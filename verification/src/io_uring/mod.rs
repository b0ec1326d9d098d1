//! A minimal io-uring binding: its parameters and its two rings, read as plain values.
use vstd::prelude::*;

pub mod cq;
pub mod params;
pub mod sq;

use self::cq::{Completion, Cqe};
use self::params::{Params, IORING_SETUP_SQPOLL};
use self::sq::{Submission, IORING_SQ_NEED_WAKEUP};

verus! {

/// `io_uring_enter` waits for completions.
pub const IORING_ENTER_GETEVENTS: u32 = 1;
/// `io_uring_enter` wakes the kernel's polling thread.
pub const IORING_ENTER_SQ_WAKEUP: u32 = 2;

/// A ring: its file descriptor, its two queues and the parameters it was set up with.
pub struct IoUring {
    pub fd: i32,
    pub sq: Submission,
    pub cq: Completion,
    pub params: Params,
}

impl IoUring {
    /// Whether the ring was set up with a kernel thread polling the submission queue.
    pub fn poll_mode(&self) -> (r: bool)
        ensures
            r == (self.params.flags & IORING_SETUP_SQPOLL != 0),
    {
        (self.params.flags & IORING_SETUP_SQPOLL) != 0
    }

    /// The flags for `io_uring_enter`: always wait for events, and also wake the polling
    /// thread when the ring polls and the thread asked for it.
    pub fn submit_flags(&self) -> (r: u32)
        ensures
            r == if self.params.flags & IORING_SETUP_SQPOLL != 0 && self.sq.flags
                & IORING_SQ_NEED_WAKEUP != 0 {
                IORING_ENTER_SQ_WAKEUP | IORING_ENTER_GETEVENTS
            } else {
                IORING_ENTER_GETEVENTS
            },
    {
        if self.poll_mode() && self.sq.needs_wakeup() {
            IORING_ENTER_SQ_WAKEUP | IORING_ENTER_GETEVENTS
        } else {
            IORING_ENTER_GETEVENTS
        }
    }

    /// Reads the completions between the head and the tail and commits the read.
    pub fn iter(&mut self) -> (out: Vec<Cqe>)
        requires
            old(self).cq.readable(),
        ensures
            out@ == old(self).cq.pending(),
            final(self).cq.head == old(self).cq.tail,
            final(self).cq.tail == old(self).cq.tail,
            final(self).cq.cqes@ == old(self).cq.cqes@,
            final(self).cq.ring_mask == old(self).cq.ring_mask,
            final(self).cq.ring_entries == old(self).cq.ring_entries,
            final(self).cq.flags == old(self).cq.flags,
            final(self).cq.overflow == old(self).cq.overflow,
            final(self).sq == old(self).sq,
            final(self).fd == old(self).fd,
            final(self).params == old(self).params,
    {
        self.cq.iter()
    }
}

} // verus!
