//! The completion queue of an io-uring instance, read as plain values.
use vstd::prelude::*;

verus! {

/// A completion queue entry (`io_uring_cqe`).
#[derive(Clone, Copy, PartialEq, Eq, Debug)]
pub struct Cqe {
    /// The `user_data` of the submission this entry completes.
    pub user_data: u64,
    /// The result of the operation: a count, or a negated errno.
    pub res: i32,
    pub flags: u32,
}

/// The completion ring: the indices that the kernel and the runtime share, and the
/// array of entries they index into.
pub struct Completion {
    pub head: u32,
    pub tail: u32,
    pub flags: u32,
    pub overflow: u32,
    pub cqes: Vec<Cqe>,
    pub ring_mask: u32,
    pub ring_entries: u32,
}

/// How many entries lie between `head` and `tail`. Both are free-running counters that
/// wrap around at `2^32`.
pub open spec fn ring_count(head: u32, tail: u32) -> nat {
    if tail >= head {
        (tail - head) as nat
    } else {
        (tail + 0x1_0000_0000 - head) as nat
    }
}

/// The counter `k` steps after `head`, wrapping around at `2^32`.
pub open spec fn ring_cursor(head: u32, k: int) -> int {
    if head + k <= u32::MAX {
        head + k
    } else {
        head + k - 0x1_0000_0000
    }
}

proof fn lemma_ring_cursor(head: u32, tail: u32, i: int)
    requires
        0 <= i <= ring_count(head, tail),
    ensures
        0 <= ring_cursor(head, i) <= u32::MAX,
        (ring_cursor(head, i) == tail) <==> (i == ring_count(head, tail)),
        i < ring_count(head, tail) ==> ring_cursor(head, i + 1) == if ring_cursor(head, i)
            == u32::MAX {
            0
        } else {
            ring_cursor(head, i) + 1
        },
{
}

proof fn lemma_mask_bound(x: u32, mask: u32)
    ensures
        x & mask <= mask,
{
    assert(x & mask <= mask) by (bit_vector);
}

impl Completion {
    /// Once the head has caught up with the tail, nothing is pending: a second read right
    /// after one that committed yields no entry.
    pub proof fn lemma_committed_ring_is_empty(&self)
        requires
            self.head == self.tail,
        ensures
            self.pending().len() == 0,
    {
    }

    /// The entries between the head and the tail, in the order the ring is read: the
    /// `k`-th is at the slot the counter `head + k` (wrapping) takes under the mask.
    pub open spec fn pending(&self) -> Seq<Cqe> {
        Seq::new(
            ring_count(self.head, self.tail),
            |k: int| self.cqes@[(ring_cursor(self.head, k) as u32 & self.ring_mask) as int],
        )
    }

    /// The mask never points past the entries array.
    pub open spec fn readable(&self) -> bool {
        self.ring_mask < self.cqes.len()
    }

    /// Copies the entries between the head and the tail without consuming them.
    pub fn peek(&self) -> (out: Vec<Cqe>)
        requires
            self.readable(),
        ensures
            out@ == self.pending(),
    {
        let (out, _) = self.walk();
        out
    }

    /// Copies the entries between the head and the tail and commits the read by moving
    /// the head to where the walk stopped, which is the tail.
    pub fn iter(&mut self) -> (out: Vec<Cqe>)
        requires
            old(self).readable(),
        ensures
            out@ == old(self).pending(),
            final(self).head == old(self).tail,
            final(self).tail == old(self).tail,
            final(self).flags == old(self).flags,
            final(self).overflow == old(self).overflow,
            final(self).cqes@ == old(self).cqes@,
            final(self).ring_mask == old(self).ring_mask,
            final(self).ring_entries == old(self).ring_entries,
    {
        let (out, head) = self.walk();
        self.head = head;
        out
    }

    fn walk(&self) -> (res: (Vec<Cqe>, u32))
        requires
            self.readable(),
        ensures
            res.0@ == self.pending(),
            res.1 == self.tail,
    {
        let ghost n = ring_count(self.head, self.tail);
        let mask = self.ring_mask;
        let mut head = self.head;
        let mut out: Vec<Cqe> = Vec::new();
        let ghost mut i: int = 0;
        proof {
            lemma_ring_cursor(self.head, self.tail, 0);
        }
        while head != self.tail
            invariant
                self.readable(),
                mask == self.ring_mask,
                n == ring_count(self.head, self.tail),
                0 <= i <= n,
                head as int == ring_cursor(self.head, i),
                out@ == self.pending().take(i),
            decreases n - i,
        {
            proof {
                lemma_ring_cursor(self.head, self.tail, i);
                lemma_mask_bound(head, mask);
            }
            let index = head & mask;
            out.push(self.cqes[index as usize]);
            head = if head == u32::MAX {
                0
            } else {
                head + 1
            };
            proof {
                i = i + 1;
                lemma_ring_cursor(self.head, self.tail, i);
                assert(out@ =~= self.pending().take(i));
            }
        }
        proof {
            lemma_ring_cursor(self.head, self.tail, i);
            assert(out@ =~= self.pending());
        }
        (out, head)
    }
}

} // verus!
