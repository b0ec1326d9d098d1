//! The bookkeeping of `join!` and `try_join!`: which branch is polled when.
//!
//! All branches share one waker whose state is a bit mask: bit `i` is set when branch `i`
//! was woken since it was last polled. A branch is polled only when its bit is set, so no
//! branch is ever polled spuriously.
use vstd::prelude::*;

verus! {

/// The most branches one join can have.
pub const MAX_BRANCHES: usize = 32;

/// Whether bit `index` of `mask` is set.
pub open spec fn woken_bit(mask: u64, index: u64) -> bool {
    mask & (1u64 << index) != 0
}

/// The wake state shared by the branches of one join.
pub struct JoinWaker {
    /// Bit `i` is set when branch `i` was woken since it was last polled.
    pub woken: u64,
}

impl JoinWaker {
    /// A waker on which every branch counts as woken, so that each is polled once at first.
    pub fn new() -> (w: Self)
        ensures
            w.woken == !0u64,
    {
        JoinWaker { woken: !0u64 }
    }

    /// Marks branch `index` as woken.
    pub fn wake(&mut self, index: u64)
        requires
            index < 64,
        ensures
            final(self).woken == old(self).woken | (1u64 << index),
    {
        self.woken = self.woken | (1u64 << index);
    }

    /// Clears the mark of branch `index` and says whether it was set.
    pub fn take(&mut self, index: u64) -> (was: bool)
        requires
            index < 64,
        ensures
            was == woken_bit(old(self).woken, index),
            final(self).woken == old(self).woken & !(1u64 << index),
    {
        let mask: u64 = 1u64 << index;
        let was = self.woken & mask != 0;
        self.woken = self.woken & !mask;
        was
    }
}

/// A fresh waker has every branch woken.
pub proof fn lemma_fresh_waker_wakes_all(index: u64)
    requires
        index < 64,
    ensures
        woken_bit(!0u64, index),
{
    assert((!0u64) & (1u64 << index) != 0) by (bit_vector)
        requires
            index < 64,
    ;
}

/// Taking a branch's mark clears it, so a branch that is not woken again is not polled again;
/// the marks of the other branches stay as they were.
pub proof fn lemma_take_consumes_wake(mask: u64, index: u64, other: u64)
    requires
        index < 64,
        other < 64,
    ensures
        !woken_bit(mask & !(1u64 << index), index),
        other != index ==> woken_bit(mask & !(1u64 << index), other) == woken_bit(mask, other),
{
    assert((mask & !(1u64 << index)) & (1u64 << index) == 0) by (bit_vector)
        requires
            index < 64,
    ;
    assert(other != index ==> ((mask & !(1u64 << index)) & (1u64 << other)) == (mask & (1u64
        << other))) by (bit_vector)
        requires
            index < 64,
            other < 64,
    ;
}

/// Waking a branch sets its mark and leaves the marks of the other branches as they were.
pub proof fn lemma_wake_marks(mask: u64, index: u64, other: u64)
    requires
        index < 64,
        other < 64,
    ensures
        woken_bit(mask | (1u64 << index), index),
        other != index ==> woken_bit(mask | (1u64 << index), other) == woken_bit(mask, other),
{
    assert((mask | (1u64 << index)) & (1u64 << index) != 0) by (bit_vector)
        requires
            index < 64,
    ;
    assert(other != index ==> ((mask | (1u64 << index)) & (1u64 << other)) == (mask & (1u64
        << other))) by (bit_vector)
        requires
            index < 64,
            other < 64,
    ;
}

/// The state of a join: which branches have finished, and the shared wake state.
pub struct Join {
    /// `done[i]` once branch `i` has produced its output.
    pub done: Vec<bool>,
    pub waker: JoinWaker,
}

impl Join {
    /// A join of `branches` running branches sharing `waker`.
    pub fn new(branches: usize, waker: JoinWaker) -> (j: Self)
        requires
            branches <= MAX_BRANCHES,
        ensures
            j.done@ == Seq::new(branches as nat, |i: int| false),
            j.waker == waker,
    {
        let mut done: Vec<bool> = Vec::new();
        while done.len() < branches
            invariant
                done.len() <= branches,
                forall|i: int| 0 <= i < done.len() ==> !done@[i],
            decreases branches - done.len(),
        {
            done.push(false);
        }
        assert(done@ =~= Seq::new(branches as nat, |i: int| false));
        Join { done, waker }
    }

    /// Decides whether branch `index` is polled now: it is when it is still running and was
    /// woken. Its mark is consumed only when it is still running.
    pub fn should_poll(&mut self, index: usize) -> (r: bool)
        requires
            index < old(self).done.len() <= MAX_BRANCHES,
        ensures
            r == (!old(self).done@[index as int] && woken_bit(
                old(self).waker.woken,
                index as u64,
            )),
            final(self).done == old(self).done,
            final(self).waker.woken == if old(self).done@[index as int] {
                old(self).waker.woken
            } else {
                old(self).waker.woken & !(1u64 << (index as u64))
            },
    {
        if self.done[index] {
            return false;
        }
        self.waker.take(index as u64)
    }

    /// Records that branch `index` produced its output.
    pub fn finish(&mut self, index: usize)
        requires
            index < old(self).done.len(),
        ensures
            final(self).done@ == old(self).done@.update(index as int, true),
            final(self).waker == old(self).waker,
    {
        self.done.set(index, true);
    }

    /// Whether every branch has produced its output.
    pub fn is_ready(&self) -> (r: bool)
        ensures
            r == (forall|i: int| 0 <= i < self.done@.len() ==> self.done@[i]),
    {
        let mut i: usize = 0;
        while i < self.done.len()
            invariant
                i <= self.done@.len(),
                forall|k: int| 0 <= k < i ==> self.done@[k],
            decreases self.done@.len() - i,
        {
            if !self.done[i] {
                return false;
            }
            i = i + 1;
        }
        true
    }
}

/// What a `try_join!` does after a branch produced its output.
#[derive(PartialEq, Eq, Structural, Debug, Clone, Copy)]
pub enum TryStep {
    /// The output was a success: the join goes on.
    Continue,
    /// The output was an error: the join ends with it at once.
    Fail,
}

/// The state of a `try_join!`: a join that ends at the first error.
pub struct TryJoin {
    pub join: Join,
}

impl TryJoin {
    /// A join of `branches` running branches sharing `waker`.
    pub fn new(branches: usize, waker: JoinWaker) -> (j: Self)
        requires
            branches <= MAX_BRANCHES,
        ensures
            j.join.done@ == Seq::new(branches as nat, |i: int| false),
            j.join.waker == waker,
    {
        TryJoin { join: Join::new(branches, waker) }
    }

    /// Records the output of branch `index`: a success finishes the branch, an error ends
    /// the join and leaves every branch as it was.
    pub fn record(&mut self, index: usize, ok: bool) -> (step: TryStep)
        requires
            index < old(self).join.done.len(),
        ensures
            step == (if ok {
                TryStep::Continue
            } else {
                TryStep::Fail
            }),
            final(self).join.done@ == (if ok {
                old(self).join.done@.update(index as int, true)
            } else {
                old(self).join.done@
            }),
            final(self).join.waker == old(self).join.waker,
    {
        if ok {
            self.join.finish(index);
            TryStep::Continue
        } else {
            TryStep::Fail
        }
    }
}

} // verus!
