//! The parameters that `io_uring_setup` fills in (`io_uring_params`).
use vstd::prelude::*;

verus! {

/// The rings share one mapping.
pub const IORING_FEAT_SINGLE_MMAP: u32 = 1;
/// A kernel thread polls the submission queue.
pub const IORING_SETUP_SQPOLL: u32 = 2;
/// The size in bytes of one completion queue entry (`io_uring_cqe`).
pub const CQE_SIZE: usize = 16;
/// The size in bytes of one submission queue entry (`io_uring_sqe`).
pub const SQE_SIZE: usize = 64;
/// The size in bytes of one slot of the submission index array.
pub const SQ_INDEX_SIZE: usize = 4;

/// Offsets of the submission ring's fields inside its mapping (`io_sqring_offsets`).
#[derive(Clone, Copy, Default)]
pub struct SqringOffsets {
    pub head: u32,
    pub tail: u32,
    pub ring_mask: u32,
    pub ring_entries: u32,
    pub flags: u32,
    pub dropped: u32,
    pub array: u32,
    pub resv1: u32,
    pub user_addr: u64,
}

/// Offsets of the completion ring's fields inside its mapping (`io_cqring_offsets`).
#[derive(Clone, Copy, Default)]
pub struct CqringOffsets {
    pub head: u32,
    pub tail: u32,
    pub ring_mask: u32,
    pub ring_entries: u32,
    pub overflow: u32,
    pub cqes: u32,
    pub flags: u32,
    pub resv1: u32,
    pub user_addr: u64,
}

/// The setup parameters of a ring.
#[derive(Clone, Copy, Default)]
pub struct Params {
    pub sq_entries: u32,
    pub cq_entries: u32,
    pub flags: u32,
    pub sq_thread_cpu: u32,
    pub sq_thread_idle: u32,
    pub features: u32,
    pub wq_fd: u32,
    pub resv: [u32; 3],
    pub sq_off: SqringOffsets,
    pub cq_off: CqringOffsets,
}

/// Bytes that the completion ring's mapping needs: up to the entries, then the entries.
pub open spec fn spec_cq_size(p: Params) -> int {
    p.cq_off.cqes + p.cq_entries * CQE_SIZE
}

/// Bytes that the submission ring's mapping needs: up to the index array, then the array.
pub open spec fn spec_sq_size(p: Params) -> int {
    p.sq_off.array + p.sq_entries * SQ_INDEX_SIZE
}

/// Bytes that the submission entries need.
pub open spec fn spec_sqes_size(p: Params) -> int {
    p.sq_entries * SQE_SIZE
}

impl Params {
    /// Whether the two rings share one memory mapping.
    pub fn feat_single_allocation(&self) -> (r: bool)
        ensures
            r == (self.features & IORING_FEAT_SINGLE_MMAP != 0),
    {
        (self.features & IORING_FEAT_SINGLE_MMAP) != 0
    }

    /// The size of the completion ring's mapping.
    pub fn cq_size(&self) -> (r: usize)
        requires
            spec_cq_size(*self) <= usize::MAX,
        ensures
            r == spec_cq_size(*self),
    {
        let cqes = self.cq_off.cqes as usize;
        let cq_entries = self.cq_entries as usize;
        cqes + cq_entries * CQE_SIZE
    }

    /// The size of the submission ring's mapping.
    pub fn sq_size(&self) -> (r: usize)
        requires
            spec_sq_size(*self) <= usize::MAX,
        ensures
            r == spec_sq_size(*self),
    {
        let array = self.sq_off.array as usize;
        let sq_entries = self.sq_entries as usize;
        array + sq_entries * SQ_INDEX_SIZE
    }

    /// The size of the submission entries' mapping.
    pub fn sqes_size(&self) -> (r: usize)
        requires
            spec_sqes_size(*self) <= usize::MAX,
        ensures
            r == spec_sqes_size(*self),
    {
        self.sq_entries as usize * SQE_SIZE
    }

    /// Whether a kernel thread polls the submission queue.
    pub fn sq_poll(&self) -> (r: bool)
        ensures
            r == (self.flags & IORING_SETUP_SQPOLL != 0),
    {
        (self.flags & IORING_SETUP_SQPOLL) != 0
    }
}

/// The sizes of the submission and completion mappings. When the rings share one
/// mapping, both are the larger of the two.
pub fn queue_sizes(p: &Params) -> (r: (usize, usize))
    requires
        spec_sq_size(*p) <= usize::MAX,
        spec_cq_size(*p) <= usize::MAX,
    ensures
        p.features & IORING_FEAT_SINGLE_MMAP == 0 ==> r == (spec_sq_size(*p) as usize,
            spec_cq_size(*p) as usize),
        p.features & IORING_FEAT_SINGLE_MMAP != 0 ==> ({
            let m = if spec_sq_size(*p) >= spec_cq_size(*p) {
                spec_sq_size(*p)
            } else {
                spec_cq_size(*p)
            };
            r.0 == m && r.1 == m
        }),
{
    let mut sq_size = p.sq_size();
    let mut cq_size = p.cq_size();
    if p.feat_single_allocation() {
        cq_size = if sq_size >= cq_size { sq_size } else { cq_size };
        sq_size = cq_size;
    }
    (sq_size, cq_size)
}

/// The smallest power of two at or above `x` (one for zero).
pub open spec fn next_power_of_two(x: nat) -> nat
    decreases x,
{
    if x <= 1 {
        1
    } else {
        2 * next_power_of_two(((x + 1) / 2) as nat)
    }
}

/// Rounds a ring depth up to a power of two, capped at `4096`.
pub fn normalize_size(x: u64) -> (r: u32)
    requires
        x <= 0x8000_0000_0000_0000,
    ensures
        r == if next_power_of_two(x as nat) <= 4096 { next_power_of_two(x as nat) } else { 4096 },
{
    let mut p: u64 = 1;
    proof {
        lemma_next_power_of_two_props(x as nat);
    }
    while p < x && p < 4096
        invariant
            1 <= p <= 4096,
            x <= 0x8000_0000_0000_0000,
            is_power_of_two(p as nat),
            p < x ==> p < next_power_of_two(x as nat),
            p <= next_power_of_two(x as nat),
        decreases 4096 - p,
    {
        proof {
            lemma_next_power_of_two_step(p as nat, x as nat);
            lemma_4096_is_power_of_two();
            lemma_powers_between(p as nat, 4096);
        }
        p = p * 2;
    }
    proof {
        lemma_next_power_of_two_bounds(p as nat, x as nat);
    }
    p as u32
}

/// `p` is one, or twice a power of two.
pub open spec fn is_power_of_two(p: nat) -> bool
    decreases p,
{
    if p == 1 {
        true
    } else if p < 2 || p % 2 != 0 {
        false
    } else {
        is_power_of_two(p / 2)
    }
}

proof fn lemma_next_power_of_two_props(x: nat)
    ensures
        next_power_of_two(x) >= x,
        next_power_of_two(x) >= 1,
        is_power_of_two(next_power_of_two(x)),
        forall|q: nat| is_power_of_two(q) && q >= x ==> q >= next_power_of_two(x),
    decreases x,
{
    if x > 1 {
        let h = ((x + 1) / 2) as nat;
        lemma_next_power_of_two_props(h);
        assert forall|q: nat| is_power_of_two(q) && q >= x implies q >= next_power_of_two(x) by {
            if q == 1 {
            } else {
                assert(q % 2 == 0);
                assert(is_power_of_two(q / 2));
                assert(q / 2 >= h);
                assert(q / 2 >= next_power_of_two(h));
            }
        }
    }
}

proof fn lemma_next_power_of_two_step(p: nat, x: nat)
    requires
        is_power_of_two(p),
        p < x,
        p < next_power_of_two(x),
    ensures
        is_power_of_two(2 * p),
        2 * p <= next_power_of_two(x),
        2 * p < x ==> 2 * p < next_power_of_two(x),
{
    lemma_next_power_of_two_props(x);
    lemma_double_power(p);
    lemma_powers_between(p, next_power_of_two(x));
}

proof fn lemma_4096_is_power_of_two()
    ensures
        is_power_of_two(4096),
{
    reveal_with_fuel(is_power_of_two, 13);
}

proof fn lemma_double_power(p: nat)
    requires
        is_power_of_two(p),
    ensures
        is_power_of_two(2 * p),
{
    assert((2 * p) % 2 == 0);
    assert((2 * p) / 2 == p);
}

/// Between a power of two and the next one up there is no other.
proof fn lemma_powers_between(p: nat, q: nat)
    requires
        is_power_of_two(p),
        is_power_of_two(q),
        p < q,
    ensures
        2 * p <= q,
    decreases q,
{
    if p == 1 {
        assert(q >= 2);
    } else {
        assert(q != 1);
        assert(q % 2 == 0 && p % 2 == 0);
        lemma_powers_between(p / 2, q / 2);
    }
}

proof fn lemma_next_power_of_two_bounds(p: nat, x: nat)
    requires
        1 <= p <= 4096,
        is_power_of_two(p),
        p <= next_power_of_two(x),
        !(p < x && p < 4096),
    ensures
        p == if next_power_of_two(x) <= 4096 { next_power_of_two(x) } else { 4096 },
{
    lemma_next_power_of_two_props(x);
    if p >= x {
        assert(p >= next_power_of_two(x));
    } else {
        assert(p == 4096);
    }
}

} // verus!
