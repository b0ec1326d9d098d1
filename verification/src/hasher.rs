//! A hasher that hands back the last integer written to it, for maps keyed by event ids.
use vstd::prelude::*;

verus! {

/// A hasher whose state is the last integer written to it.
pub struct NoopHasher(pub u64);

impl NoopHasher {
    /// Creates a hasher whose state is zero.
    pub fn new() -> (h: Self)
        ensures
            h.0 == 0,
    {
        NoopHasher(0)
    }

    /// Builds a fresh hasher that starts from the same state.
    pub fn build_hasher(&self) -> (h: NoopHasher)
        ensures
            h.0 == self.0,
    {
        NoopHasher(self.0)
    }

    /// The hash is the last integer written.
    pub fn finish(&self) -> (r: u64)
        ensures
            r == self.0,
    {
        self.0
    }

    /// Replaces the state with `i`, taken modulo `2^64`.
    pub fn write_usize(&mut self, i: usize)
        ensures
            final(self).0 == i as u64,
    {
        self.0 = i as u64;
    }

    /// Replaces the state with `i`.
    pub fn write_u32(&mut self, i: u32)
        ensures
            final(self).0 == i as u64,
    {
        self.0 = i as u64;
    }

    /// Replaces the state with `i`.
    pub fn write_u64(&mut self, i: u64)
        ensures
            final(self).0 == i,
    {
        self.0 = i;
    }
}

impl Default for NoopHasher {
    fn default() -> (h: Self)
        ensures
            h.0 == 0,
    {
        NoopHasher(0)
    }
}

} // verus!
