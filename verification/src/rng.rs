//! A seedable pseudo-random source.  The generator is threaded explicitly
//! through every sampling routine, so a render is reproducible from its seed.

use crate::fixed::ONE;
use vstd::prelude::*;

verus! {

#[verifier::external_type_specification]
#[verifier::external_body]
pub struct ExStdRng(rand::rngs::StdRng);

/// A pseudo-random source for the sampling routines.
pub struct Rng {
    inner: rand::rngs::StdRng,
}

impl Rng {
    /// Relies on rand's `SeedableRng::seed_from_u64`: builds a generator
    /// deterministically from a 64-bit seed.
    #[verifier::external_body]
    fn seeded(seed: u64) -> Rng {
        Rng { inner: <rand::rngs::StdRng as rand::SeedableRng>::seed_from_u64(seed) }
    }

    /// Relies on rand's `RngExt::random_range` over `lo..=hi`: a value
    /// uniform in the inclusive range, which panics only when the range is
    /// empty.
    #[verifier::external_body]
    fn next_in(&mut self, lo: i64, hi: i64) -> (r: i64)
        requires
            lo <= hi,
        ensures
            lo <= r <= hi,
    {
        rand::RngExt::random_range(&mut self.inner, lo..=hi)
    }

    /// A new generator from a seed.
    pub fn new(seed: u64) -> Rng {
        Rng::seeded(seed)
    }

    /// A fixed-point value uniform in `[0, 1)`.
    pub fn next_unit(&mut self) -> (r: i64)
        ensures
            0 <= r < ONE,
    {
        self.next_in(0, ONE - 1)
    }

    /// A fixed-point value uniform in `[lo, hi)`.
    pub fn next_range(&mut self, lo: i64, hi: i64) -> (r: i64)
        requires
            lo < hi,
        ensures
            lo <= r < hi,
    {
        self.next_in(lo, hi - 1)
    }
}

/// An integer uniform in `[min, max]`.
pub fn random_int(rng: &mut Rng, min: i32, max: i32) -> (r: i32)
    requires
        min <= max,
    ensures
        min <= r <= max,
{
    let span = rng.next_in(0, max as i64 - min as i64);
    (min as i64 + span) as i32
}

} // verus!
