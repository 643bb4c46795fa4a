//! The injectable, seeded source of randomness every random choice is drawn from.
use rand::rngs::StdRng;
use vstd::prelude::*;

verus! {

#[verifier::external_type_specification]
#[verifier::external_body]
pub struct ExStdRng(rand::rngs::StdRng);

/// A seeded generator of uniform integers: the same seed gives the same draws.
pub struct RandomSource {
    rng: StdRng,
}

impl RandomSource {
    pub fn new(seed: u64) -> (r: RandomSource) {
        RandomSource { rng: seeded_rng(seed) }
    }

    /// A uniform draw from `[lo, hi)`.
    pub fn range(&mut self, lo: i64, hi: i64) -> (r: i64)
        requires
            lo < hi,
        ensures
            lo <= r < hi,
    {
        draw_in(&mut self.rng, lo, hi)
    }
}

/// Relies on rand's `SeedableRng::seed_from_u64` for `StdRng`: a generator fixed by the seed.
#[verifier::external_body]
fn seeded_rng(seed: u64) -> StdRng {
    <StdRng as rand::SeedableRng>::seed_from_u64(seed)
}

/// Relies on rand's `Rng::gen_range` on `lo..hi`: a value in the half-open range,
/// which it panics on only when the range is empty.
#[verifier::external_body]
fn draw_in(rng: &mut StdRng, lo: i64, hi: i64) -> (r: i64)
    requires
        lo < hi,
    ensures
        lo <= r < hi,
{
    rand::Rng::gen_range(rng, lo..hi)
}

} // verus!
