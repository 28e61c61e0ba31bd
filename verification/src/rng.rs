//! A seedable pseudo-random source injected into the AI updates.
//!
//! Callers that need reproducible sessions construct the generator from a
//! seed of their choice; the simulation never reads an ambient clock or a
//! global generator.

use vstd::prelude::*;

verus! {

#[verifier::external_type_specification]
#[verifier::external_body]
pub struct ExStdRng(rand::rngs::StdRng);

/// The pseudo-random source threaded through the AI updates.
pub struct GameRng {
    rng: rand::rngs::StdRng,
}

impl GameRng {
    /// Relies on rand's `SeedableRng::seed_from_u64` to build a generator
    /// whose draws are a function of the seed alone.
    #[verifier::external_body]
    pub fn from_seed(seed: u64) -> GameRng {
        GameRng { rng: rand::SeedableRng::seed_from_u64(seed) }
    }

    /// Relies on rand's `Rng::gen_range`, which panics on an empty range and
    /// otherwise samples a value of the half-open range `lo..hi`.
    #[verifier::external_body]
    pub(crate) fn sample_range(&mut self, lo: u64, hi: u64) -> (r: u64)
        requires
            lo < hi,
        ensures
            lo <= r < hi,
    {
        rand::Rng::gen_range(&mut self.rng, lo..hi)
    }
}

} // verus!
