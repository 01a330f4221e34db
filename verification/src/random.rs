//! The randomness boundary: a seedable generator that the offer engine
//! and the dice evaluator draw from, injectable so that callers and tests
//! can fix the seed.

use vstd::prelude::*;

verus! {

/// Declares rand's `StdRng` so a generator can be held in a field; the
/// value itself stays opaque.
#[verifier::external_type_specification]
#[verifier::external_body]
pub struct ExStdRng(rand::rngs::StdRng);

/// A source of uniform random draws.
pub struct RandomSource {
    rng: rand::rngs::StdRng,
}

impl RandomSource {
    /// Relies on rand's `StdRng::seed_from_u64`: a deterministic generator
    /// created from a seed.
    #[verifier::external_body]
    pub fn new_seeded(seed: u64) -> RandomSource {
        RandomSource { rng: <rand::rngs::StdRng as rand::SeedableRng>::seed_from_u64(seed) }
    }

    /// Relies on rand's `StdRng::from_entropy`: a generator seeded from
    /// operating-system entropy.
    #[verifier::external_body]
    pub fn new_entropy() -> RandomSource {
        RandomSource { rng: <rand::rngs::StdRng as rand::SeedableRng>::from_entropy() }
    }

    /// Relies on rand's `Rng::gen_range`: a uniform draw from `0..bound`;
    /// nothing is assumed beyond the bound itself.
    #[verifier::external_body]
    pub fn next_below(&mut self, bound: u64) -> (r: u64)
        requires
            bound > 0,
        ensures
            r < bound,
    {
        rand::Rng::gen_range(&mut self.rng, 0..bound)
    }

    /// One die roll: a uniform draw from `1..=sides`.
    pub fn roll_die(&mut self, sides: u64) -> (r: u64)
        requires
            sides > 0,
        ensures
            1 <= r <= sides,
    {
        let below = self.next_below(sides);
        below + 1
    }
}

} // verus!
