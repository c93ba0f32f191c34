//! Injectable source of uniform randomness, backed by rand's standard
//! seedable generator so that a fixed seed reproduces a fixed draw sequence.
use vstd::prelude::*;
use rand::Rng;
use rand::SeedableRng;

verus! {

#[verifier::external_type_specification]
#[verifier::external_body]
pub struct ExStdRng(rand::rngs::StdRng);

/// A mutable stream of uniform random draws, consumed sequentially by the
/// generation phases.
pub struct RandomSource {
    rng: rand::rngs::StdRng,
}

impl RandomSource {
    /// Relies on rand::SeedableRng::seed_from_u64: builds a generator whose
    /// draw sequence is a fixed function of the seed.
    #[verifier::external_body]
    pub fn from_seed_u64(seed: u64) -> (source: RandomSource) {
        RandomSource { rng: rand::rngs::StdRng::seed_from_u64(seed) }
    }

    /// Relies on rand::Rng::gen_range over `0..bound`: returns a uniformly
    /// drawn value below `bound`, and panics only when the range is empty.
    #[verifier::external_body]
    pub fn next_below(&mut self, bound: u64) -> (draw: u64)
        requires
            bound > 0,
        ensures
            draw < bound,
    {
        self.rng.gen_range(0..bound)
    }
}

} // verus!
