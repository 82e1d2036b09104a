//! The state behind `Math.random`: a xorshift64 generator over a seed that
//! is drawn once per process. The host scales each state to [0, 1].
use vstd::prelude::*;
use rand::RngCore;

verus! {

/// One xorshift64 step.
pub open spec fn xorshift64(s: u64) -> u64 {
    let a = s ^ (s << 13u64);
    let b = a ^ (a >> 17u64);
    b ^ (b << 5u64)
}

/// Relies on rand::thread_rng and RngCore::next_u64 for a fresh seed;
/// nothing is known of the value drawn.
#[verifier::external_body]
fn draw_seed() -> (r: u64) {
    rand::thread_rng().next_u64()
}

pub struct MathRandom {
    pub seed: u64,
}

impl MathRandom {
    /// A generator with a seed drawn from the thread-local generator.
    pub fn new() -> (r: MathRandom) {
        MathRandom { seed: draw_seed() }
    }

    /// A generator starting from `seed`.
    pub fn with_seed(seed: u64) -> (r: MathRandom)
        ensures
            r.seed == seed,
    {
        MathRandom { seed }
    }

    /// Advances the state by one xorshift64 step and returns the new state.
    pub fn next(&mut self) -> (r: u64)
        ensures
            r == xorshift64(old(self).seed),
            final(self).seed == r,
    {
        let s = self.seed;
        let a = s ^ (s << 13u64);
        let b = a ^ (a >> 17u64);
        let c = b ^ (b << 5u64);
        self.seed = c;
        c
    }
}

} // verus!
