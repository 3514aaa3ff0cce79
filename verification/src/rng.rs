//! Deterministic pseudo-random draws for spawn jitter and particle bursts.
//!
//! The generator is a plain 64-bit linear congruential generator (Knuth's
//! MMIX multiplier).  It is part of the game state, so a whole run is a
//! deterministic function of the seed; the contracts promise only the
//! range of each draw, never its value, so every caller is verified for
//! every possible outcome.

use vstd::prelude::*;

verus! {

/// A 64-bit linear congruential generator.
#[derive(Clone, Copy, Debug, PartialEq, Eq, Structural)]
pub struct Rng {
    state: u64,
}

impl Rng {
    /// Starts a generator from a seed; equal seeds give equal runs.
    pub fn from_seed(seed: u64) -> (r: Rng) {
        Rng { state: seed }
    }

    /// Advances the generator and returns the next raw draw.
    pub fn next_u64(&mut self) -> (r: u64) {
        let wide: u128 = (self.state as u128) * 6364136223846793005u128 + 1442695040888963407u128;
        self.state = #[verifier::truncate] (wide as u64);
        self.state
    }

    /// A draw below `n`.
    pub fn below(&mut self, n: u32) -> (r: u32)
        requires
            n >= 1,
        ensures
            r < n,
    {
        let x = self.next_u64();
        (x % (n as u64)) as u32
    }

    /// A draw from the inclusive range `[lo, hi]`.
    pub fn range_i64(&mut self, lo: i64, hi: i64) -> (r: i64)
        requires
            lo <= hi,
            hi - lo < u32::MAX,
        ensures
            lo <= r <= hi,
    {
        let span: u32 = ((hi - lo) + 1) as u32;
        lo + (self.below(span) as i64)
    }
}

} // verus!
