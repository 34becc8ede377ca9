//! Deterministic pseudo-random byte stream for the RND opcode.
//!
//! Lehmer / multiplicative linear-congruential generator:
//! `seed' = (A * seed + C) mod M` with `A = 48271`, `C = 1`, `M = 2^31 - 1`.
//! The output byte is `seed' mod 256`. The stream is a pure function of the
//! initial seed; nothing reseeds it during a run.

use vstd::prelude::*;

verus! {

pub const RNG_A: u32 = 48271;

pub const RNG_C: u32 = 1;

pub const RNG_M: u32 = 2147483647;

pub struct RNG {
    pub seed: u32,
}

/// The successor of a generator state: `(A * seed + C) mod M`.
pub open spec fn rng_next_seed(seed: u32) -> u32 {
    ((RNG_A * seed + RNG_C) % (RNG_M as int)) as u32
}

/// The byte produced from a generator state.
pub open spec fn rng_output(seed: u32) -> u8 {
    (seed % 256) as u8
}

impl RNG {
    pub fn new(seed: u32) -> (rng: Self)
        ensures
            rng.seed == seed,
    {
        Self { seed }
    }

    pub fn next(&mut self) -> (r: u8)
        ensures
            final(self).seed == rng_next_seed(old(self).seed),
            r == rng_output(final(self).seed),
    {
        let s: u32 = self.seed;
        proof {
            assert(RNG_A * s <= RNG_A * 0xFFFF_FFFFu32) by (nonlinear_arith)
                requires
                    s <= 0xFFFF_FFFFu32,
            ;
        }
        let wide: u64 = (RNG_A as u64) * (s as u64) + (RNG_C as u64);
        let next: u64 = wide % (RNG_M as u64);
        self.seed = next as u32;
        (self.seed % 256) as u8
    }
}

/// Determinism of the generator: two generators with equal state step to
/// equal states and produce equal bytes, so a run is a function of the
/// initial seed alone.
pub proof fn lemma_rng_deterministic(a: u32, b: u32)
    requires
        a == b,
    ensures
        rng_next_seed(a) == rng_next_seed(b),
        rng_output(rng_next_seed(a)) == rng_output(rng_next_seed(b)),
{
}

} // verus!
