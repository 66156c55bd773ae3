//! Deterministic pseudo-random stream for the stochastic stages.
//!
//! The generator is xoshiro256+ seeded through splitmix64, written out as
//! plain integer arithmetic so the whole stream is a pure function of the
//! seed: two engines built with the same seed draw bit-identical values in
//! the same order. The draw order across the pipeline's stages is part of
//! the engine's contract.

use vstd::prelude::*;

use crate::fixed::FP_ONE;
use crate::fixed::fp_ok;

verus! {

/// splitmix64 increment.
pub const SM_PHI: u64 = 0x9e3779b97f4a7c15;

/// splitmix64 state advance.
pub open spec fn sm_state_spec(x: u64) -> u64 {
    vstd::wrapping::u64_specs::wrapping_add(x, SM_PHI)
}

/// splitmix64 output mix of an advanced state.
pub open spec fn sm_out_spec(x: u64) -> u64 {
    let z = sm_state_spec(x);
    let z1 = vstd::wrapping::u64_specs::wrapping_mul(z ^ (z >> 30u64), 0xbf58476d1ce4e5b9);
    let z2 = vstd::wrapping::u64_specs::wrapping_mul(z1 ^ (z1 >> 27u64), 0x94d049bb133111eb);
    z2 ^ (z2 >> 31u64)
}

/// Rotate a 64-bit word left by 45 bits.
pub open spec fn rotl45_spec(x: u64) -> u64 {
    (x << 45u64) | (x >> 19u64)
}

/// The xoshiro256+ generator state.
#[derive(Clone, Copy, PartialEq, Eq, Structural, Debug)]
pub struct TapeRng {
    pub s0: u64,
    pub s1: u64,
    pub s2: u64,
    pub s3: u64,
}

/// The value one xoshiro256+ step returns.
pub open spec fn rng_out_spec(r: TapeRng) -> u64 {
    vstd::wrapping::u64_specs::wrapping_add(r.s0, r.s3)
}

/// The state after one xoshiro256+ step.
pub open spec fn rng_step_spec(r: TapeRng) -> TapeRng {
    let t = r.s1 << 17u64;
    let s2a = r.s2 ^ r.s0;
    let s3a = r.s3 ^ r.s1;
    let s1b = r.s1 ^ s2a;
    let s0b = r.s0 ^ s3a;
    let s2b = s2a ^ t;
    let s3b = rotl45_spec(s3a);
    TapeRng { s0: s0b, s1: s1b, s2: s2b, s3: s3b }
}

/// The state a given seed expands to: four successive splitmix64 outputs.
pub open spec fn rng_seeded_spec(seed: u64) -> TapeRng {
    let x1 = sm_state_spec(seed);
    let x2 = sm_state_spec(x1);
    let x3 = sm_state_spec(x2);
    TapeRng {
        s0: sm_out_spec(seed),
        s1: sm_out_spec(x1),
        s2: sm_out_spec(x2),
        s3: sm_out_spec(x3),
    }
}

impl TapeRng {
    /// Expand a 64-bit seed with splitmix64, as the xoshiro reference
    /// seeding does.
    pub fn from_seed(seed: u64) -> (r: TapeRng)
        ensures
            r == rng_seeded_spec(seed),
    {
        let x1: u64 = seed.wrapping_add(SM_PHI);
        let s0: u64 = Self::sm_mix(x1);
        let x2: u64 = x1.wrapping_add(SM_PHI);
        let s1: u64 = Self::sm_mix(x2);
        let x3: u64 = x2.wrapping_add(SM_PHI);
        let s2: u64 = Self::sm_mix(x3);
        let x4: u64 = x3.wrapping_add(SM_PHI);
        let s3: u64 = Self::sm_mix(x4);
        TapeRng { s0, s1, s2, s3 }
    }

    /// The splitmix64 output mix applied to an already-advanced state.
    fn sm_mix(z: u64) -> (r: u64)
        ensures
            ({
                let z1 = vstd::wrapping::u64_specs::wrapping_mul(z ^ (z >> 30u64), 0xbf58476d1ce4e5b9);
                let z2 = vstd::wrapping::u64_specs::wrapping_mul(z1 ^ (z1 >> 27u64), 0x94d049bb133111eb);
                r == z2 ^ (z2 >> 31u64)
            }),
    {
        let z1: u64 = (z ^ (z >> 30)).wrapping_mul(0xbf58476d1ce4e5b9);
        let z2: u64 = (z1 ^ (z1 >> 27)).wrapping_mul(0x94d049bb133111eb);
        z2 ^ (z2 >> 31)
    }

    /// Draw the next 64-bit word and advance the state by one step.
    pub fn next_u64(&mut self) -> (r: u64)
        ensures
            r == rng_out_spec(*old(self)),
            *final(self) == rng_step_spec(*old(self)),
    {
        let result: u64 = self.s0.wrapping_add(self.s3);
        let t: u64 = self.s1 << 17;
        self.s2 = self.s2 ^ self.s0;
        self.s3 = self.s3 ^ self.s1;
        self.s1 = self.s1 ^ self.s2;
        self.s0 = self.s0 ^ self.s3;
        self.s2 = self.s2 ^ t;
        self.s3 = (self.s3 << 45) | (self.s3 >> 19);
        result
    }

    /// Draw a uniform fixed-point variate in `[0, FP_ONE)`: the top sixteen
    /// bits of the next word.
    pub fn next_unit(&mut self) -> (r: i64)
        ensures
            r == unit_of(rng_out_spec(*old(self))),
            *final(self) == rng_step_spec(*old(self)),
            0 <= r < FP_ONE,
            fp_ok(r),
    {
        let w: u64 = self.next_u64();
        let r: i64 = (w >> 48) as i64;
        proof {
            assert((w >> 48u64) < 65536u64) by (bit_vector);
        }
        r
    }
}

/// The unit-interval value a raw 64-bit draw maps to.
pub open spec fn unit_of(w: u64) -> i64 {
    (w >> 48u64) as i64
}

} // verus!
