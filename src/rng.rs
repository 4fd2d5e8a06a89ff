use vstd::prelude::*;

verus! {

/// Seed used in place of zero, which is a fixed point of the generator's
/// multiplication step and would make streams from seed 0 degenerate.
pub const ZERO_SEED_REPLACEMENT: u32 = 0xDEADBEEF;

pub const LCG_MULTIPLIER: u32 = 1664525;

pub const LCG_INCREMENT: u32 = 1013904223;

/// State a generator starts from when seeded with `seed`.
pub open spec fn seeded_state(seed: u32) -> u32 {
    if seed == 0 {
        ZERO_SEED_REPLACEMENT
    } else {
        seed
    }
}

/// One step of the linear-congruential recurrence, modulo 2^32.
pub open spec fn lcg_next(s: u32) -> u32 {
    ((s as int * LCG_MULTIPLIER as int + LCG_INCREMENT as int) % 0x1_0000_0000) as u32
}

/// 32-bit linear-congruential generator; the sole source of randomness of a world.
pub struct RngLCG {
    pub state: u32,
}

impl RngLCG {
    pub fn new(seed: u32) -> (r: RngLCG)
        ensures
            r.state == seeded_state(seed),
    {
        let s: u32 = if seed == 0 {
            ZERO_SEED_REPLACEMENT
        } else {
            seed
        };
        RngLCG { state: s }
    }

    /// Advances the state and returns the new state as the draw.
    pub fn next_u32(&mut self) -> (r: u32)
        ensures
            r == lcg_next(old(self).state),
            final(self).state == r,
    {
        self.state = self.state.wrapping_mul(LCG_MULTIPLIER).wrapping_add(LCG_INCREMENT);
        self.state
    }
}

} // verus!
