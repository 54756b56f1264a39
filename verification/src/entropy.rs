//! The uniform random source the renderer consumes.
//!
//! Randomness is threaded through the renderer as an explicit handle, so a
//! render is a deterministic function of the seed: two renders of one scene
//! from one seed agree byte for byte, and every worker can own its own
//! stream. The generator is a 64-bit linear congruential step; a draw takes
//! sixteen bits from the middle of the state, giving a scalar in `[0, 1)`.

use vstd::prelude::*;

verus! {

/// State that follows `s` in the linear congruential sequence.
pub open spec fn next_state(s: u64) -> u64 {
    (((s * 6364136223846793005) + 1442695040888963407) % 0x1_0000_0000_0000_0000) as u64
}

/// The scalar in `[0, SCALE)` drawn from a state: bits 32..48.
pub open spec fn draw_of(s: u64) -> int {
    ((s as int) / 0x1_0000_0000) % 0x1_0000
}

/// A draw is a scalar in `[0, 1)`: at least zero and under one whole unit.
pub proof fn lemma_draw_bounds(s: u64)
    ensures
        0 <= draw_of(s) < 0x1_0000,
{
    vstd::arithmetic::div_mod::lemma_mod_division_less_than_divisor(
        (s as int) / 0x1_0000_0000,
        0x1_0000,
    );
}

/// A deterministic stream of uniform scalar draws in `[0, 1)`.
pub struct Entropy {
    /// Current generator state.
    pub state: u64,
}

impl Entropy {
    /// A stream seeded with `seed`.
    pub fn new(seed: u64) -> (r: Entropy)
        ensures
            r.state == seed,
    {
        Entropy { state: seed }
    }

    /// Advance the state and draw a scalar in `[0, SCALE)`.
    pub fn next_unit(&mut self) -> (r: i64)
        ensures
            final(self).state == next_state(old(self).state),
            r == draw_of(final(self).state),
            0 <= r < 0x1_0000,
    {
        let wide: u128 = (self.state as u128) * 6364136223846793005u128 + 1442695040888963407u128;
        let ns: u64 = (wide % 0x1_0000_0000_0000_0000u128) as u64;
        proof {
            assert(wide % 0x1_0000_0000_0000_0000u128 < 0x1_0000_0000_0000_0000u128);
        }
        self.state = ns;
        let r: u64 = (ns / 0x1_0000_0000) % 0x1_0000;
        r as i64
    }
}

} // verus!
