use vstd::prelude::*;
use vstd::wrapping::u64_specs;

verus! {

pub const MIX_GAMMA: u64 = 0x9E3779B97F4A7C15;
pub const MIX_M1: u64 = 0xBF58476D1CE4E5B9;
pub const MIX_M2: u64 = 0x94D049BB133111EB;

/// The counter value after one draw.
pub open spec fn rng_advance(s: u64) -> u64 {
    u64_specs::wrapping_add(s, MIX_GAMMA)
}

/// The bits handed out for a counter value: the splitmix finalizer.
pub open spec fn rng_output(s: u64) -> u64 {
    let z1 = u64_specs::wrapping_mul(s ^ (s >> 30u64), MIX_M1);
    let z2 = u64_specs::wrapping_mul(z1 ^ (z1 >> 27u64), MIX_M2);
    z2 ^ (z2 >> 31u64)
}

/// The session's seeded pseudo-random generator (a splitmix64 stream). It is
/// created once per session from the configured seed and never reseeded, so
/// the draw stream is a pure function of `(seed, draw ordinal)`.
#[derive(Clone, Copy, Debug, PartialEq, Eq, Structural)]
pub struct SamplerState {
    pub state: u64,
}

impl SamplerState {
    /// Seeds the draw stream.
    pub fn new(seed: u64) -> (r: SamplerState)
        ensures
            r.state == seed,
    {
        SamplerState { state: seed }
    }

    /// Draws the next pseudo-random value; the result and the new state are
    /// exact functions of the old state.
    pub fn next_u64(&mut self) -> (r: u64)
        ensures
            final(self).state == rng_advance(old(self).state),
            r == rng_output(rng_advance(old(self).state)),
    {
        self.state = self.state.wrapping_add(MIX_GAMMA);
        let s = self.state;
        let z1 = (s ^ (s >> 30u64)).wrapping_mul(MIX_M1);
        let z2 = (z1 ^ (z1 >> 27u64)).wrapping_mul(MIX_M2);
        z2 ^ (z2 >> 31u64)
    }
}

} // verus!
