//! Deterministic pseudo-random generator for initial oscillator
//! phases: a permuted congruential generator with 64-bit state and
//! 32-bit output (the XSH-RR output function over a linear
//! congruential step), the standard `pcg32` parameterisation. The
//! engine owns one instance and reseeds it deterministically on reset,
//! so a whole render is a function of its inputs.

use vstd::prelude::*;

use crate::fixed::ONE;

verus! {

/// Default multiplier for the 64-bit congruential step.
pub const MULTIPLIER: u64 = 6364136223846793005;

/// Pseudo-random generator state: congruential state plus the odd
/// increment that selects the stream.
#[derive(Clone, Copy, PartialEq, Eq, Debug)]
pub struct Pcg32 {
    pub state: u64,
    pub increment: u64,
}

/// One congruential step of the state.
pub open spec fn lcg_step(state: u64, increment: u64) -> u64 {
    state.wrapping_mul(MULTIPLIER).wrapping_add(increment)
}

/// The XSH-RR output function: xorshift the high bits down, then
/// rotate right by the top five bits of the state.
pub open spec fn xsh_rr(state: u64) -> u32 {
    let rot = (state >> 59) as u32;
    let xsh = (((state >> 18) ^ state) >> 27) as u32;
    if rot == 0 {
        xsh
    } else {
        (xsh >> rot) | (xsh << (32 - rot))
    }
}

/// The generator seeded from a state and a stream selector.
pub open spec fn pcg_new_spec(state: u64, stream: u64) -> Pcg32 {
    let increment = (stream << 1) | 1;
    Pcg32 { state: lcg_step(state.wrapping_add(increment), increment), increment }
}

/// The generator after drawing one value.
pub open spec fn pcg_next_spec(p: Pcg32) -> Pcg32 {
    Pcg32 { state: lcg_step(p.state, p.increment), increment: p.increment }
}

/// The value drawn: the output function applied to the pre-step state.
pub open spec fn pcg_output_spec(p: Pcg32) -> u32 {
    xsh_rr(p.state)
}

/// An initial oscillator phase in `[0, ONE)` from one drawn value:
/// the top sixteen bits of the draw as a fixed-point fraction.
pub open spec fn phase_of_draw(r: u32) -> i64 {
    (r >> 16) as i64
}

impl Pcg32 {
    /// Seed from a state and a stream selector; the increment discards
    /// the stream's top bit so it is always odd.
    pub fn new(state: u64, stream: u64) -> (r: Self)
        ensures
            r == pcg_new_spec(state, stream),
    {
        let increment: u64 = (stream << 1u64) | 1;
        let s0: u64 = state.wrapping_add(increment);
        Pcg32 { state: s0.wrapping_mul(MULTIPLIER).wrapping_add(increment), increment }
    }

    /// Draw one 32-bit value and advance the state.
    pub fn next_u32(&mut self) -> (r: u32)
        ensures
            r == pcg_output_spec(*old(self)),
            *final(self) == pcg_next_spec(*old(self)),
    {
        let state: u64 = self.state;
        self.state = state.wrapping_mul(MULTIPLIER).wrapping_add(self.increment);
        let rot: u32 = (state >> 59u64) as u32;
        let xsh: u32 = #[verifier::truncate] ((((state >> 18u64) ^ state) >> 27u64) as u32);
        proof {
            assert(state >> 59u64 < 32) by (bit_vector);
        }
        if rot == 0 {
            xsh
        } else {
            (xsh >> rot) | (xsh << (32 - rot))
        }
    }

    /// Draw an initial oscillator phase in `[0, ONE)`.
    pub fn next_phase(&mut self) -> (r: i64)
        ensures
            r == phase_of_draw(pcg_output_spec(*old(self))),
            *final(self) == pcg_next_spec(*old(self)),
            0 <= r < ONE,
    {
        let d: u32 = self.next_u32();
        proof {
            assert(d >> 16u32 < 65536) by (bit_vector);
        }
        (d >> 16u32) as i64
    }
}

} // verus!
