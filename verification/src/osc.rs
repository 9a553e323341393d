//! Phase-accumulator oscillator: note-to-frequency lookup, per-sample
//! phase advance wrapped into `[0, ONE)`, and the triangle waveform as
//! a pure function of phase. No band-limiting is attempted; aliasing
//! at high fundamentals is accepted.

use vstd::prelude::*;

use crate::fixed::BOUND;
use crate::fixed::ONE;
use crate::fixed::pow2;
use crate::fixed::pow2_u64;

verus! {

/// Fixed-point frequency of the lowest octave's pitch class `m`
/// (equal temperament, 440 Hz at note 69).
pub open spec fn base_freq(m: int) -> int {
    if m == 0 {
        535809
    } else if m == 1 {
        567670
    } else if m == 2 {
        601425
    } else if m == 3 {
        637188
    } else if m == 4 {
        675077
    } else if m == 5 {
        715219
    } else if m == 6 {
        757749
    } else if m == 7 {
        802807
    } else if m == 8 {
        850544
    } else if m == 9 {
        901120
    } else if m == 10 {
        954703
    } else {
        1011473
    }
}

/// Fixed-point frequency in Hz of a note number: the lowest octave's
/// pitch class doubled once per octave.
pub open spec fn midi_freq_spec(note: int) -> int {
    base_freq(note % 12) * pow2((note / 12) as nat)
}

/// Per-sample phase increment for a note at a sample rate, as a
/// fraction of one cycle, wrapped into `[0, ONE)`.
pub open spec fn phase_delta_spec(note: int, sample_rate: int) -> int
    recommends
        sample_rate >= 1,
{
    (midi_freq_spec(note) / sample_rate) % ONE as int
}

/// One sample of phase accumulation, wrapped into `[0, ONE)`.
pub open spec fn phase_step(p: int, d: int) -> int
    recommends
        0 <= p < ONE as int,
        0 <= d < ONE as int,
{
    if p + d >= ONE as int {
        p + d - ONE as int
    } else {
        p + d
    }
}

/// Triangle waveform at a phase in `[0, ONE)`: rises from -1 at phase
/// zero to +1 at half a cycle, then falls back.
pub open spec fn triangle_spec(phase: int) -> int {
    if 2 * phase <= ONE as int {
        4 * phase - ONE as int
    } else {
        4 * (ONE as int - phase) - ONE as int
    }
}

/// Frequency of a note number in fixed-point Hz.
pub fn midi_note_to_freq(note: u8) -> (r: i64)
    requires
        note < 128,
    ensures
        r == midi_freq_spec(note as int),
        1 <= r <= BOUND,
{
    let m: u8 = note % 12;
    let o: u8 = note / 12;
    let base: i64 = if m == 0 {
        535809
    } else if m == 1 {
        567670
    } else if m == 2 {
        601425
    } else if m == 3 {
        637188
    } else if m == 4 {
        675077
    } else if m == 5 {
        715219
    } else if m == 6 {
        757749
    } else if m == 7 {
        802807
    } else if m == 8 {
        850544
    } else if m == 9 {
        901120
    } else if m == 10 {
        954703
    } else {
        1011473
    };
    let p: u64 = pow2_u64(o as u32);
    proof {
        crate::fixed::lemma_pow2_mono(o as nat, 10);
        assert(pow2(10) == 1024) by {
            reveal_with_fuel(pow2, 11);
        }
        assert(base as int * p as int <= 1011473 * 1024) by (nonlinear_arith)
            requires
                1 <= base <= 1011473,
                1 <= p <= 1024,
        ;
        assert(base as int * p as int >= 1) by (nonlinear_arith)
            requires
                1 <= base,
                1 <= p,
        ;
    }
    (base as u64 * p) as i64
}

/// Per-sample phase increment for a note at a sample rate.
pub fn note_phase_delta(note: u8, sample_rate: u32) -> (r: i64)
    requires
        note < 128,
        1 <= sample_rate,
    ensures
        r == phase_delta_spec(note as int, sample_rate as int),
        0 <= r < ONE,
{
    let f: i64 = midi_note_to_freq(note);
    let d: u64 = (f as u64) / (sample_rate as u64);
    (d % (ONE as u64)) as i64
}

/// Advance a phase by one sample, wrapping into `[0, ONE)`.
pub fn advance_phase(p: i64, d: i64) -> (r: i64)
    requires
        0 <= p < ONE,
        0 <= d < ONE,
    ensures
        r == phase_step(p as int, d as int),
        0 <= r < ONE,
{
    let s: i64 = p + d;
    if s >= ONE {
        s - ONE
    } else {
        s
    }
}

/// Triangle waveform sample for a phase in `[0, ONE)`.
pub fn triangle_wave(phase: i64) -> (r: i64)
    requires
        0 <= phase < ONE,
    ensures
        r == triangle_spec(phase as int),
        -ONE <= r <= ONE,
{
    if phase <= ONE / 2 {
        phase * 4 - ONE
    } else {
        (ONE - phase) * 4 - ONE
    }
}

/// Voice-correlation id used when a note event carries none: the note
/// number in the low bits, the channel above them.
pub fn compute_fallback_voice_id(note: u8, channel: u8) -> (r: i32)
    ensures
        r == note + channel * 65536,
{
    (note as i32) + (channel as i32) * 65536
}

} // verus!
