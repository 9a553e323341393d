use poly_mod_synth::ONE;
use poly_mod_synth::fixed::div_trunc_i64;
use poly_mod_synth::fixed::fx_mul;
use poly_mod_synth::fixed::fx_sqrt;
use poly_mod_synth::fixed::log2_fx;
use poly_mod_synth::osc::advance_phase;
use poly_mod_synth::osc::compute_fallback_voice_id;
use poly_mod_synth::osc::midi_note_to_freq;
use poly_mod_synth::osc::note_phase_delta;
use poly_mod_synth::osc::triangle_wave;

#[test]
fn fixed_multiply_truncates_toward_zero() {
    assert_eq!(fx_mul(ONE, ONE), ONE);
    assert_eq!(fx_mul(ONE / 2, ONE / 2), ONE / 4);
    assert_eq!(fx_mul(-ONE / 2, ONE / 2), -ONE / 4);
    assert_eq!(fx_mul(3, 3), 0);
    assert_eq!(fx_mul(-3, 3), 0);
    assert_eq!(fx_mul(100, 0), 0);
}

#[test]
fn division_truncates_toward_zero() {
    assert_eq!(div_trunc_i64(7, 2), 3);
    assert_eq!(div_trunc_i64(-7, 2), -3);
    assert_eq!(div_trunc_i64(0, 5), 0);
}

#[test]
fn square_root_exact_values() {
    assert_eq!(fx_sqrt(0), 0);
    assert_eq!(fx_sqrt(ONE), ONE);
    // sqrt(0.25) == 0.5
    assert_eq!(fx_sqrt(ONE / 4), ONE / 2);
    // sqrt(0.5) == 0.70710678... -> floor(sqrt(2^31)) == 46340
    assert_eq!(fx_sqrt(ONE / 2), 46340);
}

#[test]
fn base_two_log_fixed_points() {
    assert_eq!(log2_fx(ONE), 0);
    assert_eq!(log2_fx(2 * ONE), ONE);
    assert_eq!(log2_fx(4 * ONE), 2 * ONE);
    assert_eq!(log2_fx(ONE / 2), -ONE);
    // piecewise-linear fraction: log2(1.5) is approximated as 0.5
    assert_eq!(log2_fx(3 * ONE / 2), ONE / 2);
}

#[test]
fn triangle_wave_shape() {
    assert_eq!(triangle_wave(0), -ONE);
    assert_eq!(triangle_wave(ONE / 4), 0);
    assert_eq!(triangle_wave(ONE / 2), ONE);
    assert_eq!(triangle_wave(3 * ONE / 4), 0);
    assert_eq!(triangle_wave(ONE - 1), -ONE + 4);
}

#[test]
fn note_frequencies() {
    // A4 (note 69) is exactly 440 Hz in fixed point.
    assert_eq!(midi_note_to_freq(69), 440 * ONE);
    // an octave doubles
    assert_eq!(midi_note_to_freq(81), 880 * ONE);
    assert_eq!(midi_note_to_freq(57), 220 * ONE);
    // middle C: 535809 << 5, about 261.63 Hz
    assert_eq!(midi_note_to_freq(60), 17145888);
}

#[test]
fn phase_delta_and_wrap() {
    // 440 Hz at 44100 Hz: 440 * 65536 / 44100 == 653 (truncated)
    assert_eq!(note_phase_delta(69, 44100), 653);
    assert_eq!(advance_phase(ONE - 1, 2), 1);
    assert_eq!(advance_phase(100, 50), 150);
}

#[test]
fn fallback_voice_id_packs_note_and_channel() {
    assert_eq!(compute_fallback_voice_id(60, 0), 60);
    assert_eq!(compute_fallback_voice_id(60, 1), 60 + 65536);
    assert_eq!(compute_fallback_voice_id(127, 15), 127 + 15 * 65536);
}
