use poly_mod_synth::ONE;
use poly_mod_synth::smoother::Smoother;
use poly_mod_synth::smoother::SmoothingStyle;

fn block(sm: &mut Smoother, len: usize) -> Vec<i64> {
    let mut out = vec![0i64; len];
    sm.next_block(&mut out, len);
    out
}

#[test]
fn linear_four_steps_quarters() {
    // Four steps from 0.0 to 1.0: 0, 0.25, 0.5, 0.75, 1.0, 1.0, ...
    let mut sm = Smoother::new(SmoothingStyle::Linear(ONE));
    sm.reset(0);
    sm.set_target(4000, ONE);
    assert_eq!(sm.steps_left, 4);
    let out = block(&mut sm, 8);
    assert_eq!(out, vec![0, 16384, 32768, 49152, 65536, 65536, 65536, 65536]);
    assert_eq!(sm.steps_left, 0);
    assert_eq!(sm.value, ONE);
}

#[test]
fn reset_renders_flat() {
    // After reset(v) every rendered sample is v and no steps remain.
    let mut sm = Smoother::new(SmoothingStyle::Exponential(10 * ONE));
    sm.set_target(48000, ONE);
    assert!(sm.steps_left > 0);
    sm.reset(4242);
    assert_eq!(sm.steps_left, 0);
    let out = block(&mut sm, 16);
    assert!(out.iter().all(|&x| x == 4242));
    assert_eq!(sm.steps_left, 0);
}

#[test]
fn set_target_same_target_is_noop() {
    let mut sm = Smoother::new(SmoothingStyle::Linear(ONE));
    sm.reset(100);
    sm.set_target(48000, 100);
    assert_eq!(sm.steps_left, 0);
    assert_eq!(sm.value, 100);
}

#[test]
fn zero_step_count_snaps_to_target() {
    // A zero smoothing time yields no steps: the value snaps at once.
    let mut sm = Smoother::new(SmoothingStyle::Linear(0));
    sm.reset(0);
    sm.set_target(48000, ONE);
    assert_eq!(sm.steps_left, 0);
    assert_eq!(sm.value, ONE);
}

#[test]
fn exponential_release_reaches_exact_zero() {
    // A decaying ramp ends exactly on its target, not near it.
    let mut sm = Smoother::new(SmoothingStyle::Exponential(ONE));
    sm.reset(ONE);
    sm.set_target(4000, 0);
    assert_eq!(sm.steps_left, 4);
    let out = block(&mut sm, 6);
    assert_eq!(out[0], ONE);
    assert!(out[1] < ONE);
    assert_eq!(out[4], 0);
    assert_eq!(out[5], 0);
    assert_eq!(sm.value, 0);
}

#[test]
fn ramp_is_monotone_toward_target() {
    let mut sm = Smoother::new(SmoothingStyle::Exponential(50 * ONE));
    sm.reset(ONE);
    sm.set_target(48000, 0);
    let out = block(&mut sm, 64);
    for w in out.windows(2) {
        assert!(w[1] <= w[0]);
    }
    assert!(out[63] < ONE);
}

#[test]
fn logarithmic_ramp_moves_and_lands() {
    let mut sm = Smoother::new(SmoothingStyle::Logarithmic(5 * ONE));
    sm.reset(16462);
    sm.set_target(4000, ONE);
    assert_eq!(sm.steps_left, 20);
    let out = block(&mut sm, 24);
    assert_eq!(out[0], 16462);
    for w in out.windows(2) {
        assert!(w[1] >= w[0]);
    }
    assert_eq!(out[20], ONE);
    assert_eq!(sm.value, ONE);
}

#[test]
fn preview_modulated_is_target_plus_fractional_step() {
    let mut sm = Smoother::new(SmoothingStyle::Linear(ONE));
    sm.reset(0);
    sm.set_target(4000, ONE);
    // step size is 0.25; half an extra step on top of the target
    assert_eq!(sm.preview_modulated(ONE / 2), ONE + 8192);
    assert_eq!(sm.preview_modulated(0), ONE);
    assert_eq!(sm.preview_modulated(-ONE), ONE - 16384);
    // pure: the ramp itself is untouched
    assert_eq!(sm.steps_left, 4);
    assert_eq!(sm.value, 0);
}

#[test]
fn previous_value_tracks_last_rendered_sample() {
    let mut sm = Smoother::new(SmoothingStyle::Linear(ONE));
    sm.reset(0);
    sm.set_target(4000, ONE);
    let out = block(&mut sm, 3);
    assert_eq!(sm.previous_value(), out[2]);
}
