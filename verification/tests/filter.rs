use poly_mod_synth::ONE;
use poly_mod_synth::filter::Filter;

#[test]
fn new_filter_defaults() {
    let f = Filter::new();
    assert_eq!(f.cutoff_freq, 1000 * ONE);
    assert_eq!(f.resonance, 0);
    assert_eq!(f.last_output, 0);
}

#[test]
fn parameters_by_id() {
    let f = Filter::new();
    assert_eq!(f.get_parameter(0), Some(1000 * ONE));
    assert_eq!(f.get_parameter(1), Some(0));
    assert_eq!(f.get_parameter(2), None);
}

#[test]
fn low_pass_smooths_a_step() {
    // cutoff/sample_rate = 1000/48000 blends about 2% of the input
    // per sample: a unit step rises gradually from zero.
    let mut f = Filter::new();
    let mut buf = vec![ONE; 8];
    f.process(&mut buf, 48000);
    // k = 65536000 / 48000 == 1365; first output is k * 1 unit scaled
    assert_eq!(buf[0], 1365);
    for w in buf.windows(2) {
        assert!(w[1] > w[0]);
        assert!(w[1] < ONE);
    }
    assert_eq!(f.last_output, buf[7]);
}

#[test]
fn zero_cutoff_holds_the_previous_output() {
    let mut f = Filter::new();
    f.cutoff_freq = 0;
    f.last_output = 100;
    let mut buf = vec![ONE; 4];
    f.process(&mut buf, 48000);
    // with no resonance and a zero coefficient nothing of the input
    // passes: the state decays only by the clamp of (1 - 0) == 1
    assert_eq!(buf, vec![100, 100, 100, 100]);
}

#[test]
fn resonance_subtracts_the_input_edge() {
    let mut f = Filter::new();
    f.resonance = ONE;
    let mut buf = vec![ONE, ONE];
    f.process(&mut buf, 48000);
    // first sample: k*x - 1.0 * (x - 0) on top of an empty history
    let k = 65536000 / 48000;
    let a = ONE - k;
    let first = k - ONE;
    assert_eq!(buf[0], first);
    let second = (a * first) / ONE + k - (ONE - first);
    assert_eq!(buf[1], second);
}
