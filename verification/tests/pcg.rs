use poly_mod_synth::pcg::Pcg32;
use rand::Rng;
use rand_core::RngCore;

#[test]
fn matches_reference_stream() {
    // The owned generator reproduces the reference pcg32 stream for
    // the engine's deterministic seed.
    let mut ours = Pcg32::new(420, 1337);
    let mut reference = rand_pcg::Pcg32::new(420, 1337);
    for _ in 0..1000 {
        assert_eq!(ours.next_u32(), reference.next_u32());
    }
}

#[test]
fn matches_reference_stream_other_seed() {
    let mut ours = Pcg32::new(0xcafef00dd15ea5e5, 0xa02bdbf7bb3c0a7);
    let mut reference = rand_pcg::Pcg32::new(0xcafef00dd15ea5e5, 0xa02bdbf7bb3c0a7);
    for _ in 0..1000 {
        assert_eq!(ours.next_u32(), reference.next_u32());
    }
}

#[test]
fn phase_is_top_bits_of_unit_float_draw() {
    // The fixed-point phase equals the reference f32 draw in [0, 1)
    // truncated to sixteen fractional bits.
    let mut ours = Pcg32::new(420, 1337);
    let mut reference = rand_pcg::Pcg32::new(420, 1337);
    for _ in 0..1000 {
        let phase = ours.next_phase();
        let f: f32 = reference.gen();
        assert_eq!(phase, (f * 65536.0).floor() as i64);
        assert!(0 <= phase && phase < 65536);
    }
}
