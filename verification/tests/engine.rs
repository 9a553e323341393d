use poly_mod_synth::ONE;
use poly_mod_synth::engine::PolyModSynth;
use poly_mod_synth::event::NoteEvent;
use poly_mod_synth::smoother::Smoother;
use poly_mod_synth::voice::Voice;

fn bare_voice(ext_id: i32, internal: u64) -> Voice {
    Voice {
        voice_id: ext_id,
        channel: 0,
        note: 60,
        internal_voice_id: internal,
        velocity_sqrt: ONE,
        phase: 0,
        phase_delta: 0,
        releasing: false,
        amp_envelope: Smoother::none(),
        voice_gain: None,
    }
}

#[test]
fn full_pool_steals_the_oldest_voice() {
    // Fill the pool, then allocate once more: the voice with the
    // smallest internal id is evicted and reported before the new
    // voice exists in the pool.
    let mut synth = PolyModSynth::new();
    let mut terms = Vec::new();
    for i in 0..16 {
        let v = bare_voice(100 + i, synth.next_internal_voice_id);
        synth.start_voice(0, v, &mut terms);
    }
    assert!(terms.is_empty());
    assert!(synth.voices.iter().all(|v| v.is_some()));

    let v = bare_voice(999, synth.next_internal_voice_id);
    synth.start_voice(5, v, &mut terms);
    assert_eq!(terms.len(), 1);
    assert_eq!(terms[0].voice_id, 100);
    assert_eq!(terms[0].timing, 5);
    assert_eq!(synth.voices[0].unwrap().voice_id, 999);
    assert!(synth.voices.iter().all(|v| v.is_some()));
}

#[test]
fn eviction_chain_follows_internal_ids() {
    // Alternate stealing: each steal takes the current smallest id.
    let mut synth = PolyModSynth::new();
    let mut terms = Vec::new();
    for i in 0..18 {
        let v = bare_voice(200 + i, synth.next_internal_voice_id);
        synth.start_voice(i as u32, v, &mut terms);
    }
    assert_eq!(terms.len(), 2);
    assert_eq!(terms[0].voice_id, 200);
    assert_eq!(terms[1].voice_id, 201);
}

#[test]
fn born_and_released_voice_prunes_at_first_boundary() {
    // A voice released while its envelope still rests on zero renders
    // silence and is pruned at the end of the first sub-block, with
    // the boundary as its termination timing.
    let mut synth = PolyModSynth::new();
    let events = vec![
        NoteEvent::NoteOn { timing: 0, voice_id: Some(7), channel: 0, note: 69, velocity: ONE },
        NoteEvent::NoteOff { timing: 0, voice_id: Some(7), channel: 0, note: 69, velocity: 0 },
    ];
    let (out, terms) = synth.process(&events, 256, 48000);
    assert_eq!(out.len(), 256);
    assert!(out.iter().all(|&x| x == 0));
    assert_eq!(terms.len(), 1);
    assert_eq!(terms[0].voice_id, 7);
    assert_eq!(terms[0].timing, 64);
    assert!(synth.voices.iter().all(|v| v.is_none()));
}

#[test]
fn choke_removes_at_its_own_sample() {
    // Choke clears the voice at once, stamped with the event's own
    // timing: no decay ramp is started.
    let mut synth = PolyModSynth::new();
    synth.amp_attack_ms = 0;
    let events = vec![
        NoteEvent::NoteOn { timing: 0, voice_id: Some(7), channel: 0, note: 69, velocity: ONE },
        NoteEvent::Choke { timing: 10, voice_id: Some(7), channel: 0, note: 69 },
    ];
    let (out, terms) = synth.process(&events, 128, 48000);
    assert_eq!(terms.len(), 1);
    assert_eq!(terms[0].voice_id, 7);
    assert_eq!(terms[0].timing, 10);
    assert!(synth.voices.iter().all(|v| v.is_none()));
    // it sounded before the choke and not after
    assert!(out[..10].iter().any(|&x| x != 0));
    assert!(out[10..].iter().all(|&x| x == 0));
}

#[test]
fn release_decays_gradually() {
    // Release keeps the slot occupied and ramps the envelope toward
    // zero instead of cutting.
    let mut synth = PolyModSynth::new();
    synth.amp_attack_ms = 0;
    let events = vec![
        NoteEvent::NoteOn { timing: 0, voice_id: Some(7), channel: 0, note: 69, velocity: ONE },
        NoteEvent::NoteOff { timing: 64, voice_id: Some(7), channel: 0, note: 69, velocity: 0 },
    ];
    let (out, terms) = synth.process(&events, 128, 48000);
    assert!(terms.is_empty());
    let v = synth.voices.iter().flatten().next().expect("voice still lives");
    assert!(v.releasing);
    assert_eq!(v.amp_envelope.target, 0);
    assert!(v.amp_envelope.value > 0);
    assert!(out[..64].iter().any(|&x| x != 0));
}

#[test]
fn released_voice_terminates_when_silent() {
    // Once the decay reaches exactly zero the voice is pruned at that
    // sub-block's end (the default release is 100 ms, 4800 steps at
    // 48 kHz).
    let mut synth = PolyModSynth::new();
    synth.amp_attack_ms = 0;
    let events = vec![
        NoteEvent::NoteOn { timing: 0, voice_id: Some(7), channel: 0, note: 69, velocity: ONE },
        NoteEvent::NoteOff { timing: 64, voice_id: Some(7), channel: 0, note: 69, velocity: 0 },
    ];
    let (out, terms) = synth.process(&events, 8192, 48000);
    assert_eq!(terms.len(), 1);
    assert_eq!(terms[0].voice_id, 7);
    let t = terms[0].timing as usize;
    assert!(t % 64 == 0, "pruned at a sub-block boundary");
    assert!(64 + 4800 <= t && t <= 64 + 4800 + 64);
    assert!(synth.voices.iter().all(|v| v.is_none()));
    assert!(out[t..].iter().all(|&x| x == 0));
}

#[test]
fn rendering_is_deterministic() {
    let events = vec![
        NoteEvent::NoteOn { timing: 3, voice_id: Some(1), channel: 0, note: 57, velocity: ONE / 2 },
        NoteEvent::NoteOn { timing: 40, voice_id: Some(2), channel: 0, note: 64, velocity: ONE },
        NoteEvent::NoteOff { timing: 100, voice_id: Some(1), channel: 0, note: 57, velocity: 0 },
    ];
    let mut a = PolyModSynth::new();
    let mut b = PolyModSynth::new();
    let ra = a.process(&events, 512, 44100);
    let rb = b.process(&events, 512, 44100);
    assert_eq!(ra.0, rb.0);
    assert_eq!(ra.1, rb.1);
}

#[test]
fn reset_restores_the_initial_stream() {
    let events = vec![
        NoteEvent::NoteOn { timing: 0, voice_id: Some(1), channel: 0, note: 72, velocity: ONE },
    ];
    let mut a = PolyModSynth::new();
    let first = a.process(&events, 256, 48000);
    a.reset();
    let again = a.process(&events, 256, 48000);
    assert_eq!(first.0, again.0);
    assert_eq!(first.1, again.1);
}

#[test]
fn poly_modulation_captures_a_per_voice_gain() {
    let mut synth = PolyModSynth::new();
    synth.amp_attack_ms = 0;
    let events = vec![
        NoteEvent::NoteOn { timing: 0, voice_id: Some(7), channel: 0, note: 69, velocity: ONE },
        NoteEvent::PolyModulation {
            timing: 0,
            voice_id: 7,
            poly_modulation_id: 0,
            normalized_offset: 0,
        },
    ];
    synth.process(&events, 128, 48000);
    let v = synth.voices.iter().flatten().next().expect("voice lives");
    let (offset, sm) = v.voice_gain.expect("per-voice gain captured");
    assert_eq!(offset, 0);
    // a voice born at this boundary snaps to the previewed value: the
    // default gain parameter's plain value
    assert_eq!(sm.value, 16462);
    assert_eq!(sm.target, 16462);
}

#[test]
fn mono_automation_moves_captured_voices() {
    let mut synth = PolyModSynth::new();
    synth.amp_attack_ms = 0;
    let setup = vec![
        NoteEvent::NoteOn { timing: 0, voice_id: Some(7), channel: 0, note: 69, velocity: ONE },
        NoteEvent::PolyModulation {
            timing: 0,
            voice_id: 7,
            poly_modulation_id: 0,
            normalized_offset: 0,
        },
    ];
    synth.process(&setup, 64, 48000);
    let automation = vec![
        NoteEvent::MonoAutomation { timing: 0, poly_modulation_id: 0, normalized_value: ONE },
    ];
    synth.process(&automation, 64, 48000);
    let v = synth.voices.iter().flatten().next().expect("voice lives");
    let (_, sm) = v.voice_gain.expect("per-voice gain captured");
    // full scale maps to the top of the gain range
    assert_eq!(sm.target, ONE);
}

#[test]
fn unknown_modulation_id_is_ignored() {
    let mut synth = PolyModSynth::new();
    let events = vec![
        NoteEvent::NoteOn { timing: 0, voice_id: Some(7), channel: 0, note: 69, velocity: ONE },
        NoteEvent::PolyModulation {
            timing: 0,
            voice_id: 7,
            poly_modulation_id: 3,
            normalized_offset: ONE,
        },
        NoteEvent::MonoAutomation { timing: 1, poly_modulation_id: 9, normalized_value: ONE },
    ];
    synth.process(&events, 64, 48000);
    let v = synth.voices.iter().flatten().next().expect("voice lives");
    assert!(v.voice_gain.is_none());
}

#[test]
fn velocity_is_square_rooted() {
    let mut synth = PolyModSynth::new();
    let events = vec![
        NoteEvent::NoteOn { timing: 0, voice_id: Some(7), channel: 0, note: 69, velocity: ONE / 4 },
    ];
    synth.process(&events, 64, 48000);
    let v = synth.voices.iter().flatten().next().expect("voice lives");
    assert_eq!(v.velocity_sqrt, ONE / 2);
}

#[test]
fn no_events_render_silence() {
    let mut synth = PolyModSynth::new();
    let (out, terms) = synth.process(&Vec::new(), 333, 48000);
    assert_eq!(out.len(), 333);
    assert!(out.iter().all(|&x| x == 0));
    assert!(terms.is_empty());
}

#[test]
fn release_matches_by_channel_and_note_without_id() {
    let mut synth = PolyModSynth::new();
    synth.amp_attack_ms = 0;
    let events = vec![
        NoteEvent::NoteOn { timing: 0, voice_id: None, channel: 2, note: 40, velocity: ONE },
        NoteEvent::NoteOn { timing: 0, voice_id: None, channel: 3, note: 41, velocity: ONE },
        NoteEvent::NoteOff { timing: 8, voice_id: None, channel: 2, note: 40, velocity: 0 },
    ];
    synth.process(&events, 64, 48000);
    let mut releasing = 0;
    let mut sounding = 0;
    for v in synth.voices.iter().flatten() {
        if v.releasing {
            releasing += 1;
            assert_eq!(v.channel, 2);
            assert_eq!(v.note, 40);
        } else {
            sounding += 1;
        }
    }
    assert_eq!(releasing, 1);
    assert_eq!(sounding, 1);
}

#[test]
fn choke_without_id_clears_every_positional_match() {
    let mut synth = PolyModSynth::new();
    synth.amp_attack_ms = 0;
    let events = vec![
        NoteEvent::NoteOn { timing: 0, voice_id: Some(1), channel: 2, note: 40, velocity: ONE },
        NoteEvent::NoteOn { timing: 0, voice_id: Some(2), channel: 2, note: 40, velocity: ONE },
        NoteEvent::NoteOn { timing: 0, voice_id: Some(3), channel: 5, note: 40, velocity: ONE },
        NoteEvent::Choke { timing: 4, voice_id: None, channel: 2, note: 40 },
    ];
    let (_, terms) = synth.process(&events, 64, 48000);
    assert_eq!(terms.len(), 2);
    assert_eq!(terms[0].voice_id, 1);
    assert_eq!(terms[1].voice_id, 2);
    let alive: Vec<_> = synth.voices.iter().flatten().collect();
    assert_eq!(alive.len(), 1);
    assert_eq!(alive[0].voice_id, 3);
}

#[test]
fn gain_automation_ramps_the_global_gain() {
    let mut synth = PolyModSynth::new();
    synth.set_gain_normalized(48000, ONE);
    // full scale maps to the top of the range; logarithmic 5 ms
    // smoothing at 48 kHz is 240 steps
    assert_eq!(synth.gain.target, ONE);
    assert_eq!(synth.gain.steps_left, 240);
    assert_eq!(synth.gain.value, 16462);
    synth.set_gain_normalized(48000, -ONE);
    // negative positions clamp to the bottom of the range
    assert_eq!(synth.gain.target, 1039);
}

#[test]
fn output_stays_within_the_mix_bound() {
    // Sixteen saturated voices can sum to at most sixteen units.
    let mut synth = PolyModSynth::new();
    synth.amp_attack_ms = 0;
    let mut events = Vec::new();
    for i in 0..20 {
        events.push(NoteEvent::NoteOn {
            timing: (i * 3) as u32,
            voice_id: Some(i),
            channel: 0,
            note: (40 + i) as u8,
            velocity: ONE,
        });
    }
    let (out, _) = synth.process(&events, 2048, 44100);
    assert!(out.iter().all(|&x| x.abs() <= 16 * ONE));
    assert!(out.iter().any(|&x| x != 0));
}

#[test]
fn split_host_blocks_compose() {
    // Handing the engine two 128-sample blocks renders exactly what
    // one 256-sample block renders; block-relative timings rebase.
    let whole = vec![
        NoteEvent::NoteOn { timing: 3, voice_id: Some(1), channel: 0, note: 57, velocity: ONE },
        NoteEvent::NoteOn { timing: 40, voice_id: Some(2), channel: 0, note: 64, velocity: ONE },
        NoteEvent::NoteOff { timing: 130, voice_id: Some(1), channel: 0, note: 57, velocity: 0 },
    ];
    let mut one_call = PolyModSynth::new();
    let (out_whole, terms_whole) = one_call.process(&whole, 256, 48000);

    let first = vec![whole[0], whole[1]];
    let second = vec![
        NoteEvent::NoteOff { timing: 2, voice_id: Some(1), channel: 0, note: 57, velocity: 0 },
    ];
    let mut two_calls = PolyModSynth::new();
    let (out_a, terms_a) = two_calls.process(&first, 128, 48000);
    let (out_b, terms_b) = two_calls.process(&second, 128, 48000);

    let mut joined = out_a.clone();
    joined.extend_from_slice(&out_b);
    assert_eq!(joined, out_whole);
    assert_eq!(terms_a.len() + terms_b.len(), terms_whole.len());
}
