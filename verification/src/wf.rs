//! Preservation proofs: every engine step keeps the state well
//! formed, so the rendering arithmetic stays in range.

use vstd::prelude::*;

use crate::event::NoteEvent;
use crate::event::wf_event_payload;
use crate::fixed::BOUND;
use crate::fixed::ONE;
use crate::fixed::isqrt_spec;
use crate::fixed::lemma_div_trunc_bound;
use crate::fixed::lemma_fx_mul_contracts;
use crate::fixed::lemma_isqrt_props;
use crate::model::EngineState;
use crate::model::choke_all;
use crate::model::mono_auto_voice;
use crate::model::model_apply_event;
use crate::model::model_consume;
use crate::model::model_run;
use crate::model::note_on_envelope;
use crate::model::prune_slot;
use crate::model::prune_voices_spec;
use crate::model::span_state;
use crate::model::voice_advance;
use crate::model::voice_after;
use crate::model::voice_sample_of;
use crate::model::slots_sum;
use crate::model::wf_state;
use crate::osc::phase_delta_spec;
use crate::smoother::SR_MAX;
use crate::smoother::Smoother;
use crate::smoother::lemma_sm_step_wf;
use crate::smoother::sm_after;
use crate::smoother::sm_step;
use crate::smoother::spec_set_target;
use crate::smoother::steps_for;
use crate::smoother::style_time;
use crate::voice::Voice;
use crate::voice::wf_sm01;
use crate::voice::wf_voice;

verus! {

/// One rendered sample keeps a unit-range smoother in range, and its
/// target, step size and style are untouched.
pub proof fn lemma_wf_sm01_step(s: Smoother)
    requires
        wf_sm01(s),
    ensures
        wf_sm01(sm_step(s)),
        sm_step(s).target == s.target,
        sm_step(s).step_size == s.step_size,
        sm_step(s).style == s.style,
{
    lemma_sm_step_wf(s);
}

pub proof fn lemma_wf_sm01_after(s: Smoother, k: nat)
    requires
        wf_sm01(s),
    ensures
        wf_sm01(sm_after(s, k)),
        sm_after(s, k).target == s.target,
        sm_after(s, k).step_size == s.step_size,
        sm_after(s, k).style == s.style,
    decreases k,
{
    if k > 0 {
        lemma_wf_sm01_after(s, (k - 1) as nat);
        lemma_wf_sm01_step(sm_after(s, (k - 1) as nat));
    }
}

/// Retargeting a unit-range smoother to a unit-range target keeps it
/// in range, and the new target is exactly the requested one.
pub proof fn lemma_wf_set_target01(s: Smoother, sample_rate: int, t: i64)
    requires
        wf_sm01(s),
        0 <= t <= ONE,
        sample_rate >= 1,
    ensures
        wf_sm01(spec_set_target(s, sample_rate, t)),
        spec_set_target(s, sample_rate, t).target == t,
        spec_set_target(s, sample_rate, t).style == s.style,
{
    if t != s.target {
        let steps = steps_for(sample_rate, style_time(s.style));
        if steps != 0 {
            lemma_div_trunc_bound(t - s.value, steps);
        }
    }
}

/// One advanced sample keeps a voice well formed; identity, velocity
/// and release state are untouched.
pub proof fn lemma_wf_voice_advance(v: Voice)
    requires
        wf_voice(v),
    ensures
        wf_voice(voice_advance(v)),
        voice_advance(v).voice_id == v.voice_id,
        voice_advance(v).channel == v.channel,
        voice_advance(v).note == v.note,
        voice_advance(v).internal_voice_id == v.internal_voice_id,
        voice_advance(v).velocity_sqrt == v.velocity_sqrt,
        voice_advance(v).phase_delta == v.phase_delta,
        voice_advance(v).releasing == v.releasing,
{
    lemma_wf_sm01_step(v.amp_envelope);
    match v.voice_gain {
        Option::Some((_, s)) => lemma_wf_sm01_step(s),
        Option::None => {},
    }
}

/// How `k` advanced samples act on each component of a voice.
pub proof fn lemma_voice_after_fields(v: Voice, k: nat)
    ensures
        voice_after(v, k).amp_envelope == sm_after(v.amp_envelope, k),
        voice_after(v, k).voice_gain == match v.voice_gain {
            Option::Some((o, s)) => Option::Some((o, sm_after(s, k))),
            Option::None => Option::<(i64, Smoother)>::None,
        },
        voice_after(v, k).voice_id == v.voice_id,
        voice_after(v, k).channel == v.channel,
        voice_after(v, k).note == v.note,
        voice_after(v, k).internal_voice_id == v.internal_voice_id,
        voice_after(v, k).velocity_sqrt == v.velocity_sqrt,
        voice_after(v, k).phase_delta == v.phase_delta,
        voice_after(v, k).releasing == v.releasing,
    decreases k,
{
    if k > 0 {
        lemma_voice_after_fields(v, (k - 1) as nat);
    }
}

pub proof fn lemma_wf_voice_after(v: Voice, k: nat)
    requires
        wf_voice(v),
    ensures
        wf_voice(voice_after(v, k)),
    decreases k,
{
    if k > 0 {
        lemma_wf_voice_after(v, (k - 1) as nat);
        lemma_wf_voice_advance(voice_after(v, (k - 1) as nat));
    }
}

/// A live voice's one-sample contribution stays within one unit.
pub proof fn lemma_voice_sample_bound(ov: Option<Voice>, gval: i64)
    requires
        ov matches Option::Some(v) ==> wf_voice(v),
        0 <= gval <= ONE,
    ensures
        -ONE <= voice_sample_of(ov, gval) <= ONE,
{
    match ov {
        Option::None => {},
        Option::Some(v) => {
            let gv = match v.voice_gain {
                Option::Some((_, s)) => s.value,
                Option::None => gval,
            };
            assert(0 <= gv <= ONE);
            lemma_fx_mul_contracts(v.velocity_sqrt as int, gv as int, ONE as int);
            let a1 = crate::fixed::fx_mul_spec(v.velocity_sqrt as int, gv as int);
            lemma_fx_mul_contracts(a1, v.amp_envelope.value as int, ONE as int);
            let amp = crate::fixed::fx_mul_spec(a1, v.amp_envelope.value as int);
            lemma_fx_mul_contracts(crate::osc::triangle_spec(v.phase as int), amp, ONE as int);
        },
    }
}

/// The first `i` contributions sum to at most `i` units either way.
pub proof fn lemma_slots_sum_bound(voices: Seq<Option<Voice>>, gval: i64, i: int)
    requires
        forall|j: int|
            0 <= j < voices.len() ==> (#[trigger] voices[j] matches Option::Some(v) ==> wf_voice(
                v,
            )),
        0 <= gval <= ONE,
        0 <= i <= voices.len(),
    ensures
        -i * ONE <= slots_sum(voices, gval, i) <= i * ONE,
    decreases i,
{
    if i <= 0 {
    } else {
        lemma_slots_sum_bound(voices, gval, i - 1);
        lemma_voice_sample_bound(voices[i - 1], gval);
        assert((i - 1) * ONE + ONE == i * ONE) by (nonlinear_arith);
    }
}

/// The envelope a note-on installs is well formed and aims at one.
pub proof fn lemma_wf_note_on_env(attack_ms: i64, sample_rate: int)
    requires
        0 <= attack_ms <= BOUND,
        sample_rate >= 1,
    ensures
        wf_sm01(note_on_envelope(attack_ms, sample_rate)),
        note_on_envelope(attack_ms, sample_rate).target == ONE,
{
    let s0 = Smoother {
        style: crate::smoother::SmoothingStyle::Exponential(attack_ms),
        value: 0,
        target: 0,
        steps_left: 0,
        step_size: 0,
        last: 0,
    };
    lemma_wf_set_target01(s0, sample_rate, ONE);
}

/// Clearing matched slots keeps every slot either untouched or empty.
pub proof fn lemma_wf_choke_all(
    voices: Seq<Option<Voice>>,
    timing: u32,
    channel: u8,
    note: u8,
    i: int,
)
    ensures
        choke_all(voices, timing, channel, note, i).0.len() == voices.len(),
        forall|k: int|
            0 <= k < voices.len() ==> (#[trigger] choke_all(voices, timing, channel, note, i).0[k]
                == voices[k] || choke_all(voices, timing, channel, note, i).0[k] is None),
    decreases voices.len() - i,
{
    if i < 0 || i >= voices.len() {
    } else {
        match voices[i] {
            Option::Some(v) => {
                if v.channel == channel && v.note == note {
                    lemma_wf_choke_all(
                        voices.update(i, Option::None),
                        timing,
                        channel,
                        note,
                        i + 1,
                    );
                } else {
                    lemma_wf_choke_all(voices, timing, channel, note, i + 1);
                }
            },
            Option::None => {
                lemma_wf_choke_all(voices, timing, channel, note, i + 1);
            },
        }
    }
}

/// A note-on keeps the engine state well formed: the new voice's
/// fields are all in range, and allocation only replaces one slot.
pub proof fn lemma_wf_note_on(
    st: EngineState,
    timing: u32,
    voice_id: Option<i32>,
    channel: u8,
    note: u8,
    velocity: i64,
    sample_rate: int,
)
    requires
        wf_state(st),
        note < 128,
        0 <= velocity <= ONE,
        1 <= sample_rate <= SR_MAX as int,
    ensures
        wf_state(crate::model::model_note_on(
            st,
            timing,
            voice_id,
            channel,
            note,
            velocity,
            sample_rate,
        ).st),
        crate::model::model_note_on(st, timing, voice_id, channel, note, velocity,
            sample_rate).st.gain == st.gain,
        crate::model::model_note_on(st, timing, voice_id, channel, note, velocity,
            sample_rate).st.gain_min == st.gain_min,
        crate::model::model_note_on(st, timing, voice_id, channel, note, velocity,
            sample_rate).st.gain_max == st.gain_max,
        crate::model::model_note_on(st, timing, voice_id, channel, note, velocity,
            sample_rate).st.amp_attack_ms == st.amp_attack_ms,
        crate::model::model_note_on(st, timing, voice_id, channel, note, velocity,
            sample_rate).st.amp_release_ms == st.amp_release_ms,
{
    lemma_wf_note_on_env(st.amp_attack_ms, sample_rate);
    lemma_isqrt_props(velocity * ONE);
    let r = isqrt_spec(velocity * ONE);
    assert(r <= ONE) by (nonlinear_arith)
        requires
            r >= 0,
            r * r <= velocity * ONE,
            0 <= velocity <= ONE,
            ONE == 65536i64,
    ;
    let draw = crate::pcg::pcg_output_spec(st.prng);
    assert(draw >> 16u32 < 65536) by (bit_vector);
    assert(0 <= phase_delta_spec(note as int, sample_rate) < ONE) by {
        let q = crate::osc::midi_freq_spec(note as int) / sample_rate;
        assert(0 <= q % (ONE as int) < ONE as int) by (nonlinear_arith)
            requires
                ONE == 65536i64,
        ;
    }
    let nv = Voice {
        voice_id: crate::model::fallback_or(voice_id, channel, note),
        channel,
        note,
        internal_voice_id: st.next_internal_voice_id,
        velocity_sqrt: isqrt_spec(velocity * ONE) as i64,
        phase: crate::pcg::phase_of_draw(crate::pcg::pcg_output_spec(st.prng)),
        phase_delta: phase_delta_spec(note as int, sample_rate) as i64,
        releasing: false,
        amp_envelope: note_on_envelope(st.amp_attack_ms, sample_rate),
        voice_gain: Option::None,
    };
    assert(wf_voice(nv));
    let out = crate::model::model_note_on(
        st,
        timing,
        voice_id,
        channel,
        note,
        velocity,
        sample_rate,
    ).st;
    lemma_first_free_in_range(st.voices, 0);
    lemma_oldest_idx_in_range(st.voices, 0);
    let j = match crate::model::first_free(st.voices, 0) {
        Option::Some(jj) => jj,
        Option::None => crate::model::oldest_idx(st.voices, 0),
    };
    assert(out.voices == st.voices.update(j, Option::Some(nv)));
    assert forall|k: int| 0 <= k < out.voices.len() implies match #[trigger] out.voices[k] {
        Option::Some(w) => wf_voice(w),
        Option::None => true,
    } by {
        if k != j {
            assert(out.voices[k] == st.voices[k]);
        }
    }
}

/// Release keeps the engine state well formed.
pub proof fn lemma_wf_release(
    st: EngineState,
    voice_id: Option<i32>,
    channel: u8,
    note: u8,
    sample_rate: int,
)
    requires
        wf_state(st),
        sample_rate >= 1,
    ensures
        wf_state(crate::model::model_release(st, voice_id, channel, note, sample_rate)),
        crate::model::model_release(st, voice_id, channel, note, sample_rate).gain == st.gain,
        crate::model::model_release(st, voice_id, channel, note, sample_rate).gain_min
            == st.gain_min,
        crate::model::model_release(st, voice_id, channel, note, sample_rate).gain_max
            == st.gain_max,
        crate::model::model_release(st, voice_id, channel, note, sample_rate).amp_attack_ms
            == st.amp_attack_ms,
        crate::model::model_release(st, voice_id, channel, note, sample_rate).amp_release_ms
            == st.amp_release_ms,
{
    let out = crate::model::model_release(st, voice_id, channel, note, sample_rate);
    match crate::model::first_match(st.voices, voice_id, channel, note, 0) {
        Option::Some(j) => {
            lemma_first_match_in_range(st.voices, voice_id, channel, note, 0);
            let v = st.voices[j]->Some_0;
            let env1 = Smoother {
                style: crate::smoother::SmoothingStyle::Exponential(st.amp_release_ms),
                ..v.amp_envelope
            };
            lemma_wf_set_target01(env1, sample_rate, 0);
            assert forall|k: int| 0 <= k < out.voices.len() implies match #[trigger] out.voices[k] {
                Option::Some(w) => wf_voice(w),
                Option::None => true,
            } by {
                if k != j {
                    assert(out.voices[k] == st.voices[k]);
                }
            }
        },
        Option::None => {},
    }
}

/// Choke keeps the engine state well formed.
pub proof fn lemma_wf_choke(
    st: EngineState,
    timing: u32,
    voice_id: Option<i32>,
    channel: u8,
    note: u8,
)
    requires
        wf_state(st),
    ensures
        wf_state(crate::model::model_choke(st, timing, voice_id, channel, note).st),
        crate::model::model_choke(st, timing, voice_id, channel, note).st.gain == st.gain,
        crate::model::model_choke(st, timing, voice_id, channel, note).st.gain_min == st.gain_min,
        crate::model::model_choke(st, timing, voice_id, channel, note).st.gain_max == st.gain_max,
        crate::model::model_choke(st, timing, voice_id, channel, note).st.amp_attack_ms
            == st.amp_attack_ms,
        crate::model::model_choke(st, timing, voice_id, channel, note).st.amp_release_ms
            == st.amp_release_ms,
{
    let out = crate::model::model_choke(st, timing, voice_id, channel, note).st;
    match voice_id {
        Option::Some(_) => {
            match crate::model::first_match(st.voices, voice_id, channel, note, 0) {
                Option::Some(j) => {
                    lemma_first_match_in_range(st.voices, voice_id, channel, note, 0);
                    assert forall|k: int|
                        0 <= k < out.voices.len() implies match #[trigger] out.voices[k] {
                        Option::Some(w) => wf_voice(w),
                        Option::None => true,
                    } by {
                        if k != j {
                            assert(out.voices[k] == st.voices[k]);
                        }
                    }
                },
                Option::None => {},
            }
        },
        Option::None => {
            lemma_wf_choke_all(st.voices, timing, channel, note, 0);
            assert forall|k: int| 0 <= k < out.voices.len() implies match #[trigger] out.voices[k] {
                Option::Some(w) => wf_voice(w),
                Option::None => true,
            } by {
                assert(out.voices[k] == st.voices[k] || out.voices[k] is None);
            }
        },
    }
}

/// Polyphonic modulation keeps the engine state well formed.
pub proof fn lemma_wf_poly_mod(
    st: EngineState,
    voice_id: i32,
    poly_modulation_id: u32,
    offset: i64,
    sample_rate: int,
    base_id: u64,
)
    requires
        wf_state(st),
        -ONE <= offset <= ONE,
        sample_rate >= 1,
    ensures
        wf_state(crate::model::model_poly_mod(
            st,
            voice_id,
            poly_modulation_id,
            offset,
            sample_rate,
            base_id,
        )),
        crate::model::model_poly_mod(st, voice_id, poly_modulation_id, offset, sample_rate,
            base_id).gain == st.gain,
        crate::model::model_poly_mod(st, voice_id, poly_modulation_id, offset, sample_rate,
            base_id).gain_min == st.gain_min,
        crate::model::model_poly_mod(st, voice_id, poly_modulation_id, offset, sample_rate,
            base_id).gain_max == st.gain_max,
        crate::model::model_poly_mod(st, voice_id, poly_modulation_id, offset, sample_rate,
            base_id).amp_attack_ms == st.amp_attack_ms,
        crate::model::model_poly_mod(st, voice_id, poly_modulation_id, offset, sample_rate,
            base_id).amp_release_ms == st.amp_release_ms,
{
    let out = crate::model::model_poly_mod(
        st,
        voice_id,
        poly_modulation_id,
        offset,
        sample_rate,
        base_id,
    );
    if poly_modulation_id == crate::model::GAIN_POLY_MOD_ID {
        match crate::model::get_voice_idx_spec(st.voices, voice_id, 0) {
            Option::Some(j) => {
                lemma_get_voice_idx_in_range(st.voices, voice_id, 0);
                let v = st.voices[j]->Some_0;
                let target = crate::model::poly_mod_target(st, offset);
                let pair = match v.voice_gain {
                    Option::Some(p) => p,
                    Option::None => (offset, st.gain),
                };
                lemma_wf_set_target01(pair.1, sample_rate, target);
                assert forall|k: int|
                    0 <= k < out.voices.len() implies match #[trigger] out.voices[k] {
                    Option::Some(w) => wf_voice(w),
                    Option::None => true,
                } by {
                    if k != j {
                        assert(out.voices[k] == st.voices[k]);
                    }
                }
            },
            Option::None => {},
        }
    }
}

/// Mono automation keeps the engine state well formed.
pub proof fn lemma_wf_mono_auto(
    st: EngineState,
    poly_modulation_id: u32,
    value: i64,
    sample_rate: int,
)
    requires
        wf_state(st),
        -ONE <= value <= ONE,
        sample_rate >= 1,
    ensures
        wf_state(crate::model::model_mono_auto(st, poly_modulation_id, value, sample_rate)),
        crate::model::model_mono_auto(st, poly_modulation_id, value, sample_rate).gain == st.gain,
        crate::model::model_mono_auto(st, poly_modulation_id, value, sample_rate).gain_min
            == st.gain_min,
        crate::model::model_mono_auto(st, poly_modulation_id, value, sample_rate).gain_max
            == st.gain_max,
        crate::model::model_mono_auto(st, poly_modulation_id, value, sample_rate).amp_attack_ms
            == st.amp_attack_ms,
        crate::model::model_mono_auto(st, poly_modulation_id, value, sample_rate).amp_release_ms
            == st.amp_release_ms,
{
    let out = crate::model::model_mono_auto(st, poly_modulation_id, value, sample_rate);
    if poly_modulation_id == crate::model::GAIN_POLY_MOD_ID {
        assert forall|k: int| 0 <= k < out.voices.len() implies match #[trigger] out.voices[k] {
            Option::Some(w) => wf_voice(w),
            Option::None => true,
        } by {
            match st.voices[k] {
                Option::Some(v) => {
                    lemma_wf_mono_auto_voice(st, v, value, sample_rate);
                    assert(out.voices[k] == Option::Some(
                        mono_auto_voice(st, v, value, sample_rate),
                    ));
                },
                Option::None => {},
            }
        }
    }
}

/// Applying one event keeps the engine state well formed; the
/// parameters never change.
pub proof fn lemma_wf_apply_event(st: EngineState, e: NoteEvent, sample_rate: int, base_id: u64)
    requires
        wf_state(st),
        wf_event_payload(e),
        1 <= sample_rate <= SR_MAX as int,
    ensures
        wf_state(model_apply_event(st, e, sample_rate, base_id).st),
        model_apply_event(st, e, sample_rate, base_id).st.gain_min == st.gain_min,
        model_apply_event(st, e, sample_rate, base_id).st.gain_max == st.gain_max,
        model_apply_event(st, e, sample_rate, base_id).st.amp_attack_ms == st.amp_attack_ms,
        model_apply_event(st, e, sample_rate, base_id).st.amp_release_ms == st.amp_release_ms,
        model_apply_event(st, e, sample_rate, base_id).st.gain == st.gain,
{
    match e {
        NoteEvent::NoteOn { timing, voice_id, channel, note, velocity } => {
            lemma_wf_note_on(st, timing, voice_id, channel, note, velocity, sample_rate);
        },
        NoteEvent::NoteOff { voice_id, channel, note, .. } => {
            lemma_wf_release(st, voice_id, channel, note, sample_rate);
        },
        NoteEvent::Choke { timing, voice_id, channel, note } => {
            lemma_wf_choke(st, timing, voice_id, channel, note);
        },
        NoteEvent::PolyModulation { voice_id, poly_modulation_id, normalized_offset, .. } => {
            lemma_wf_poly_mod(
                st,
                voice_id,
                poly_modulation_id,
                normalized_offset,
                sample_rate,
                base_id,
            );
        },
        NoteEvent::MonoAutomation { poly_modulation_id, normalized_value, .. } => {
            lemma_wf_mono_auto(st, poly_modulation_id, normalized_value, sample_rate);
        },
    }
}

pub proof fn lemma_wf_mono_auto_voice(st: EngineState, v: Voice, value: i64, sample_rate: int)
    requires
        wf_state(st),
        wf_voice(v),
        -ONE <= value <= ONE,
        sample_rate >= 1,
    ensures
        wf_voice(mono_auto_voice(st, v, value, sample_rate)),
{
    match v.voice_gain {
        Option::Some((offset, sm)) => {
            let cl = crate::fixed::clamp_spec(value + offset, 0, ONE as int);
            lemma_fx_mul_contracts(st.gain_max - st.gain_min, cl, ONE as int);
            let target = crate::model::preview_plain(st, value + offset);
            lemma_wf_set_target01(sm, sample_rate, target);
        },
        Option::None => {},
    }
}

pub proof fn lemma_first_free_in_range(voices: Seq<Option<Voice>>, i: int)
    ensures
        crate::model::first_free(voices, i) matches Option::Some(j) ==> i <= j < voices.len()
            && voices[j] is None,
    decreases voices.len() - i,
{
    if 0 <= i < voices.len() {
        lemma_first_free_in_range(voices, i + 1);
    }
}

pub proof fn lemma_oldest_idx_in_range(voices: Seq<Option<Voice>>, i: int)
    requires
        0 <= i < voices.len(),
    ensures
        i <= crate::model::oldest_idx(voices, i) < voices.len(),
    decreases voices.len() - i,
{
    if i < voices.len() - 1 {
        lemma_oldest_idx_in_range(voices, i + 1);
    }
}

pub proof fn lemma_first_match_in_range(
    voices: Seq<Option<Voice>>,
    voice_id: Option<i32>,
    channel: u8,
    note: u8,
    i: int,
)
    ensures
        crate::model::first_match(voices, voice_id, channel, note, i) matches Option::Some(j)
            ==> i <= j < voices.len() && voices[j] is Some,
    decreases voices.len() - i,
{
    if 0 <= i < voices.len() {
        lemma_first_match_in_range(voices, voice_id, channel, note, i + 1);
    }
}

pub proof fn lemma_get_voice_idx_in_range(voices: Seq<Option<Voice>>, voice_id: i32, i: int)
    ensures
        crate::model::get_voice_idx_spec(voices, voice_id, i) matches Option::Some(j) ==> i <= j
            < voices.len() && voices[j] is Some,
    decreases voices.len() - i,
{
    if 0 <= i < voices.len() {
        lemma_get_voice_idx_in_range(voices, voice_id, i + 1);
    }
}

/// Consuming a run of due events keeps the state well formed; the
/// parameters never change.
pub proof fn lemma_wf_consume(
    st: EngineState,
    events: Seq<NoteEvent>,
    i: int,
    t: int,
    sample_rate: int,
    base_id: u64,
)
    requires
        wf_state(st),
        forall|j: int| 0 <= j < events.len() ==> wf_event_payload(#[trigger] events[j]),
        1 <= sample_rate <= SR_MAX as int,
    ensures
        wf_state(model_consume(st, events, i, t, sample_rate, base_id).st),
        model_consume(st, events, i, t, sample_rate, base_id).st.gain_min == st.gain_min,
        model_consume(st, events, i, t, sample_rate, base_id).st.gain_max == st.gain_max,
        model_consume(st, events, i, t, sample_rate, base_id).st.amp_attack_ms
            == st.amp_attack_ms,
        model_consume(st, events, i, t, sample_rate, base_id).st.amp_release_ms
            == st.amp_release_ms,
        i <= model_consume(st, events, i, t, sample_rate, base_id).next,
    decreases events.len() - i,
{
    if i < 0 || i >= events.len() || crate::event::event_timing(events[i]) > t {
    } else {
        let a = model_apply_event(st, events[i], sample_rate, base_id);
        lemma_wf_apply_event(st, events[i], sample_rate, base_id);
        lemma_wf_consume(a.st, events, i + 1, t, sample_rate, base_id);
    }
}

/// A rendered sub-block keeps the state well formed.
pub proof fn lemma_wf_span_state(st: EngineState, len: nat)
    requires
        wf_state(st),
    ensures
        wf_state(span_state(st, len)),
{
    lemma_wf_sm01_after(st.gain, len);
    assert forall|j: int| 0 <= j < st.voices.len() implies match #[trigger] span_state(
        st,
        len,
    ).voices[j] {
        Option::Some(v) => wf_voice(v),
        Option::None => true,
    } by {
        match st.voices[j] {
            Option::Some(v) => {
                lemma_wf_voice_after(v, len);
            },
            Option::None => {},
        }
    }
}

/// Pruning keeps the state well formed.
pub proof fn lemma_wf_prune(st: EngineState)
    requires
        wf_state(st),
    ensures
        wf_state(EngineState { voices: prune_voices_spec(st.voices), ..st }),
{
    assert forall|j: int| 0 <= j < st.voices.len() implies match #[trigger] prune_voices_spec(
        st.voices,
    )[j] {
        Option::Some(v) => wf_voice(v),
        Option::None => true,
    } by {
        assert(prune_voices_spec(st.voices)[j] == prune_slot(st.voices[j]));
    }
}

/// Splitting a sequence after a known prefix of its tail.
pub proof fn lemma_seq_shift<T>(total: Seq<T>, d: int, a: Seq<T>, rest: Seq<T>)
    requires
        0 <= d <= total.len(),
        total.skip(d) == a + rest,
    ensures
        total.take(d + a.len()) == total.take(d) + a,
        total.skip(d + a.len()) == rest,
        d + a.len() <= total.len(),
{
    assert(total.skip(d).len() == total.len() - d);
    assert forall|m: int| 0 <= m < a.len() implies total[d + m] == a[m] by {
        assert(total.skip(d)[m] == total[d + m]);
        assert((a + rest)[m] == a[m]);
    }
    assert(total.take(d + a.len()) =~= total.take(d) + a);
    assert forall|m: int| 0 <= m < rest.len() implies total[d + a.len() + m] == rest[m] by {
        assert(total.skip(d)[a.len() + m] == total[d + a.len() + m]);
        assert((a + rest)[a.len() + m] == rest[m]);
    }
    assert(total.skip(d + a.len()) =~= rest);
}

/// A sub-block always ends after its start and within the block.
pub proof fn lemma_block_end_range(
    events: Seq<NoteEvent>,
    i: int,
    s: int,
    n: int,
    max_len: int,
)
    requires
        0 <= s < n,
        max_len >= 1,
    ensures
        s < crate::model::block_end_spec(events, i, s, n, max_len) <= n,
{
}

/// The whole run renders exactly one output sample per requested
/// sample.
pub proof fn lemma_model_run_out_len(
    st: EngineState,
    events: Seq<NoteEvent>,
    i: int,
    s: int,
    n: int,
    sample_rate: int,
    max_len: int,
)
    requires
        max_len >= 1,
    ensures
        model_run(st, events, i, s, n, sample_rate, max_len).out.len() == if s < 0 || s >= n {
            0int
        } else {
            n - s
        },
    decreases n - s,
{
    if 0 <= s < n {
        let base_id = st.next_internal_voice_id;
        let c = model_consume(st, events, i, s, sample_rate, base_id);
        let e = crate::model::block_end_spec(events, c.next, s, n, max_len);
        lemma_block_end_range(events, c.next, s, n, max_len);
        lemma_model_run_out_len(
            crate::model::model_prune(span_state(c.st, (e - s) as nat), e).st,
            events,
            c.next,
            e,
            n,
            sample_rate,
            max_len,
        );
    }
}

/// One unfolding of the run: consume, render, prune, continue.
pub proof fn lemma_model_run_unfold(
    st: EngineState,
    events: Seq<NoteEvent>,
    i: int,
    s: int,
    n: int,
    sample_rate: int,
    max_len: int,
)
    requires
        0 <= s < n,
        max_len >= 1,
    ensures
        ({
            let base_id = st.next_internal_voice_id;
            let c = model_consume(st, events, i, s, sample_rate, base_id);
            let e = crate::model::block_end_spec(events, c.next, s, n, max_len);
            let len = (e - s) as nat;
            let outs = Seq::new(
                len,
                |k: int| crate::model::span_sum(
                    c.st.voices,
                    c.st.gain,
                    crate::model::NUM_VOICES as int,
                    k as nat,
                ) as i64,
            );
            let p = crate::model::model_prune(span_state(c.st, len), e);
            let rest = model_run(p.st, events, c.next, e, n, sample_rate, max_len);
            &&& model_run(st, events, i, s, n, sample_rate, max_len).st == rest.st
            &&& model_run(st, events, i, s, n, sample_rate, max_len).out == outs + rest.out
            &&& model_run(st, events, i, s, n, sample_rate, max_len).terms == c.terms + p.terms
                + rest.terms
        }),
{
}

} // verus!
