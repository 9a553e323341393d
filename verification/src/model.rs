//! Functional model of the engine. The executable engine is proved
//! equal to `model_run`, which splits the block into event-aligned
//! sub-blocks of at most `max_len` samples; `model_run` with
//! `max_len == 1` is the reference per-sample event-check renderer.

use vstd::prelude::*;

use crate::event::NoteEvent;
use crate::event::VoiceTerminated;
use crate::event::event_timing;
use crate::fixed::ONE;
use crate::fixed::BOUND;
use crate::fixed::clamp_spec;
use crate::fixed::fx_mul_spec;
use crate::fixed::isqrt_spec;
use crate::osc::phase_delta_spec;
use crate::osc::phase_step;
use crate::osc::triangle_spec;
use crate::pcg::Pcg32;
use crate::pcg::pcg_next_spec;
use crate::pcg::pcg_output_spec;
use crate::pcg::phase_of_draw;
use crate::smoother::Smoother;
use crate::smoother::SmoothingStyle;
use crate::smoother::sm_after;
use crate::smoother::sm_sample;
use crate::smoother::sm_step;
use crate::smoother::spec_reset;
use crate::smoother::spec_set_target;
use crate::voice::Voice;
use crate::voice::prunable;
use crate::voice::wf_sm01;
use crate::voice::wf_voice;

verus! {

/// Capacity of the voice pool.
pub const NUM_VOICES: usize = 16;

/// Longest sub-block rendered under constant event state; caps the
/// per-sub-block fixed costs without moving any event's effect.
pub const MAX_BLOCK: usize = 64;

/// The one polyphonic-modulation id this engine understands: the gain
/// parameter. Events naming any other id are ignored.
pub const GAIN_POLY_MOD_ID: u32 = 0;

/// The whole engine state, as the model sees it.
pub ghost struct EngineState {
    pub gain_min: i64,
    pub gain_max: i64,
    pub gain: Smoother,
    pub amp_attack_ms: i64,
    pub amp_release_ms: i64,
    pub prng: Pcg32,
    pub voices: Seq<Option<Voice>>,
    pub next_internal_voice_id: u64,
}

pub open spec fn wf_state(st: EngineState) -> bool {
    &&& st.voices.len() == NUM_VOICES
    &&& forall|j: int|
        0 <= j < st.voices.len() ==> match #[trigger] st.voices[j] {
            Option::Some(v) => wf_voice(v),
            Option::None => true,
        }
    &&& wf_sm01(st.gain)
    &&& 0 <= st.gain_min <= st.gain_max <= ONE
    &&& 0 <= st.amp_attack_ms <= BOUND
    &&& 0 <= st.amp_release_ms <= BOUND
}

/// Matching rule shared by release and choke: an explicit external id
/// must match exactly that voice; otherwise channel and note match
/// positionally.
pub open spec fn event_matches(v: Voice, voice_id: Option<i32>, channel: u8, note: u8) -> bool {
    match voice_id {
        Option::Some(id) => v.voice_id == id,
        Option::None => v.channel == channel && v.note == note,
    }
}

/// First slot at or after `i` holding a live voice that matches.
pub open spec fn first_match(
    voices: Seq<Option<Voice>>,
    voice_id: Option<i32>,
    channel: u8,
    note: u8,
    i: int,
) -> Option<int>
    decreases voices.len() - i,
{
    if i < 0 || i >= voices.len() {
        Option::None
    } else {
        match voices[i] {
            Option::Some(v) => if event_matches(v, voice_id, channel, note) {
                Option::Some(i)
            } else {
                first_match(voices, voice_id, channel, note, i + 1)
            },
            Option::None => first_match(voices, voice_id, channel, note, i + 1),
        }
    }
}

/// First free slot at or after `i`.
pub open spec fn first_free(voices: Seq<Option<Voice>>, i: int) -> Option<int>
    decreases voices.len() - i,
{
    if i < 0 || i >= voices.len() {
        Option::None
    } else if voices[i] is None {
        Option::Some(i)
    } else {
        first_free(voices, i + 1)
    }
}

/// Internal id of the voice in a slot (arbitrary for a free slot).
pub open spec fn slot_internal_id(ov: Option<Voice>) -> u64 {
    match ov {
        Option::Some(v) => v.internal_voice_id,
        Option::None => 0,
    }
}

/// Among slots at or after `i`, the first one holding the smallest
/// internal id; meaningful when every slot is live.
pub open spec fn oldest_idx(voices: Seq<Option<Voice>>, i: int) -> int
    decreases voices.len() - i,
{
    if i >= voices.len() - 1 {
        voices.len() - 1
    } else {
        let r = oldest_idx(voices, i + 1);
        if slot_internal_id(voices[i]) <= slot_internal_id(voices[r]) {
            i
        } else {
            r
        }
    }
}

/// First slot at or after `i` holding a live voice with this external
/// id.
pub open spec fn get_voice_idx_spec(voices: Seq<Option<Voice>>, voice_id: i32, i: int) -> Option<
    int,
>
    decreases voices.len() - i,
{
    if i < 0 || i >= voices.len() {
        Option::None
    } else {
        match voices[i] {
            Option::Some(v) => if v.voice_id == voice_id {
                Option::Some(i)
            } else {
                get_voice_idx_spec(voices, voice_id, i + 1)
            },
            Option::None => get_voice_idx_spec(voices, voice_id, i + 1),
        }
    }
}

/// An engine step's result: the new state plus the terminations it
/// reported.
pub ghost struct StepOut {
    pub st: EngineState,
    pub terms: Seq<VoiceTerminated>,
}

pub open spec fn fallback_or(voice_id: Option<i32>, channel: u8, note: u8) -> i32 {
    match voice_id {
        Option::Some(id) => id,
        Option::None => (note + channel * 65536) as i32,
    }
}

/// The amplitude envelope a note-on installs: an exponential ramp of
/// the attack time from zero toward one.
pub open spec fn note_on_envelope(attack_ms: i64, sample_rate: int) -> Smoother {
    spec_set_target(
        Smoother {
            style: SmoothingStyle::Exponential(attack_ms),
            value: 0,
            target: 0,
            steps_left: 0,
            step_size: 0,
            last: 0,
        },
        sample_rate,
        ONE,
    )
}

/// Allocation: install the new voice in the first free slot, or steal
/// the slot of the oldest voice (smallest internal id), reporting its
/// termination first.
pub open spec fn model_note_on(
    st: EngineState,
    timing: u32,
    voice_id: Option<i32>,
    channel: u8,
    note: u8,
    velocity: i64,
    sample_rate: int,
) -> StepOut {
    let v = Voice {
        voice_id: fallback_or(voice_id, channel, note),
        channel,
        note,
        internal_voice_id: st.next_internal_voice_id,
        velocity_sqrt: isqrt_spec(velocity * ONE) as i64,
        phase: phase_of_draw(pcg_output_spec(st.prng)),
        phase_delta: phase_delta_spec(note as int, sample_rate) as i64,
        releasing: false,
        amp_envelope: note_on_envelope(st.amp_attack_ms, sample_rate),
        voice_gain: Option::None,
    };
    let st1 = EngineState {
        prng: pcg_next_spec(st.prng),
        next_internal_voice_id: st.next_internal_voice_id.wrapping_add(1),
        ..st
    };
    let a = alloc_voices(st.voices, timing, v);
    StepOut { st: EngineState { voices: a.0, ..st1 }, terms: a.1 }
}

/// Install a voice: the first free slot if any, else the slot of the
/// oldest live voice (smallest internal id, first such slot), whose
/// termination is reported.
pub open spec fn alloc_voices(voices: Seq<Option<Voice>>, timing: u32, v: Voice) -> (
    Seq<Option<Voice>>,
    Seq<VoiceTerminated>,
) {
    match first_free(voices, 0) {
        Option::Some(j) => (voices.update(j, Option::Some(v)), Seq::empty()),
        Option::None => {
            let j = oldest_idx(voices, 0);
            let stolen = voices[j]->Some_0;
            (
                voices.update(j, Option::Some(v)),
                seq![
                    VoiceTerminated {
                        timing,
                        voice_id: stolen.voice_id,
                        channel: stolen.channel,
                        note: stolen.note,
                    },
                ],
            )
        },
    }
}

/// Release: the first matching voice starts an exponential decay of
/// the release time toward zero; only that one voice is released.
pub open spec fn model_release(
    st: EngineState,
    voice_id: Option<i32>,
    channel: u8,
    note: u8,
    sample_rate: int,
) -> EngineState {
    match first_match(st.voices, voice_id, channel, note, 0) {
        Option::Some(j) => {
            let v = st.voices[j]->Some_0;
            let v1 = Voice {
                releasing: true,
                amp_envelope: spec_set_target(
                    Smoother { style: SmoothingStyle::Exponential(st.amp_release_ms), ..v.amp_envelope },
                    sample_rate,
                    0,
                ),
                ..v
            };
            EngineState { voices: st.voices.update(j, Option::Some(v1)), ..st }
        },
        Option::None => st,
    }
}

/// Choke without an explicit id: clear every live `(channel, note)`
/// match at or after slot `i`, reporting each termination in slot
/// order with the choke event's own channel and note.
pub open spec fn choke_all(
    voices: Seq<Option<Voice>>,
    timing: u32,
    channel: u8,
    note: u8,
    i: int,
) -> (Seq<Option<Voice>>, Seq<VoiceTerminated>)
    decreases voices.len() - i,
{
    if i < 0 || i >= voices.len() {
        (voices, Seq::empty())
    } else {
        match voices[i] {
            Option::Some(v) => if v.channel == channel && v.note == note {
                let rest = choke_all(voices.update(i, Option::None), timing, channel, note, i + 1);
                (
                    rest.0,
                    seq![VoiceTerminated { timing, voice_id: v.voice_id, channel, note }]
                        + rest.1,
                )
            } else {
                choke_all(voices, timing, channel, note, i + 1)
            },
            Option::None => choke_all(voices, timing, channel, note, i + 1),
        }
    }
}

/// Choke: matching voices are cleared at once, with no decay ramp,
/// and their terminations reported.
pub open spec fn model_choke(
    st: EngineState,
    timing: u32,
    voice_id: Option<i32>,
    channel: u8,
    note: u8,
) -> StepOut {
    match voice_id {
        Option::Some(_) => match first_match(st.voices, voice_id, channel, note, 0) {
            Option::Some(j) => {
                let v = st.voices[j]->Some_0;
                StepOut {
                    st: EngineState { voices: st.voices.update(j, Option::None), ..st },
                    terms: seq![VoiceTerminated { timing, voice_id: v.voice_id, channel, note }],
                }
            },
            Option::None => StepOut { st, terms: Seq::empty() },
        },
        Option::None => {
            let r = choke_all(st.voices, timing, channel, note, 0);
            StepOut { st: EngineState { voices: r.0, ..st }, terms: r.1 }
        },
    }
}

/// The plain gain value previewed for a polyphonic-modulation offset:
/// the global ramp's target plus one fractional step, clamped into the
/// parameter's plain range.
pub open spec fn poly_mod_target(st: EngineState, offset: i64) -> i64 {
    clamp_spec(
        st.gain.target + fx_mul_spec(st.gain.step_size as int, offset as int),
        st.gain_min as int,
        st.gain_max as int,
    ) as i64
}

/// Polyphonic modulation of the gain of one voice: capture the offset
/// and a copy of the global gain ramp on first touch; a voice started
/// at this same boundary snaps to the previewed value, an older voice
/// ramps toward it.
pub open spec fn model_poly_mod(
    st: EngineState,
    voice_id: i32,
    poly_modulation_id: u32,
    offset: i64,
    sample_rate: int,
    base_id: u64,
) -> EngineState {
    if poly_modulation_id != GAIN_POLY_MOD_ID {
        st
    } else {
        match get_voice_idx_spec(st.voices, voice_id, 0) {
            Option::Some(j) => {
                let v = st.voices[j]->Some_0;
                let target = poly_mod_target(st, offset);
                let pair = match v.voice_gain {
                    Option::Some(p) => p,
                    Option::None => (offset, st.gain),
                };
                let sm1 = if v.internal_voice_id >= base_id {
                    spec_reset(pair.1, target)
                } else {
                    spec_set_target(pair.1, sample_rate, target)
                };
                let v1 = Voice { voice_gain: Option::Some((pair.0, sm1)), ..v };
                EngineState { voices: st.voices.update(j, Option::Some(v1)), ..st }
            },
            Option::None => st,
        }
    }
}

/// The plain gain value for a normalized position, by the parameter's
/// linear range.
pub open spec fn preview_plain(st: EngineState, normalized: int) -> i64 {
    (st.gain_min + fx_mul_spec(
        st.gain_max - st.gain_min,
        clamp_spec(normalized, 0, ONE as int),
    )) as i64
}

pub open spec fn mono_auto_voice(st: EngineState, v: Voice, value: i64, sample_rate: int) -> Voice {
    match v.voice_gain {
        Option::Some((offset, sm)) => {
            let target = preview_plain(st, value + offset);
            Voice {
                voice_gain: Option::Some((offset, spec_set_target(sm, sample_rate, target))),
                ..v
            }
        },
        Option::None => v,
    }
}

/// Mono automation of the gain: every voice that carries a captured
/// modulation offset ramps its own gain toward the automated value
/// shifted by that offset.
pub open spec fn model_mono_auto(
    st: EngineState,
    poly_modulation_id: u32,
    value: i64,
    sample_rate: int,
) -> EngineState {
    if poly_modulation_id != GAIN_POLY_MOD_ID {
        st
    } else {
        EngineState {
            voices: st.voices.map_values(
                |ov: Option<Voice>|
                    match ov {
                        Option::Some(v) => Option::Some(mono_auto_voice(st, v, value, sample_rate)),
                        Option::None => Option::None,
                    },
            ),
            ..st
        }
    }
}

/// Apply one event's immediate effect. `base_id` is the engine's next
/// internal id as of the start of this boundary: a voice with an id at
/// or above it was started at this boundary.
pub open spec fn model_apply_event(
    st: EngineState,
    e: NoteEvent,
    sample_rate: int,
    base_id: u64,
) -> StepOut {
    match e {
        NoteEvent::NoteOn { timing, voice_id, channel, note, velocity } => model_note_on(
            st,
            timing,
            voice_id,
            channel,
            note,
            velocity,
            sample_rate,
        ),
        NoteEvent::NoteOff { timing: _, voice_id, channel, note, velocity: _ } => StepOut {
            st: model_release(st, voice_id, channel, note, sample_rate),
            terms: Seq::empty(),
        },
        NoteEvent::Choke { timing, voice_id, channel, note } => model_choke(
            st,
            timing,
            voice_id,
            channel,
            note,
        ),
        NoteEvent::PolyModulation { timing: _, voice_id, poly_modulation_id, normalized_offset } =>
            StepOut {
            st: model_poly_mod(
                st,
                voice_id,
                poly_modulation_id,
                normalized_offset,
                sample_rate,
                base_id,
            ),
            terms: Seq::empty(),
        },
        NoteEvent::MonoAutomation { timing: _, poly_modulation_id, normalized_value } => StepOut {
            st: model_mono_auto(st, poly_modulation_id, normalized_value, sample_rate),
            terms: Seq::empty(),
        },
    }
}

pub ghost struct ConsumeOut {
    pub st: EngineState,
    pub terms: Seq<VoiceTerminated>,
    pub next: int,
}

/// Consume every queued event due at or before sample `t`, applying
/// each effect immediately.
pub open spec fn model_consume(
    st: EngineState,
    events: Seq<NoteEvent>,
    i: int,
    t: int,
    sample_rate: int,
    base_id: u64,
) -> ConsumeOut
    decreases events.len() - i,
{
    if i < 0 || i >= events.len() || event_timing(events[i]) > t {
        ConsumeOut { st, terms: Seq::empty(), next: i }
    } else {
        let a = model_apply_event(st, events[i], sample_rate, base_id);
        let rest = model_consume(a.st, events, i + 1, t, sample_rate, base_id);
        ConsumeOut { st: rest.st, terms: a.terms + rest.terms, next: rest.next }
    }
}

/// One sample of rendering advances a voice: phase accumulates, the
/// envelope and any per-voice gain ramp step once.
pub open spec fn voice_advance(v: Voice) -> Voice {
    Voice {
        phase: phase_step(v.phase as int, v.phase_delta as int) as i64,
        amp_envelope: sm_step(v.amp_envelope),
        voice_gain: match v.voice_gain {
            Option::Some((o, s)) => Option::Some((o, sm_step(s))),
            Option::None => Option::None,
        },
        ..v
    }
}

pub open spec fn voice_after(v: Voice, k: nat) -> Voice
    decreases k,
{
    if k == 0 {
        v
    } else {
        voice_advance(voice_after(v, (k - 1) as nat))
    }
}

pub open spec fn opt_after(ov: Option<Voice>, k: nat) -> Option<Voice> {
    match ov {
        Option::Some(v) => Option::Some(voice_after(v, k)),
        Option::None => Option::None,
    }
}

/// A live voice's contribution to one output sample: the triangle
/// waveform at its phase, scaled by velocity, gain (its own override
/// ramp if captured, else the global ramp's value) and envelope.
pub open spec fn voice_sample_of(ov: Option<Voice>, gval: i64) -> int {
    match ov {
        Option::None => 0,
        Option::Some(v) => {
            let gv = match v.voice_gain {
                Option::Some((_, s)) => s.value,
                Option::None => gval,
            };
            let amp = fx_mul_spec(
                fx_mul_spec(v.velocity_sqrt as int, gv as int),
                v.amp_envelope.value as int,
            );
            fx_mul_spec(triangle_spec(v.phase as int), amp)
        },
    }
}

/// Sum of the contributions of the first `i` slots.
pub open spec fn slots_sum(voices: Seq<Option<Voice>>, gval: i64, i: int) -> int
    decreases i,
{
    if i <= 0 {
        0
    } else {
        slots_sum(voices, gval, i - 1) + voice_sample_of(voices[i - 1], gval)
    }
}

/// Output sample at offset `k` of a sub-block: every voice advanced
/// `k` samples, the global gain ramp read at `k`, first `i` slots.
pub open spec fn span_sum(
    voices: Seq<Option<Voice>>,
    gain: Smoother,
    i: int,
    k: nat,
) -> int {
    slots_sum(voices.map_values(|ov: Option<Voice>| opt_after(ov, k)), sm_sample(gain, k), i)
}

pub open spec fn prune_slot(ov: Option<Voice>) -> Option<Voice> {
    match ov {
        Option::Some(v) => if prunable(v) {
            Option::None
        } else {
            Option::Some(v)
        },
        Option::None => Option::None,
    }
}

pub open spec fn prune_voices_spec(voices: Seq<Option<Voice>>) -> Seq<Option<Voice>> {
    voices.map_values(|ov: Option<Voice>| prune_slot(ov))
}

/// Terminations the pruning pass reports for the first `i` slots, in
/// slot order, stamped with the sub-block's end.
pub open spec fn prune_terms(voices: Seq<Option<Voice>>, t: int, i: int) -> Seq<VoiceTerminated>
    decreases i,
{
    if i <= 0 {
        Seq::empty()
    } else {
        prune_terms(voices, t, i - 1) + match voices[i - 1] {
            Option::Some(v) => if prunable(v) {
                seq![
                    VoiceTerminated {
                        timing: t as u32,
                        voice_id: v.voice_id,
                        channel: v.channel,
                        note: v.note,
                    },
                ]
            } else {
                Seq::empty()
            },
            Option::None => Seq::empty(),
        }
    }
}

/// Prune after a sub-block: every released voice whose last rendered
/// envelope sample was exactly zero is removed and reported in the
/// same sub-block, stamped with the sub-block's end.
pub open spec fn model_prune(st: EngineState, t: int) -> StepOut {
    StepOut {
        st: EngineState { voices: prune_voices_spec(st.voices), ..st },
        terms: prune_terms(st.voices, t, st.voices.len() as int),
    }
}

/// The state after rendering a sub-block of `len` samples: every
/// voice and the global gain ramp advanced `len` steps.
pub open spec fn span_state(st: EngineState, len: nat) -> EngineState {
    EngineState {
        voices: st.voices.map_values(|ov: Option<Voice>| opt_after(ov, len)),
        gain: sm_after(st.gain, len),
        ..st
    }
}

pub ghost struct RunOut {
    pub st: EngineState,
    pub out: Seq<i64>,
    pub terms: Seq<VoiceTerminated>,
}

/// Where the next sub-block ends: at most `max_len` samples on, but
/// shrunk so a boundary lands exactly on the next unconsumed event.
pub open spec fn block_end_spec(
    events: Seq<NoteEvent>,
    i: int,
    s: int,
    n: int,
    max_len: int,
) -> int {
    let e0 = if s + max_len <= n {
        s + max_len
    } else {
        n
    };
    let e1 = if 0 <= i < events.len() && s < event_timing(events[i]) < e0 {
        event_timing(events[i])
    } else {
        e0
    };
    if e1 <= s {
        s + 1
    } else {
        e1
    }
}

/// The whole per-callback loop from sample `s`: consume due events,
/// render the sub-block, prune, repeat.
pub open spec fn model_run(
    st: EngineState,
    events: Seq<NoteEvent>,
    i: int,
    s: int,
    n: int,
    sample_rate: int,
    max_len: int,
) -> RunOut
    decreases n - s,
{
    if s < 0 || s >= n {
        RunOut { st, out: Seq::empty(), terms: Seq::empty() }
    } else {
        let base_id = st.next_internal_voice_id;
        let c = model_consume(st, events, i, s, sample_rate, base_id);
        let e = block_end_spec(events, c.next, s, n, max_len);
        let len = (e - s) as nat;
        let outs = Seq::new(
            len,
            |k: int| span_sum(c.st.voices, c.st.gain, NUM_VOICES as int, k as nat) as i64,
        );
        let p = model_prune(span_state(c.st, len), e);
        let rest = model_run(p.st, events, c.next, e, n, sample_rate, max_len);
        RunOut { st: rest.st, out: outs + rest.out, terms: c.terms + p.terms + rest.terms }
    }
}

} // verus!
