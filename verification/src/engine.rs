//! The polyphonic synthesizer engine: a fixed pool of voices driven
//! by timed events and rendered block by block. `process` is proved
//! equal to the functional model `model_run`.

use vstd::prelude::*;

use crate::event::NoteEvent;
use crate::event::VoiceTerminated;
use crate::event::sorted_by_timing;
use crate::event::wf_event_payload;
use crate::event::wf_events;
use crate::fixed::ONE;
use crate::fixed::clamp_i64;
use crate::fixed::fx_mul;
use crate::fixed::fx_sqrt;
use crate::model::EngineState;
use crate::model::GAIN_POLY_MOD_ID;
use crate::model::MAX_BLOCK;
use crate::model::NUM_VOICES;
use crate::model::alloc_voices;
use crate::model::choke_all;
use crate::model::model_choke;
use crate::model::model_apply_event;
use crate::model::model_mono_auto;
use crate::model::model_poly_mod;
use crate::model::model_consume;
use crate::model::model_release;
use crate::model::model_run;
use crate::model::prune_slot;
use crate::model::prune_terms;
use crate::model::prune_voices_spec;
use crate::model::span_state;
use crate::model::span_sum;
use crate::model::first_free;
use crate::model::first_match;
use crate::model::get_voice_idx_spec;
use crate::model::oldest_idx;
use crate::model::wf_state;
use crate::osc::compute_fallback_voice_id;
use crate::osc::advance_phase;
use crate::osc::note_phase_delta;
use crate::osc::triangle_wave;
use crate::pcg::Pcg32;
use crate::smoother::SR_MAX;
use crate::smoother::Smoother;
use crate::smoother::SmoothingStyle;
use crate::voice::Voice;
use crate::voice::wf_voice;

verus! {

/// Default plain value of the gain parameter (-12 dB).
pub const GAIN_DEFAULT: i64 = 16462;

/// Lower end of the gain parameter's plain range (-36 dB).
pub const GAIN_MIN_DEFAULT: i64 = 1039;

/// Upper end of the gain parameter's plain range (0 dB).
pub const GAIN_MAX_DEFAULT: i64 = 65536;

/// Default gain smoothing: logarithmic, 5 ms.
pub const GAIN_SMOOTH_MS: i64 = 327680;

/// Default amplitude attack time, 200 ms.
pub const AMP_ATTACK_DEFAULT: i64 = 13107200;

/// Default amplitude release time, 100 ms.
pub const AMP_RELEASE_DEFAULT: i64 = 6553600;

/// The synthesizer: global gain parameter and its ramp, envelope
/// times, the owned phase generator, and the voice pool.
pub struct PolyModSynth {
    pub gain_min: i64,
    pub gain_max: i64,
    pub gain: Smoother,
    pub amp_attack_ms: i64,
    pub amp_release_ms: i64,
    pub prng: Pcg32,
    pub voices: Vec<Option<Voice>>,
    pub next_internal_voice_id: u64,
}

impl View for PolyModSynth {
    type V = EngineState;

    open spec fn view(&self) -> EngineState {
        EngineState {
            gain_min: self.gain_min,
            gain_max: self.gain_max,
            gain: self.gain,
            amp_attack_ms: self.amp_attack_ms,
            amp_release_ms: self.amp_release_ms,
            prng: self.prng,
            voices: self.voices@,
            next_internal_voice_id: self.next_internal_voice_id,
        }
    }
}

/// The state every fresh or reset engine starts from: default
/// parameters, a deterministically seeded generator, an empty pool.
pub open spec fn initial_state() -> EngineState {
    EngineState {
        gain_min: GAIN_MIN_DEFAULT,
        gain_max: GAIN_MAX_DEFAULT,
        gain: (Smoother {
            style: SmoothingStyle::Logarithmic(GAIN_SMOOTH_MS),
            value: GAIN_DEFAULT,
            target: GAIN_DEFAULT,
            steps_left: 0,
            step_size: 0,
            last: GAIN_DEFAULT,
        }),
        amp_attack_ms: AMP_ATTACK_DEFAULT,
        amp_release_ms: AMP_RELEASE_DEFAULT,
        prng: crate::pcg::pcg_new_spec(420, 1337),
        voices: Seq::new(NUM_VOICES as nat, |j: int| Option::<Voice>::None),
        next_internal_voice_id: 0,
    }
}

impl Default for PolyModSynth {
    /// Same as `new`: default parameters, empty pool, fresh seed.
    fn default() -> (r: Self)
        ensures
            r@ == initial_state(),
            wf_state(r@),
    {
        PolyModSynth::new()
    }
}

impl PolyModSynth {
    /// A fresh engine with default parameters and an empty pool.
    pub fn new() -> (r: Self)
        ensures
            r@ == initial_state(),
            wf_state(r@),
    {
        let mut voices: Vec<Option<Voice>> = Vec::new();
        let mut j: usize = 0;
        while j < NUM_VOICES
            invariant
                j <= NUM_VOICES,
                voices@.len() == j,
                forall|k: int| 0 <= k < j ==> voices@[k] is None,
            decreases NUM_VOICES - j,
        {
            voices.push(Option::None);
            j = j + 1;
        }
        let r = PolyModSynth {
            gain_min: GAIN_MIN_DEFAULT,
            gain_max: GAIN_MAX_DEFAULT,
            gain: Smoother {
                style: SmoothingStyle::Logarithmic(GAIN_SMOOTH_MS),
                value: GAIN_DEFAULT,
                target: GAIN_DEFAULT,
                steps_left: 0,
                step_size: 0,
                last: GAIN_DEFAULT,
            },
            amp_attack_ms: AMP_ATTACK_DEFAULT,
            amp_release_ms: AMP_RELEASE_DEFAULT,
            prng: Pcg32::new(420, 1337),
            voices,
            next_internal_voice_id: 0,
        };
        proof {
            assert(r@.voices =~= initial_state().voices);
        }
        r
    }

    /// Return to the initial state: reseed the generator
    /// deterministically, clear the pool, restart the id counter.
    pub fn reset(&mut self)
        requires
            old(self)@.voices.len() == NUM_VOICES,
        ensures
            final(self)@ == (EngineState {
                gain_min: old(self)@.gain_min,
                gain_max: old(self)@.gain_max,
                gain: old(self)@.gain,
                amp_attack_ms: old(self)@.amp_attack_ms,
                amp_release_ms: old(self)@.amp_release_ms,
                ..initial_state()
            }),
    {
        self.prng = Pcg32::new(420, 1337);
        let mut j: usize = 0;
        while j < self.voices.len()
            invariant
                j <= self.voices@.len(),
                self.voices@.len() == old(self).voices@.len(),
                forall|k: int| 0 <= k < j ==> self.voices@[k] is None,
                self.gain_min == old(self).gain_min,
                self.gain_max == old(self).gain_max,
                self.gain == old(self).gain,
                self.amp_attack_ms == old(self).amp_attack_ms,
                self.amp_release_ms == old(self).amp_release_ms,
                self.prng == crate::pcg::pcg_new_spec(420, 1337),
            decreases self.voices@.len() - j,
        {
            self.voices.set(j, Option::None);
            j = j + 1;
        }
        self.next_internal_voice_id = 0;
        proof {
            assert(self.voices@ =~= initial_state().voices);
        }
    }

    /// Host-facing automation of the gain parameter: the normalized
    /// position is mapped through the parameter's linear plain range
    /// and becomes the global gain ramp's new target.
    pub fn set_gain_normalized(&mut self, sample_rate: u32, normalized: i64)
        requires
            wf_state(old(self)@),
            1 <= sample_rate <= SR_MAX,
            -ONE <= normalized <= ONE,
        ensures
            final(self)@ == (EngineState {
                gain: crate::smoother::spec_set_target(
                    old(self)@.gain,
                    sample_rate as int,
                    crate::model::preview_plain(old(self)@, normalized as int),
                ),
                ..old(self)@
            }),
            wf_state(final(self)@),
    {
        let cl: i64 = clamp_i64(normalized, 0, ONE);
        proof {
            crate::fixed::lemma_fx_mul_contracts(
                self.gain_max as int - self.gain_min as int,
                cl as int,
                ONE as int,
            );
            crate::wf::lemma_wf_set_target01(
                self.gain,
                sample_rate as int,
                crate::model::preview_plain(self@, normalized as int),
            );
        }
        let target: i64 = self.gain_min + fx_mul(self.gain_max - self.gain_min, cl);
        self.gain.set_target(sample_rate, target);
    }

    /// Linear scan for the slot of the live voice with this external
    /// id.
    pub fn get_voice_idx(&self, voice_id: i32) -> (r: Option<usize>)
        ensures
            get_voice_idx_spec(self@.voices, voice_id, 0) == match r {
                Option::Some(j) => Option::Some(j as int),
                Option::None => Option::<int>::None,
            },
            r matches Option::Some(j) ==> j < self@.voices.len() && (self@.voices[j as int]
                matches Option::Some(v) && v.voice_id == voice_id),
    {
        let mut i: usize = 0;
        while i < self.voices.len()
            invariant
                i <= self.voices@.len(),
                get_voice_idx_spec(self@.voices, voice_id, 0) == get_voice_idx_spec(
                    self@.voices,
                    voice_id,
                    i as int,
                ),
            decreases self.voices@.len() - i,
        {
            match &self.voices[i] {
                Option::Some(v) => {
                    if v.voice_id == voice_id {
                        return Option::Some(i);
                    }
                },
                Option::None => {},
            }
            i = i + 1;
        }
        Option::None
    }

    /// First free slot of the pool, if any.
    fn find_free_slot(&self) -> (r: Option<usize>)
        ensures
            first_free(self@.voices, 0) == match r {
                Option::Some(j) => Option::Some(j as int),
                Option::None => Option::<int>::None,
            },
            r matches Option::Some(j) ==> j < self@.voices.len() && self@.voices[j as int] is None,
            r is None ==> forall|k: int| 0 <= k < self@.voices.len() ==> self@.voices[k] is Some,
    {
        let mut i: usize = 0;
        while i < self.voices.len()
            invariant
                i <= self.voices@.len(),
                first_free(self@.voices, 0) == first_free(self@.voices, i as int),
                forall|k: int| 0 <= k < i ==> self@.voices[k] is Some,
            decreases self.voices@.len() - i,
        {
            if self.voices[i].is_none() {
                return Option::Some(i);
            }
            i = i + 1;
        }
        Option::None
    }

    /// Slot of the first voice holding the smallest internal id, for
    /// a full pool.
    fn find_oldest_slot(&self) -> (r: usize)
        requires
            self@.voices.len() == NUM_VOICES,
        ensures
            r == oldest_idx(self@.voices, 0),
            r < NUM_VOICES,
    {
        let mut best: usize = NUM_VOICES - 1;
        let mut j: usize = NUM_VOICES - 1;
        while j > 0
            invariant
                j < NUM_VOICES,
                best < NUM_VOICES,
                self@.voices.len() == NUM_VOICES,
                best == oldest_idx(self@.voices, j as int),
            decreases j,
        {
            j = j - 1;
            let a: u64 = match &self.voices[j] {
                Option::Some(v) => v.internal_voice_id,
                Option::None => 0,
            };
            let b: u64 = match &self.voices[best] {
                Option::Some(v) => v.internal_voice_id,
                Option::None => 0,
            };
            if a <= b {
                best = j;
            }
        }
        best
    }

    /// Install a completed voice, assigning it the slot of the first
    /// free position, or stealing the oldest voice's slot and
    /// reporting that voice's termination. Always succeeds. The
    /// internal id counter advances (wrapping) for the next voice.
    pub fn start_voice(&mut self, timing: u32, new_voice: Voice, terms: &mut Vec<VoiceTerminated>)
        requires
            old(self)@.voices.len() == NUM_VOICES,
        ensures
            final(self)@.voices == alloc_voices(old(self)@.voices, timing, new_voice).0,
            final(terms)@ == old(terms)@ + alloc_voices(old(self)@.voices, timing, new_voice).1,
            final(self)@.next_internal_voice_id == old(
                self,
            ).next_internal_voice_id.wrapping_add(1),
            final(self)@.gain_min == old(self)@.gain_min,
            final(self)@.gain_max == old(self)@.gain_max,
            final(self)@.gain == old(self)@.gain,
            final(self)@.amp_attack_ms == old(self)@.amp_attack_ms,
            final(self)@.amp_release_ms == old(self)@.amp_release_ms,
            final(self)@.prng == old(self)@.prng,
    {
        self.next_internal_voice_id = self.next_internal_voice_id.wrapping_add(1);
        match self.find_free_slot() {
            Option::Some(i) => {
                self.voices.set(i, Option::Some(new_voice));
                proof {
                    assert(final(terms)@ =~= old(terms)@ + alloc_voices(
                        old(self)@.voices,
                        timing,
                        new_voice,
                    ).1);
                }
            },
            Option::None => {
                let best: usize = self.find_oldest_slot();
                match &self.voices[best] {
                    Option::Some(stolen) => {
                        terms.push(
                            VoiceTerminated {
                                timing,
                                voice_id: stolen.voice_id,
                                channel: stolen.channel,
                                note: stolen.note,
                            },
                        );
                    },
                    Option::None => {},
                }
                self.voices.set(best, Option::Some(new_voice));
                proof {
                    assert(final(terms)@ =~= old(terms)@ + alloc_voices(
                        old(self)@.voices,
                        timing,
                        new_voice,
                    ).1);
                }
            },
        }
    }

    /// First slot holding a live voice that matches by the
    /// release/choke rule.
    fn find_match(&self, voice_id: Option<i32>, channel: u8, note: u8) -> (r: Option<usize>)
        ensures
            first_match(self@.voices, voice_id, channel, note, 0) == match r {
                Option::Some(j) => Option::Some(j as int),
                Option::None => Option::<int>::None,
            },
            r matches Option::Some(j) ==> j < self@.voices.len() && self@.voices[j as int]
                is Some,
    {
        let mut i: usize = 0;
        while i < self.voices.len()
            invariant
                i <= self.voices@.len(),
                first_match(self@.voices, voice_id, channel, note, 0) == first_match(
                    self@.voices,
                    voice_id,
                    channel,
                    note,
                    i as int,
                ),
            decreases self.voices@.len() - i,
        {
            match &self.voices[i] {
                Option::Some(v) => {
                    let hit: bool = match voice_id {
                        Option::Some(id) => v.voice_id == id,
                        Option::None => v.channel == channel && v.note == note,
                    };
                    if hit {
                        return Option::Some(i);
                    }
                },
                Option::None => {},
            }
            i = i + 1;
        }
        Option::None
    }

    /// Release: the first matching voice starts its exponential decay
    /// toward silence; its slot stays occupied until pruning. Only one
    /// voice is released per call.
    pub fn start_release_for_voices(
        &mut self,
        sample_rate: u32,
        voice_id: Option<i32>,
        channel: u8,
        note: u8,
    )
        requires
            wf_state(old(self)@),
            1 <= sample_rate <= SR_MAX,
        ensures
            final(self)@ == model_release(old(self)@, voice_id, channel, note, sample_rate as int),
    {
        match self.find_match(voice_id, channel, note) {
            Option::Some(j) => {
                let mut v: Voice = self.voices[j].unwrap();
                v.releasing = true;
                v.amp_envelope.style = SmoothingStyle::Exponential(self.amp_release_ms);
                v.amp_envelope.set_target(sample_rate, 0);
                self.voices.set(j, Option::Some(v));
            },
            Option::None => {},
        }
    }

    /// Choke: clear matching voices at once, with no decay ramp, and
    /// report their terminations. With an explicit id only that voice
    /// goes; without one, every positional match goes.
    pub fn choke_voices(
        &mut self,
        timing: u32,
        voice_id: Option<i32>,
        channel: u8,
        note: u8,
        terms: &mut Vec<VoiceTerminated>,
    )
        requires
            wf_state(old(self)@),
        ensures
            final(self)@ == model_choke(old(self)@, timing, voice_id, channel, note).st,
            final(terms)@ == old(terms)@ + model_choke(
                old(self)@,
                timing,
                voice_id,
                channel,
                note,
            ).terms,
    {
        let is_explicit: bool = voice_id.is_some();
        if is_explicit {
            match self.find_match(voice_id, channel, note) {
                Option::Some(j) => {
                    match &self.voices[j] {
                        Option::Some(v) => {
                            terms.push(
                                VoiceTerminated { timing, voice_id: v.voice_id, channel, note },
                            );
                        },
                        Option::None => {},
                    }
                    self.voices.set(j, Option::None);
                    proof {
                        assert(final(terms)@ =~= old(terms)@ + model_choke(
                            old(self)@,
                            timing,
                            voice_id,
                            channel,
                            note,
                        ).terms);
                    }
                },
                Option::None => {
                    proof {
                        assert(final(terms)@ =~= old(terms)@ + model_choke(
                            old(self)@,
                            timing,
                            voice_id,
                            channel,
                            note,
                        ).terms);
                    }
                },
            }
        } else {
            let ghost total = choke_all(old(self)@.voices, timing, channel, note, 0);
            let mut i: usize = 0;
            while i < self.voices.len()
                invariant
                    i <= self.voices@.len(),
                    self.voices@.len() == old(self)@.voices.len(),
                    self.gain_min == old(self).gain_min,
                    self.gain_max == old(self).gain_max,
                    self.gain == old(self).gain,
                    self.amp_attack_ms == old(self).amp_attack_ms,
                    self.amp_release_ms == old(self).amp_release_ms,
                    self.prng == old(self).prng,
                    self.next_internal_voice_id == old(self).next_internal_voice_id,
                    old(terms)@.len() <= terms@.len(),
                    terms@.len() - old(terms)@.len() <= total.1.len(),
                    total == choke_all(old(self)@.voices, timing, channel, note, 0),
                    terms@ == old(terms)@ + total.1.take(terms@.len() - old(terms)@.len()),
                    choke_all(self.voices@, timing, channel, note, i as int).0 == total.0,
                    choke_all(self.voices@, timing, channel, note, i as int).1 == total.1.skip(
                        terms@.len() - old(terms)@.len(),
                    ),
                decreases self.voices@.len() - i,
            {
                let ghost pre_voices = self.voices@;
                let ghost c = terms@.len() - old(terms)@.len();
                let mut cleared: bool = false;
                match &self.voices[i] {
                    Option::Some(v) => {
                        if v.channel == channel && v.note == note {
                            terms.push(
                                VoiceTerminated { timing, voice_id: v.voice_id, channel, note },
                            );
                            cleared = true;
                        }
                    },
                    Option::None => {},
                }
                if cleared {
                    self.voices.set(i, Option::None);
                    proof {
                        let vterm = VoiceTerminated {
                            timing,
                            voice_id: pre_voices[i as int]->Some_0.voice_id,
                            channel,
                            note,
                        };
                        let rest = choke_all(
                            pre_voices.update(i as int, Option::None),
                            timing,
                            channel,
                            note,
                            i as int + 1,
                        );
                        assert(self.voices@ =~= pre_voices.update(i as int, Option::None));
                        assert(choke_all(pre_voices, timing, channel, note, i as int).1 == seq![
                            vterm,
                        ] + rest.1);
                        assert(total.1.skip(c) == seq![vterm] + rest.1);
                        assert(total.1.skip(c).len() == total.1.len() - c);
                        assert(c < total.1.len());
                        assert(total.1.skip(c)[0] == total.1[c]);
                        assert(total.1[c] == vterm);
                        assert(total.1.take(c + 1) =~= total.1.take(c) + seq![total.1[c]]);
                        assert(terms@ =~= old(terms)@ + total.1.take(c + 1));
                        assert forall|m: int| 0 <= m < rest.1.len() implies rest.1[m] == total.1[c
                            + 1 + m] by {
                            assert(total.1.skip(c)[m + 1] == total.1[c + 1 + m]);
                            assert((seq![vterm] + rest.1)[m + 1] == rest.1[m]);
                        }
                        assert(rest.1 =~= total.1.skip(c + 1));
                        assert(choke_all(self.voices@, timing, channel, note, i as int + 1).1
                            == rest.1);
                        assert(choke_all(self.voices@, timing, channel, note, i as int + 1).0
                            == total.0);
                    }
                }
                i = i + 1;
            }
            proof {
                assert(final(terms)@ =~= old(terms)@ + model_choke(
                    old(self)@,
                    timing,
                    voice_id,
                    channel,
                    note,
                ).terms);
            }
        }
    }

    /// Prune after a sub-block: every released voice whose last
    /// rendered envelope sample was exactly zero is removed and its
    /// termination reported, stamped with the sub-block's end.
    pub fn prune(&mut self, block_end: u32, terms: &mut Vec<VoiceTerminated>)
        ensures
            final(self)@.voices == prune_voices_spec(old(self)@.voices),
            final(terms)@ == old(terms)@ + prune_terms(
                old(self)@.voices,
                block_end as int,
                old(self)@.voices.len() as int,
            ),
            final(self)@.gain_min == old(self)@.gain_min,
            final(self)@.gain_max == old(self)@.gain_max,
            final(self)@.gain == old(self)@.gain,
            final(self)@.amp_attack_ms == old(self)@.amp_attack_ms,
            final(self)@.amp_release_ms == old(self)@.amp_release_ms,
            final(self)@.prng == old(self)@.prng,
            final(self)@.next_internal_voice_id == old(self)@.next_internal_voice_id,
    {
        let mut i: usize = 0;
        while i < self.voices.len()
            invariant
                i <= self.voices@.len(),
                self.voices@.len() == old(self)@.voices.len(),
                self.gain_min == old(self).gain_min,
                self.gain_max == old(self).gain_max,
                self.gain == old(self).gain,
                self.amp_attack_ms == old(self).amp_attack_ms,
                self.amp_release_ms == old(self).amp_release_ms,
                self.prng == old(self).prng,
                self.next_internal_voice_id == old(self).next_internal_voice_id,
                terms@ == old(terms)@ + prune_terms(old(self)@.voices, block_end as int, i as int),
                forall|k: int| 0 <= k < i ==> self.voices@[k] == prune_slot(old(self)@.voices[k]),
                forall|k: int|
                    i <= k < self.voices@.len() ==> self.voices@[k] == old(self)@.voices[k],
            decreases self.voices@.len() - i,
        {
            let mut clear: bool = false;
            match &self.voices[i] {
                Option::Some(v) => {
                    if v.releasing && v.amp_envelope.previous_value() == 0 {
                        terms.push(
                            VoiceTerminated {
                                timing: block_end,
                                voice_id: v.voice_id,
                                channel: v.channel,
                                note: v.note,
                            },
                        );
                        clear = true;
                    }
                },
                Option::None => {},
            }
            if clear {
                self.voices.set(i, Option::None);
            }
            proof {
                assert(terms@ =~= old(terms)@ + prune_terms(
                    old(self)@.voices,
                    block_end as int,
                    i as int + 1,
                ));
            }
            i = i + 1;
        }
        proof {
            assert(self.voices@ =~= prune_voices_spec(old(self)@.voices));
        }
    }

    /// Polyphonic modulation of the gain parameter for one voice: the
    /// previewed plain value (clamped into the parameter's range)
    /// becomes the target of the voice's own gain ramp, captured from
    /// the global ramp on first touch. A voice started at this same
    /// boundary (internal id at or above `base_id`) snaps to it.
    pub fn poly_modulation(
        &mut self,
        sample_rate: u32,
        base_id: u64,
        voice_id: i32,
        poly_modulation_id: u32,
        normalized_offset: i64,
    )
        requires
            wf_state(old(self)@),
            1 <= sample_rate <= SR_MAX,
            -ONE <= normalized_offset <= ONE,
        ensures
            final(self)@ == model_poly_mod(
                old(self)@,
                voice_id,
                poly_modulation_id,
                normalized_offset,
                sample_rate as int,
                base_id,
            ),
    {
        if poly_modulation_id != GAIN_POLY_MOD_ID {
            return ;
        }
        match self.get_voice_idx(voice_id) {
            Option::Some(j) => {
                let mut v: Voice = self.voices[j].unwrap();
                proof {
                    crate::fixed::lemma_fx_mul_bound(
                        self.gain.step_size as int,
                        normalized_offset as int,
                        crate::fixed::SBOUND as int,
                        ONE as int,
                    );
                }
                let previewed: i64 = self.gain.preview_modulated(normalized_offset);
                let target: i64 = clamp_i64(previewed, self.gain_min, self.gain_max);
                let mut off0: i64 = normalized_offset;
                let mut sm: Smoother = self.gain;
                match v.voice_gain {
                    Option::Some((o, s)) => {
                        off0 = o;
                        sm = s;
                    },
                    Option::None => {},
                }
                if v.internal_voice_id >= base_id {
                    sm.reset(target);
                } else {
                    sm.set_target(sample_rate, target);
                }
                v.voice_gain = Option::Some((off0, sm));
                self.voices.set(j, Option::Some(v));
            },
            Option::None => {},
        }
    }

    /// Mono automation of the gain parameter: every voice that
    /// carries a captured modulation offset ramps its own gain toward
    /// the automated value shifted by that offset.
    pub fn mono_automation(
        &mut self,
        sample_rate: u32,
        poly_modulation_id: u32,
        normalized_value: i64,
    )
        requires
            wf_state(old(self)@),
            1 <= sample_rate <= SR_MAX,
            -ONE <= normalized_value <= ONE,
        ensures
            final(self)@ == model_mono_auto(
                old(self)@,
                poly_modulation_id,
                normalized_value,
                sample_rate as int,
            ),
    {
        if poly_modulation_id != GAIN_POLY_MOD_ID {
            return ;
        }
        let mut i: usize = 0;
        while i < self.voices.len()
            invariant
                i <= self.voices@.len(),
                self.voices@.len() == old(self)@.voices.len(),
                wf_state(old(self)@),
                1 <= sample_rate <= SR_MAX,
                -ONE <= normalized_value <= ONE,
                self.gain_min == old(self).gain_min,
                self.gain_max == old(self).gain_max,
                self.gain == old(self).gain,
                self.amp_attack_ms == old(self).amp_attack_ms,
                self.amp_release_ms == old(self).amp_release_ms,
                self.prng == old(self).prng,
                self.next_internal_voice_id == old(self).next_internal_voice_id,
                forall|k: int|
                    0 <= k < i ==> self.voices@[k] == match old(self)@.voices[k] {
                        Option::Some(v) => Option::Some(
                            crate::model::mono_auto_voice(
                                old(self)@,
                                v,
                                normalized_value,
                                sample_rate as int,
                            ),
                        ),
                        Option::None => Option::<Voice>::None,
                    },
                forall|k: int|
                    i <= k < self.voices@.len() ==> self.voices@[k] == old(self)@.voices[k],
            decreases self.voices@.len() - i,
        {
            let mut stored: Option<Voice> = self.voices[i];
            match &mut stored {
                Option::Some(v) => {
                    match v.voice_gain {
                        Option::Some((offset, vg_sm)) => {
                            let mut sm: Smoother = vg_sm;
                            let shifted: i64 = normalized_value + offset;
                            let cl: i64 = clamp_i64(shifted, 0, ONE);
                            proof {
                                crate::fixed::lemma_fx_mul_contracts(
                                    self.gain_max as int - self.gain_min as int,
                                    cl as int,
                                    ONE as int,
                                );
                            }
                            let target: i64 = self.gain_min + fx_mul(
                                self.gain_max - self.gain_min,
                                cl,
                            );
                            sm.set_target(sample_rate, target);
                            v.voice_gain = Option::Some((offset, sm));
                            self.voices.set(i, stored);
                        },
                        Option::None => {},
                    }
                },
                Option::None => {},
            }
            i = i + 1;
        }
        proof {
            assert(final(self)@.voices =~= model_mono_auto(
                old(self)@,
                poly_modulation_id,
                normalized_value,
                sample_rate as int,
            ).voices);
        }
    }

    /// Apply one event's immediate effect at a sub-block boundary.
    /// `base_id` is the engine's next internal id as of the start of
    /// the boundary. Events naming an unknown modulation id are
    /// silently ignored.
    pub fn apply_event(
        &mut self,
        e: &NoteEvent,
        sample_rate: u32,
        base_id: u64,
        terms: &mut Vec<VoiceTerminated>,
    )
        requires
            wf_state(old(self)@),
            wf_event_payload(*e),
            1 <= sample_rate <= SR_MAX,
        ensures
            final(self)@ == model_apply_event(old(self)@, *e, sample_rate as int, base_id).st,
            final(terms)@ == old(terms)@ + model_apply_event(
                old(self)@,
                *e,
                sample_rate as int,
                base_id,
            ).terms,
    {
        match *e {
            NoteEvent::NoteOn { timing, voice_id, channel, note, velocity } => {
                let initial_phase: i64 = self.prng.next_phase();
                let mut amp_envelope: Smoother = Smoother::new(
                    SmoothingStyle::Exponential(self.amp_attack_ms),
                );
                amp_envelope.reset(0);
                amp_envelope.set_target(sample_rate, ONE);
                let vid: i32 = match voice_id {
                    Option::Some(id) => id,
                    Option::None => compute_fallback_voice_id(note, channel),
                };
                let new_voice = Voice {
                    voice_id: vid,
                    channel,
                    note,
                    internal_voice_id: self.next_internal_voice_id,
                    velocity_sqrt: fx_sqrt(velocity),
                    phase: initial_phase,
                    phase_delta: note_phase_delta(note, sample_rate),
                    releasing: false,
                    amp_envelope,
                    voice_gain: Option::None,
                };
                self.start_voice(timing, new_voice, terms);
            },
            NoteEvent::NoteOff { timing: _, voice_id, channel, note, velocity: _ } => {
                self.start_release_for_voices(sample_rate, voice_id, channel, note);
                proof {
                    assert(final(terms)@ =~= old(terms)@);
                }
            },
            NoteEvent::Choke { timing, voice_id, channel, note } => {
                self.choke_voices(timing, voice_id, channel, note, terms);
            },
            NoteEvent::PolyModulation {
                timing: _,
                voice_id,
                poly_modulation_id,
                normalized_offset,
            } => {
                self.poly_modulation(
                    sample_rate,
                    base_id,
                    voice_id,
                    poly_modulation_id,
                    normalized_offset,
                );
                proof {
                    assert(final(terms)@ =~= old(terms)@);
                }
            },
            NoteEvent::MonoAutomation { timing: _, poly_modulation_id, normalized_value } => {
                self.mono_automation(sample_rate, poly_modulation_id, normalized_value);
                proof {
                    assert(final(terms)@ =~= old(terms)@);
                }
            },
        }
    }

    /// Render one sub-block of `len` samples into `out[s .. s+len]`:
    /// the range is zeroed, the global gain ramp renders one block,
    /// and every live voice accumulates its samples into it. Scratch
    /// buffers hold the per-block ramp values.
    pub fn render_span(
        &mut self,
        out: &mut Vec<i64>,
        s: usize,
        len: usize,
        gain_buf: &mut Vec<i64>,
        vg_buf: &mut Vec<i64>,
        env_buf: &mut Vec<i64>,
    )
        requires
            wf_state(old(self)@),
            1 <= len <= MAX_BLOCK,
            s + len <= old(out).len(),
            old(gain_buf).len() >= MAX_BLOCK,
            old(vg_buf).len() >= MAX_BLOCK,
            old(env_buf).len() >= MAX_BLOCK,
        ensures
            final(self)@ == span_state(old(self)@, len as nat),
            wf_state(final(self)@),
            final(out).len() == old(out).len(),
            forall|k: int|
                0 <= k < len ==> #[trigger] final(out)[s + k] == span_sum(
                    old(self)@.voices,
                    old(self)@.gain,
                    NUM_VOICES as int,
                    k as nat,
                ) as i64,
            forall|j: int|
                0 <= j < final(out).len() && !(s <= j < s + len) ==> #[trigger] final(out)[j]
                    == old(out)[j],
            final(gain_buf).len() == old(gain_buf).len(),
            final(vg_buf).len() == old(vg_buf).len(),
            final(env_buf).len() == old(env_buf).len(),
    {
        let ghost gv0 = old(self)@.voices;
        let ghost gg0 = old(self)@.gain;
        let mut z: usize = 0;
        while z < len
            invariant
                z <= len,
                s + len <= out.len(),
                out.len() == old(out).len(),
                forall|kk: int| 0 <= kk < z ==> #[trigger] out[s + kk] == 0,
                forall|j: int|
                    0 <= j < out.len() && !(s <= j < s + z) ==> #[trigger] out[j] == old(out)[j],
            decreases len - z,
        {
            out.set(s + z, 0);
            z = z + 1;
        }
        self.gain.next_block(gain_buf, len);
        let mut vi: usize = 0;
        while vi < NUM_VOICES
            invariant
                vi <= NUM_VOICES,
                wf_state(old(self)@),
                gv0 == old(self)@.voices,
                gg0 == old(self)@.gain,
                1 <= len <= MAX_BLOCK,
                s + len <= out.len(),
                out.len() == old(out).len(),
                self.voices@.len() == NUM_VOICES,
                self.gain == crate::smoother::sm_after(gg0, len as nat),
                self.gain_min == old(self).gain_min,
                self.gain_max == old(self).gain_max,
                self.amp_attack_ms == old(self).amp_attack_ms,
                self.amp_release_ms == old(self).amp_release_ms,
                self.prng == old(self).prng,
                self.next_internal_voice_id == old(self).next_internal_voice_id,
                gain_buf.len() == old(gain_buf).len(),
                vg_buf.len() == old(vg_buf).len(),
                env_buf.len() == old(env_buf).len(),
                old(gain_buf).len() >= MAX_BLOCK,
                old(vg_buf).len() >= MAX_BLOCK,
                old(env_buf).len() >= MAX_BLOCK,
                forall|kk: int|
                    0 <= kk < len ==> #[trigger] gain_buf[kk] == crate::smoother::sm_sample(
                        gg0,
                        kk as nat,
                    ),
                forall|j: int|
                    0 <= j < vi ==> #[trigger] self.voices@[j] == crate::model::opt_after(
                        gv0[j],
                        len as nat,
                    ),
                forall|j: int| vi <= j < NUM_VOICES ==> #[trigger] self.voices@[j] == gv0[j],
                forall|kk: int|
                    0 <= kk < len ==> #[trigger] out[s + kk] == span_sum(
                        gv0,
                        gg0,
                        vi as int,
                        kk as nat,
                    ) as i64,
                forall|j: int|
                    0 <= j < out.len() && !(s <= j < s + len) ==> #[trigger] out[j] == old(
                        out,
                    )[j],
            decreases NUM_VOICES - vi,
        {
            let ov: Option<Voice> = self.voices[vi];
            match ov {
                Option::Some(voice_start) => {
                    let ghost v0 = voice_start;
                    proof {
                        assert(gv0[vi as int] matches Option::Some(w) && w == v0);
                        assert(wf_voice(v0));
                    }
                    let mut v: Voice = voice_start;
                    let mut own: bool = false;
                    match v.voice_gain {
                        Option::Some((off, vg_sm)) => {
                            let mut sm: Smoother = vg_sm;
                            sm.next_block(vg_buf, len);
                            v.voice_gain = Option::Some((off, sm));
                            own = true;
                        },
                        Option::None => {},
                    }
                    let mut env: Smoother = v.amp_envelope;
                    env.next_block(env_buf, len);
                    v.amp_envelope = env;
                    let mut k: usize = 0;
                    while k < len
                        invariant
                            k <= len,
                            wf_state(old(self)@),
                            wf_voice(v0),
                            gv0 == old(self)@.voices,
                            gg0 == old(self)@.gain,
                            gv0.len() == NUM_VOICES,
                            gv0[vi as int] == Option::Some(v0),
                            vi < NUM_VOICES,
                            1 <= len <= MAX_BLOCK,
                            s + len <= out.len(),
                            out.len() == old(out).len(),
                            v.phase == crate::model::voice_after(v0, k as nat).phase,
                            v.amp_envelope == crate::smoother::sm_after(v0.amp_envelope, len as nat),
                            v.voice_gain == match v0.voice_gain {
                                Option::Some((o, sg)) => Option::Some(
                                    (o, crate::smoother::sm_after(sg, len as nat)),
                                ),
                                Option::None => Option::<(i64, Smoother)>::None,
                            },
                            v.voice_id == v0.voice_id,
                            v.channel == v0.channel,
                            v.note == v0.note,
                            v.internal_voice_id == v0.internal_voice_id,
                            v.velocity_sqrt == v0.velocity_sqrt,
                            v.phase_delta == v0.phase_delta,
                            v.releasing == v0.releasing,
                            own == (v0.voice_gain is Some),
                            gain_buf.len() >= MAX_BLOCK,
                            vg_buf.len() >= MAX_BLOCK,
                            env_buf.len() >= MAX_BLOCK,
                            forall|kk: int|
                                0 <= kk < len ==> #[trigger] gain_buf[kk]
                                    == crate::smoother::sm_sample(gg0, kk as nat),
                            forall|kk: int|
                                0 <= kk < len ==> #[trigger] env_buf[kk]
                                    == crate::smoother::sm_sample(v0.amp_envelope, kk as nat),
                            own ==> forall|kk: int|
                                0 <= kk < len ==> #[trigger] vg_buf[kk]
                                    == crate::smoother::sm_sample(
                                    v0.voice_gain->Some_0.1,
                                    kk as nat,
                                ),
                            forall|kk: int|
                                0 <= kk < k ==> #[trigger] out[s + kk] == span_sum(
                                    gv0,
                                    gg0,
                                    vi as int + 1,
                                    kk as nat,
                                ) as i64,
                            forall|kk: int|
                                k <= kk < len ==> #[trigger] out[s + kk] == span_sum(
                                    gv0,
                                    gg0,
                                    vi as int,
                                    kk as nat,
                                ) as i64,
                            forall|j: int|
                                0 <= j < out.len() && !(s <= j < s + len) ==> #[trigger] out[j]
                                    == old(out)[j],
                        decreases len - k,
                    {
                        let ghost kk = k as nat;
                        let ghost va = crate::model::voice_after(v0, kk);
                        let ghost mapped = gv0.map_values(
                            |ovv: Option<Voice>| crate::model::opt_after(ovv, kk),
                        );
                        proof {
                            crate::wf::lemma_wf_voice_after(v0, kk);
                            crate::wf::lemma_voice_after_fields(v0, kk);
                            crate::wf::lemma_wf_sm01_after(gg0, kk);
                            crate::wf::lemma_wf_sm01_after(v0.amp_envelope, kk);
                            match v0.voice_gain {
                                Option::Some((o, sg)) => {
                                    crate::wf::lemma_wf_sm01_after(sg, kk);
                                },
                                Option::None => {},
                            }
                            assert forall|j: int| 0 <= j < mapped.len() implies (
                            #[trigger] mapped[j] matches Option::Some(w) ==> wf_voice(w)) by {
                                match gv0[j] {
                                    Option::Some(wv) => {
                                        crate::wf::lemma_wf_voice_after(wv, kk);
                                        assert(mapped[j] == crate::model::opt_after(gv0[j], kk));
                                    },
                                    Option::None => {},
                                }
                            }
                            crate::wf::lemma_slots_sum_bound(
                                mapped,
                                crate::smoother::sm_sample(gg0, kk),
                                vi as int,
                            );
                            assert(mapped[vi as int] == crate::model::opt_after(gv0[vi as int], kk));
                        }
                        let gv: i64 = if own {
                            vg_buf[k]
                        } else {
                            gain_buf[k]
                        };
                        proof {
                            assert(0 <= gv <= ONE);
                            crate::fixed::lemma_fx_mul_contracts(
                                v.velocity_sqrt as int,
                                gv as int,
                                ONE as int,
                            );
                        }
                        let a1: i64 = fx_mul(v.velocity_sqrt, gv);
                        proof {
                            crate::fixed::lemma_fx_mul_contracts(
                                a1 as int,
                                env_buf[k as int] as int,
                                ONE as int,
                            );
                        }
                        let amp: i64 = fx_mul(a1, env_buf[k]);
                        let tri: i64 = triangle_wave(v.phase);
                        proof {
                            crate::fixed::lemma_fx_mul_contracts(tri as int, amp as int, ONE as int);
                        }
                        let sample: i64 = fx_mul(tri, amp);
                        proof {
                            assert(sample == crate::model::voice_sample_of(
                                Option::Some(va),
                                crate::smoother::sm_sample(gg0, kk),
                            ));
                            assert(span_sum(gv0, gg0, vi as int + 1, kk) == span_sum(
                                gv0,
                                gg0,
                                vi as int,
                                kk,
                            ) + crate::model::voice_sample_of(
                                Option::Some(va),
                                crate::smoother::sm_sample(gg0, kk),
                            ));
                            assert(-(vi as int) * ONE <= span_sum(gv0, gg0, vi as int, kk) <= (
                            vi as int) * ONE);
                            assert((vi as int) * ONE <= 16 * ONE) by (nonlinear_arith)
                                requires
                                    0 <= vi <= 16,
                            ;
                            assert(-(vi as int) * ONE >= -(16 * ONE)) by (nonlinear_arith)
                                requires
                                    0 <= vi <= 16,
                            ;
                        }
                        let cur: i64 = out[s + k];
                        out.set(s + k, cur + sample);
                        proof {
                            assert(crate::model::voice_after(v0, (k + 1) as nat)
                                == crate::model::voice_advance(va));
                        }
                        v.phase = advance_phase(v.phase, v.phase_delta);
                        k = k + 1;
                    }
                    self.voices.set(vi, Option::Some(v));
                    proof {
                        crate::wf::lemma_voice_after_fields(v0, len as nat);
                        assert(Option::Some(v) == crate::model::opt_after(
                            gv0[vi as int],
                            len as nat,
                        ));
                    }
                },
                Option::None => {
                    proof {
                        assert forall|kk: int| 0 <= kk < len implies #[trigger] span_sum(
                            gv0,
                            gg0,
                            vi as int + 1,
                            kk as nat,
                        ) == span_sum(gv0, gg0, vi as int, kk as nat) by {
                            let mapped = gv0.map_values(
                                |ovv: Option<Voice>| crate::model::opt_after(ovv, kk as nat),
                            );
                            assert(mapped[vi as int] == crate::model::opt_after(
                                gv0[vi as int],
                                kk as nat,
                            ));
                            assert(crate::model::voice_sample_of(
                                mapped[vi as int],
                                crate::smoother::sm_sample(gg0, kk as nat),
                            ) == 0);
                        }
                    }
                },
            }
            vi = vi + 1;
        }
        proof {
            assert(final(self)@.voices =~= span_state(old(self)@, len as nat).voices);
            crate::wf::lemma_wf_span_state(old(self)@, len as nat);
        }
    }

    /// Consume the events due at sample `s`, render the sub-block
    /// that starts there, and prune. Returns the sub-block's end and
    /// the index of the first unconsumed event.
    #[verifier::rlimit(100)]
    pub fn run_sub_block(
        &mut self,
        events: &Vec<NoteEvent>,
        i0: usize,
        s: usize,
        num_samples: usize,
        sample_rate: u32,
        out: &mut Vec<i64>,
        terms: &mut Vec<VoiceTerminated>,
        gain_buf: &mut Vec<i64>,
        vg_buf: &mut Vec<i64>,
        env_buf: &mut Vec<i64>,
    ) -> (r: (usize, usize))
        requires
            wf_state(old(self)@),
            wf_events(events@, num_samples as int),
            sorted_by_timing(events@),
            1 <= sample_rate <= SR_MAX,
            s < num_samples <= 0x10000000,
            i0 <= events@.len(),
            old(out).len() == num_samples,
            old(gain_buf).len() == MAX_BLOCK,
            old(vg_buf).len() == MAX_BLOCK,
            old(env_buf).len() == MAX_BLOCK,
        ensures
            ({
                let n = num_samples as int;
                let sr = sample_rate as int;
                let c = model_consume(
                    old(self)@,
                    events@,
                    i0 as int,
                    s as int,
                    sr,
                    old(self)@.next_internal_voice_id,
                );
                let e = crate::model::block_end_spec(
                    events@,
                    c.next,
                    s as int,
                    n,
                    MAX_BLOCK as int,
                );
                let len = (e - s) as nat;
                let p = crate::model::model_prune(span_state(c.st, len), e);
                &&& r.0 == e
                &&& r.1 == c.next
                &&& s < r.0 <= num_samples
                &&& i0 <= r.1 <= events@.len()
                &&& final(self)@ == p.st
                &&& wf_state(final(self)@)
                &&& final(out).len() == old(out).len()
                &&& (forall|k: int|
                    0 <= k < len ==> #[trigger] final(out)[s + k] == span_sum(
                        c.st.voices,
                        c.st.gain,
                        NUM_VOICES as int,
                        k as nat,
                    ) as i64)
                &&& (forall|j: int|
                    0 <= j < final(out).len() && !(s <= j < e) ==> #[trigger] final(out)[j]
                        == old(out)[j])
                &&& final(terms)@ == old(terms)@ + c.terms + p.terms
                &&& final(gain_buf).len() == MAX_BLOCK
                &&& final(vg_buf).len() == MAX_BLOCK
                &&& final(env_buf).len() == MAX_BLOCK
            }),
    {
        let ghost n = num_samples as int;
        let ghost sr = sample_rate as int;
        let ghost st_top = self@;
        let ghost terms_top = terms@;
        let base_id: u64 = self.next_internal_voice_id;
        let ghost c_total = model_consume(st_top, events@, i0 as int, s as int, sr, base_id);
        let mut i: usize = i0;
        while i < events.len() && events[i].timing() as usize <= s
            invariant
                i0 <= i <= events@.len(),
                s < num_samples,
                num_samples <= 0x10000000,
                1 <= sample_rate <= SR_MAX,
                n == num_samples as int,
                sr == sample_rate as int,
                wf_events(events@, n),
                wf_state(self@),
                terms_top.len() <= terms@.len(),
                terms@.len() - terms_top.len() <= c_total.terms.len(),
                c_total == model_consume(st_top, events@, i0 as int, s as int, sr, base_id),
                c_total.st == model_consume(self@, events@, i as int, s as int, sr, base_id).st,
                c_total.next == model_consume(
                    self@,
                    events@,
                    i as int,
                    s as int,
                    sr,
                    base_id,
                ).next,
                terms@ == terms_top + c_total.terms.take(terms@.len() - terms_top.len()),
                model_consume(self@, events@, i as int, s as int, sr, base_id).terms
                    == c_total.terms.skip(terms@.len() - terms_top.len()),
            decreases events@.len() - i,
        {
            let ghost st_cur = self@;
            let ghost d = terms@.len() - terms_top.len();
            let ghost a = model_apply_event(st_cur, events@[i as int], sr, base_id);
            proof {
                crate::wf::lemma_wf_apply_event(st_cur, events@[i as int], sr, base_id);
                crate::wf::lemma_seq_shift(
                    c_total.terms,
                    d,
                    a.terms,
                    model_consume(a.st, events@, i as int + 1, s as int, sr, base_id).terms,
                );
            }
            self.apply_event(&events[i], sample_rate, base_id, terms);
            i = i + 1;
        }
        proof {
            assert(model_consume(self@, events@, i as int, s as int, sr, base_id).terms
                =~= Seq::<VoiceTerminated>::empty());
            assert(c_total.terms.skip(terms@.len() - terms_top.len()).len() == 0);
            assert(c_total.terms.take(terms@.len() - terms_top.len()) =~= c_total.terms);
            assert(c_total.st == self@);
            assert(c_total.next == i as int);
            assert(terms@ == terms_top + c_total.terms);
        }
        let mut e: usize = if s + MAX_BLOCK <= num_samples {
            s + MAX_BLOCK
        } else {
            num_samples
        };
        if i < events.len() {
            let t: u32 = events[i].timing();
            if (t as usize) < e {
                e = t as usize;
            }
        }
        proof {
            assert(e as int == crate::model::block_end_spec(
                events@,
                i as int,
                s as int,
                n,
                MAX_BLOCK as int,
            ));
        }
        let len: usize = e - s;
        let ghost st_consumed = self@;
        self.render_span(out, s, len, gain_buf, vg_buf, env_buf);
        let ghost terms_rendered = terms@;
        self.prune(e as u32, terms);
        proof {
            let spanned = crate::model::span_state(st_consumed, len as nat);
            let p = crate::model::model_prune(spanned, e as int);
            assert(self@ == p.st);
            assert(final(terms)@ =~= old(terms)@ + c_total.terms + p.terms);
        }
        (e, i)
    }

    /// Render one host block: split it into event-aligned sub-blocks
    /// of at most `MAX_BLOCK` samples, consuming each event exactly at
    /// its sample offset, rendering every live voice, and pruning
    /// decayed voices at each sub-block's end. Returns the rendered
    /// samples and the voice terminations, exactly as the functional
    /// model `model_run` describes them.
    #[verifier::rlimit(100)]
    pub fn process(
        &mut self,
        events: &Vec<NoteEvent>,
        num_samples: usize,
        sample_rate: u32,
    ) -> (r: (Vec<i64>, Vec<VoiceTerminated>))
        requires
            wf_state(old(self)@),
            wf_events(events@, num_samples as int),
            sorted_by_timing(events@),
            1 <= sample_rate <= SR_MAX,
            num_samples <= 0x10000000,
        ensures
            final(self)@ == model_run(
                old(self)@,
                events@,
                0,
                0,
                num_samples as int,
                sample_rate as int,
                MAX_BLOCK as int,
            ).st,
            wf_state(final(self)@),
            r.0@ == model_run(
                old(self)@,
                events@,
                0,
                0,
                num_samples as int,
                sample_rate as int,
                MAX_BLOCK as int,
            ).out,
            r.1@ == model_run(
                old(self)@,
                events@,
                0,
                0,
                num_samples as int,
                sample_rate as int,
                MAX_BLOCK as int,
            ).terms,
            r.0@.len() == num_samples,
    {
        let ghost n = num_samples as int;
        let ghost sr = sample_rate as int;
        let ghost mb = MAX_BLOCK as int;
        let ghost m_total = model_run(old(self)@, events@, 0, 0, n, sr, mb);
        let mut out: Vec<i64> = zeros(num_samples);
        let mut terms: Vec<VoiceTerminated> = Vec::new();
        let mut gain_buf: Vec<i64> = zeros(MAX_BLOCK);
        let mut vg_buf: Vec<i64> = zeros(MAX_BLOCK);
        let mut env_buf: Vec<i64> = zeros(MAX_BLOCK);
        let mut i: usize = 0;
        let mut s: usize = 0;
        while s < num_samples
            invariant
                s <= num_samples,
                i <= events@.len(),
                num_samples <= 0x10000000,
                1 <= sample_rate <= SR_MAX,
                n == num_samples as int,
                sr == sample_rate as int,
                mb == MAX_BLOCK as int,
                wf_events(events@, n),
                sorted_by_timing(events@),
                wf_state(self@),
                m_total == model_run(old(self)@, events@, 0, 0, n, sr, mb),
                out@.len() == num_samples,
                gain_buf@.len() == MAX_BLOCK,
                vg_buf@.len() == MAX_BLOCK,
                env_buf@.len() == MAX_BLOCK,
                m_total.st == model_run(self@, events@, i as int, s as int, n, sr, mb).st,
                m_total.out == out@.take(s as int) + model_run(
                    self@,
                    events@,
                    i as int,
                    s as int,
                    n,
                    sr,
                    mb,
                ).out,
                m_total.terms == terms@ + model_run(
                    self@,
                    events@,
                    i as int,
                    s as int,
                    n,
                    sr,
                    mb,
                ).terms,
            decreases num_samples - s,
        {
            let ghost st_top = self@;
            let ghost i_top = i as int;
            let ghost out_top = out@;
            let ghost c = model_consume(
                st_top,
                events@,
                i_top,
                s as int,
                sr,
                st_top.next_internal_voice_id,
            );
            let res: (usize, usize) = self.run_sub_block(
                events,
                i,
                s,
                num_samples,
                sample_rate,
                &mut out,
                &mut terms,
                &mut gain_buf,
                &mut vg_buf,
                &mut env_buf,
            );
            let e: usize = res.0;
            proof {
                crate::wf::lemma_model_run_unfold(st_top, events@, i_top, s as int, n, sr, mb);
                let len = (e as int - s as int) as nat;
                let outs = Seq::new(
                    len,
                    |k: int| span_sum(c.st.voices, c.st.gain, NUM_VOICES as int, k as nat) as i64,
                );
                let p = crate::model::model_prune(span_state(c.st, len), e as int);
                let rest = model_run(self@, events@, res.1 as int, e as int, n, sr, mb);
                assert forall|j: int| 0 <= j < e implies out@.take(e as int)[j] == (out_top.take(
                    s as int,
                ) + outs)[j] by {
                    if j < s {
                        assert(out@[j] == out_top[j]);
                    } else {
                        let k = j - s;
                        assert(out@[s + k] == outs[k]);
                    }
                }
                assert(out@.take(e as int) =~= out_top.take(s as int) + outs);
                assert(out_top.take(s as int) + (outs + rest.out) =~= (out_top.take(s as int)
                    + outs) + rest.out);
                assert(m_total.out == out@.take(e as int) + rest.out);
                assert(terms@ + rest.terms =~= m_total.terms);
            }
            i = res.1;
            s = e;
        }
        proof {
            crate::wf::lemma_model_run_out_len(old(self)@, events@, 0, 0, n, sr, mb);
            assert(model_run(self@, events@, i as int, s as int, n, sr, mb).out
                =~= Seq::<i64>::empty());
            assert(model_run(self@, events@, i as int, s as int, n, sr, mb).terms
                =~= Seq::<VoiceTerminated>::empty());
            assert(out@.take(s as int) =~= out@);
            assert(m_total.out =~= out@);
            assert(m_total.terms =~= terms@);
        }
        (out, terms)
    }
}

/// A vector of `n` zero samples.
fn zeros(n: usize) -> (r: Vec<i64>)
    ensures
        r@.len() == n,
        forall|k: int| 0 <= k < n ==> #[trigger] r@[k] == 0,
{
    let mut v: Vec<i64> = Vec::new();
    let mut j: usize = 0;
    while j < n
        invariant
            j <= n,
            v@.len() == j,
            forall|k: int| 0 <= k < j ==> #[trigger] v@[k] == 0,
        decreases n - j,
    {
        v.push(0);
        j = j + 1;
    }
    v
}

} // verus!
