//! The pool's and scheduler's stated laws, proved over the model.
//!
//! The scheduler's own law — sub-block output equals the per-sample
//! reference — lives in `equiv`; the smoother's flat-after-reset law
//! lives beside the smoother.

use vstd::prelude::*;

use crate::event::VoiceTerminated;
use crate::model::EngineState;
use crate::model::NUM_VOICES;
use crate::model::alloc_voices;
use crate::model::first_free;
use crate::model::first_match;
use crate::model::model_choke;
use crate::model::model_prune;
use crate::model::model_release;
use crate::model::oldest_idx;
use crate::model::prune_slot;
use crate::model::prune_terms;
use crate::model::slot_internal_id;
use crate::model::wf_state;
use crate::smoother::SR_MAX;
use crate::smoother::steps_for;
use crate::voice::Voice;
use crate::voice::prunable;

verus! {

/// Number of live voices among the first `i` slots.
pub open spec fn live_count(voices: Seq<Option<Voice>>, i: int) -> int
    decreases i,
{
    if i <= 0 {
        0
    } else {
        live_count(voices, i - 1) + if voices[i - 1] is Some {
            1int
        } else {
            0int
        }
    }
}

/// The pool never holds more than `NUM_VOICES` live voices: the count
/// of live slots is bounded by the fixed slot count.
pub proof fn lemma_pool_capacity(st: EngineState)
    requires
        wf_state(st),
    ensures
        live_count(st.voices, st.voices.len() as int) <= NUM_VOICES as int,
{
    lemma_live_count_le(st.voices, st.voices.len() as int);
}

pub proof fn lemma_live_count_le(voices: Seq<Option<Voice>>, i: int)
    requires
        0 <= i,
    ensures
        0 <= live_count(voices, i) <= i,
    decreases i,
{
    if i > 0 {
        lemma_live_count_le(voices, i - 1);
    }
}

/// Without a free slot, every slot is live.
pub proof fn lemma_first_free_none(voices: Seq<Option<Voice>>, i: int)
    requires
        first_free(voices, i) is None,
        0 <= i,
    ensures
        forall|k: int| i <= k < voices.len() ==> voices[k] is Some,
    decreases voices.len() - i,
{
    if i < voices.len() {
        lemma_first_free_none(voices, i + 1);
    }
}

/// The chosen slot holds the smallest internal id among slots at or
/// after `i`, and is the first slot that attains it.
pub proof fn lemma_oldest_idx_min(voices: Seq<Option<Voice>>, i: int)
    requires
        0 <= i < voices.len(),
    ensures
        i <= oldest_idx(voices, i) < voices.len(),
        forall|k: int|
            i <= k < voices.len() ==> slot_internal_id(voices[oldest_idx(voices, i)])
                <= slot_internal_id(#[trigger] voices[k]),
        forall|k: int|
            i <= k < oldest_idx(voices, i) ==> slot_internal_id(#[trigger] voices[k])
                > slot_internal_id(voices[oldest_idx(voices, i)]),
    decreases voices.len() - i,
{
    if i < voices.len() - 1 {
        lemma_oldest_idx_min(voices, i + 1);
    }
}

/// Allocating into a full pool evicts exactly the voice with the
/// smallest internal id — the first such slot — and reports its
/// termination; the terminated voice is reported during event
/// consumption, before the new voice contributes a single sample.
pub proof fn lemma_steal_evicts_oldest(voices: Seq<Option<Voice>>, timing: u32, v: Voice)
    requires
        voices.len() == NUM_VOICES,
        first_free(voices, 0) is None,
    ensures
        ({
            let j = oldest_idx(voices, 0);
            let stolen = voices[j]->Some_0;
            &&& 0 <= j < voices.len()
            &&& alloc_voices(voices, timing, v).0 == voices.update(j, Option::Some(v))
            &&& alloc_voices(voices, timing, v).1 == seq![
                VoiceTerminated {
                    timing,
                    voice_id: stolen.voice_id,
                    channel: stolen.channel,
                    note: stolen.note,
                },
            ]
            &&& forall|k: int|
                0 <= k < voices.len() ==> slot_internal_id(voices[j]) <= slot_internal_id(
                    #[trigger] voices[k],
                )
            &&& forall|k: int|
                0 <= k < j ==> slot_internal_id(#[trigger] voices[k]) > slot_internal_id(
                    voices[j],
                )
        }),
{
    lemma_oldest_idx_min(voices, 0);
}

/// Pruning removes exactly the released voices whose last rendered
/// envelope sample was zero, leaves every other slot untouched, and
/// reports each removal stamped with the sub-block's end — in the
/// same sub-block the voice reached silence, never later.
pub proof fn lemma_prune_exact(st: EngineState, t: int)
    ensures
        forall|j: int|
            0 <= j < st.voices.len() ==> #[trigger] model_prune(st, t).st.voices[j] == match st
                .voices[j] {
                Option::Some(v) => if prunable(v) {
                    Option::<Voice>::None
                } else {
                    Option::Some(v)
                },
                Option::None => Option::<Voice>::None,
            },
        forall|j: int|
            0 <= j < st.voices.len() && (#[trigger] st.voices[j] matches Option::Some(v)
                && prunable(v)) ==> model_prune(st, t).terms.contains(
                VoiceTerminated {
                    timing: t as u32,
                    voice_id: st.voices[j]->Some_0.voice_id,
                    channel: st.voices[j]->Some_0.channel,
                    note: st.voices[j]->Some_0.note,
                },
            ),
{
    assert forall|j: int| 0 <= j < st.voices.len() implies #[trigger] model_prune(
        st,
        t,
    ).st.voices[j] == match st.voices[j] {
        Option::Some(v) => if prunable(v) {
            Option::<Voice>::None
        } else {
            Option::Some(v)
        },
        Option::None => Option::<Voice>::None,
    } by {
        assert(model_prune(st, t).st.voices[j] == prune_slot(st.voices[j]));
    }
    assert forall|j: int|
        0 <= j < st.voices.len() && (#[trigger] st.voices[j] matches Option::Some(v) && prunable(
            v,
        )) implies model_prune(st, t).terms.contains(
        VoiceTerminated {
            timing: t as u32,
            voice_id: st.voices[j]->Some_0.voice_id,
            channel: st.voices[j]->Some_0.channel,
            note: st.voices[j]->Some_0.note,
        },
    ) by {
        lemma_prune_terms_contains(st.voices, t, st.voices.len() as int, j);
    }
}

pub proof fn lemma_prune_terms_contains(voices: Seq<Option<Voice>>, t: int, i: int, j: int)
    requires
        0 <= j < i <= voices.len(),
        voices[j] is Some,
        prunable(voices[j]->Some_0),
    ensures
        prune_terms(voices, t, i).contains(
            VoiceTerminated {
                timing: t as u32,
                voice_id: voices[j]->Some_0.voice_id,
                channel: voices[j]->Some_0.channel,
                note: voices[j]->Some_0.note,
            },
        ),
    decreases i,
{
    let vt = VoiceTerminated {
        timing: t as u32,
        voice_id: voices[j]->Some_0.voice_id,
        channel: voices[j]->Some_0.channel,
        note: voices[j]->Some_0.note,
    };
    if j == i - 1 {
        assert(prune_terms(voices, t, i) == prune_terms(voices, t, i - 1) + seq![vt]);
        assert(prune_terms(voices, t, i)[prune_terms(voices, t, i).len() - 1] == vt);
    } else {
        lemma_prune_terms_contains(voices, t, i - 1, j);
        let pre = prune_terms(voices, t, i - 1);
        let m = choose|m: int| 0 <= m < pre.len() && pre[m] == vt;
        assert(prune_terms(voices, t, i)[m] == vt);
    }
}

/// Choke against release: a choke clears the matched slot at once,
/// with no ramp at all — the other slots and their envelopes are
/// untouched — while a release keeps the slot occupied and starts a
/// decay that still renders the envelope's current value at the next
/// sample and only then ramps toward zero.
pub proof fn lemma_choke_vs_release(
    st: EngineState,
    timing: u32,
    voice_id: Option<i32>,
    channel: u8,
    note: u8,
    sample_rate: int,
)
    requires
        wf_state(st),
        1 <= sample_rate <= SR_MAX as int,
        voice_id is Some,
        first_match(st.voices, voice_id, channel, note, 0) is Some,
        st.voices[first_match(st.voices, voice_id, channel, note, 0)->Some_0]->Some_0
            .amp_envelope.target != 0,
        steps_for(sample_rate, st.amp_release_ms as int) >= 1,
    ensures
        ({
            let j = first_match(st.voices, voice_id, channel, note, 0)->Some_0;
            let v = st.voices[j]->Some_0;
            let choked = model_choke(st, timing, voice_id, channel, note);
            let released = model_release(st, voice_id, channel, note, sample_rate);
            // choke: the slot is cleared immediately and reported
            &&& choked.st.voices[j] is None
            &&& choked.terms == seq![
                VoiceTerminated { timing, voice_id: v.voice_id, channel, note },
            ]
            &&& forall|k: int|
                0 <= k < st.voices.len() && k != j ==> #[trigger] choked.st.voices[k]
                    == st.voices[k]
            // release: the slot stays occupied, the envelope still
            // holds its value and aims at zero over at least one step
            &&& released.voices[j] is Some
            &&& released.voices[j]->Some_0.releasing
            &&& released.voices[j]->Some_0.amp_envelope.value == v.amp_envelope.value
            &&& released.voices[j]->Some_0.amp_envelope.target == 0
            &&& released.voices[j]->Some_0.amp_envelope.steps_left >= 1
            &&& forall|k: int|
                0 <= k < st.voices.len() && k != j ==> #[trigger] released.voices[k]
                    == st.voices[k]
        }),
{
    crate::wf::lemma_first_match_in_range(st.voices, voice_id, channel, note, 0);
    let j = first_match(st.voices, voice_id, channel, note, 0)->Some_0;
    let v = st.voices[j]->Some_0;
    let env1 = crate::smoother::Smoother {
        style: crate::smoother::SmoothingStyle::Exponential(st.amp_release_ms),
        ..v.amp_envelope
    };
    assert(crate::smoother::style_time(env1.style) == st.amp_release_ms as int);
    let steps = steps_for(sample_rate, st.amp_release_ms as int);
    assert(steps < 0x100000000) by (nonlinear_arith)
        requires
            steps == (sample_rate * (st.amp_release_ms as int) + 500 * crate::fixed::ONE as int) / (
            1000 * crate::fixed::ONE as int),
            1 <= sample_rate <= 1000000,
            0 <= st.amp_release_ms <= crate::fixed::BOUND,
            crate::fixed::ONE == 65536i64,
            SR_MAX == 1000000u32,
    ;
}

} // verus!
