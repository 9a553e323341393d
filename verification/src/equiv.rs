//! The scheduler's central law: splitting a block into sub-blocks of
//! any maximum length yields output bit-identical to the per-sample
//! reference renderer (`model_run` with a maximum length of one). The
//! cap only amortizes per-sub-block costs; it never changes which
//! sample an event takes effect on.
//!
//! The proof couples the two runs between event boundaries: the only
//! difference in flight is a voice that has decayed to silence and
//! that the per-sample run has already pruned. Such a voice renders
//! exact zeros and stays silent, so outputs agree, and the sub-block
//! run prunes it at the next boundary, where the states coincide
//! again before any event applies.

use vstd::prelude::*;

use crate::event::NoteEvent;
use crate::event::event_timing;
use crate::event::sorted_by_timing;
use crate::event::wf_event_payload;
use crate::fixed::lemma_fx_mul_zero;
use crate::model::EngineState;
use crate::model::NUM_VOICES;
use crate::model::block_end_spec;
use crate::model::model_consume;
use crate::model::model_prune;
use crate::model::model_run;
use crate::model::opt_after;
use crate::model::prune_slot;
use crate::model::prune_voices_spec;
use crate::model::slots_sum;
use crate::model::span_state;
use crate::model::span_sum;
use crate::model::voice_advance;
use crate::model::voice_after;
use crate::model::voice_sample_of;
use crate::model::wf_state;
use crate::smoother::SR_MAX;
use crate::smoother::lemma_sm_after_add;
use crate::smoother::sm_after;
use crate::smoother::sm_sample;
use crate::voice::Voice;
use crate::voice::prunable;
use crate::voice::silent;
use crate::voice::wf_voice;
use crate::wf::lemma_wf_consume;
use crate::wf::lemma_wf_voice_after;

verus! {

/// Every slot advanced `k` samples.
pub open spec fn advmap(voices: Seq<Option<Voice>>, k: nat) -> Seq<Option<Voice>> {
    voices.map_values(|ov: Option<Voice>| opt_after(ov, k))
}

/// The per-sample run's state `k` samples into a sub-block that
/// started, just after event consumption, in state `cst`.
pub open spec fn unit_state(cst: EngineState, k: nat) -> EngineState {
    EngineState {
        voices: if k == 0 {
            cst.voices
        } else {
            prune_voices_spec(advmap(cst.voices, k))
        },
        gain: sm_after(cst.gain, k),
        ..cst
    }
}

/// Advancing composes.
pub proof fn lemma_voice_after_add(v: Voice, a: nat, b: nat)
    ensures
        voice_after(v, a + b) == voice_after(voice_after(v, a), b),
    decreases b,
{
    if b > 0 {
        lemma_voice_after_add(v, a, (b - 1) as nat);
        assert(a + b - 1 == a + (b - 1) as nat);
    }
}

pub proof fn lemma_advmap_add(voices: Seq<Option<Voice>>, a: nat, b: nat)
    ensures
        advmap(voices, a + b) == advmap(advmap(voices, a), b),
{
    assert forall|j: int| 0 <= j < voices.len() implies advmap(voices, a + b)[j] == advmap(
        advmap(voices, a),
        b,
    )[j] by {
        match voices[j] {
            Option::Some(v) => {
                lemma_voice_after_add(v, a, b);
            },
            Option::None => {},
        }
    }
    assert(advmap(voices, a + b) =~= advmap(advmap(voices, a), b));
}

/// A silent voice stays silent when advanced, and becomes prunable.
pub proof fn lemma_silent_advance(v: Voice)
    requires
        silent(v),
    ensures
        silent(voice_advance(v)),
        prunable(voice_advance(v)),
{
}

/// After an advanced sample, a prunable voice is already silent: its
/// last rendered sample was zero, so its envelope rests on zero.
pub proof fn lemma_advance_prunable_silent(w: Voice)
    requires
        wf_voice(w),
    ensures
        prunable(voice_advance(w)) ==> silent(voice_advance(w)),
{
}

/// Every prunable live slot of an advance image is silent.
pub open spec fn prune_silent(voices: Seq<Option<Voice>>) -> bool {
    forall|j: int|
        0 <= j < voices.len() ==> match #[trigger] voices[j] {
            Option::Some(v) => prunable(v) ==> silent(v),
            Option::None => true,
        }
}

pub open spec fn all_wf(voices: Seq<Option<Voice>>) -> bool {
    forall|j: int|
        0 <= j < voices.len() ==> match #[trigger] voices[j] {
            Option::Some(v) => wf_voice(v),
            Option::None => true,
        }
}

pub proof fn lemma_advmap_prune_silent(voices: Seq<Option<Voice>>, k: nat)
    requires
        all_wf(voices),
        k >= 1,
    ensures
        prune_silent(advmap(voices, k)),
{
    assert forall|j: int| 0 <= j < advmap(voices, k).len() implies match #[trigger] advmap(
        voices,
        k,
    )[j] {
        Option::Some(v) => prunable(v) ==> silent(v),
        Option::None => true,
    } by {
        match voices[j] {
            Option::Some(v) => {
                lemma_wf_voice_after(v, (k - 1) as nat);
                lemma_voice_after_add(v, (k - 1) as nat, 1);
                let w = voice_after(v, (k - 1) as nat);
                assert(voice_after(v, k) == voice_advance(w));
                lemma_advance_prunable_silent(w);
                assert(advmap(voices, k)[j] == opt_after(voices[j], k));
            },
            Option::None => {},
        }
    }
}

/// A silent voice contributes an exact zero.
pub proof fn lemma_silent_sample_zero(v: Voice, gval: i64)
    requires
        silent(v),
    ensures
        voice_sample_of(Option::Some(v), gval) == 0,
{
    let gv = match v.voice_gain {
        Option::Some((_, s)) => s.value,
        Option::None => gval,
    };
    let a1 = crate::fixed::fx_mul_spec(v.velocity_sqrt as int, gv as int);
    lemma_fx_mul_zero(a1);
    lemma_fx_mul_zero(crate::osc::triangle_spec(v.phase as int));
}

/// Pruning the silent voices does not change a sub-block's samples.
pub proof fn lemma_prune_sum(voices: Seq<Option<Voice>>, gval: i64, i: int)
    requires
        prune_silent(voices),
        0 <= i <= voices.len(),
    ensures
        slots_sum(prune_voices_spec(voices), gval, i) == slots_sum(voices, gval, i),
    decreases i,
{
    if i > 0 {
        lemma_prune_sum(voices, gval, i - 1);
        assert(prune_voices_spec(voices)[i - 1] == prune_slot(voices[i - 1]));
        match voices[i - 1] {
            Option::Some(v) => {
                if prunable(v) {
                    lemma_silent_sample_zero(v, gval);
                }
            },
            Option::None => {},
        }
    }
}

/// Pruning commutes with advancing past it, for advance images: a
/// pruned voice would have rendered zeros and been pruned again.
pub proof fn lemma_prune_advance_commute(voices: Seq<Option<Voice>>)
    requires
        prune_silent(voices),
    ensures
        prune_voices_spec(advmap(prune_voices_spec(voices), 1)) == prune_voices_spec(
            advmap(voices, 1),
        ),
{
    let lhs = prune_voices_spec(advmap(prune_voices_spec(voices), 1));
    let rhs = prune_voices_spec(advmap(voices, 1));
    assert forall|j: int| 0 <= j < voices.len() implies lhs[j] == rhs[j] by {
        assert(advmap(prune_voices_spec(voices), 1)[j] == opt_after(
            prune_slot(voices[j]),
            1,
        ));
        assert(advmap(voices, 1)[j] == opt_after(voices[j], 1));
        assert(lhs[j] == prune_slot(opt_after(prune_slot(voices[j]), 1)));
        assert(rhs[j] == prune_slot(opt_after(voices[j], 1)));
        match voices[j] {
            Option::Some(v) => {
                assert(voice_after(v, 0nat) == v);
                assert(voice_after(v, 1nat) == voice_advance(voice_after(v, 0nat)));
                assert(opt_after(Option::Some(v), 1) == Option::Some(voice_advance(v)));
                if prunable(v) {
                    assert(silent(v));
                    lemma_silent_advance(v);
                }
            },
            Option::None => {},
        }
    }
    assert(lhs =~= rhs);
}

/// After consumption, the next unconsumed event lies strictly beyond
/// the boundary.
pub proof fn lemma_consume_next(
    st: EngineState,
    events: Seq<NoteEvent>,
    i: int,
    t: int,
    sample_rate: int,
    base_id: u64,
)
    requires
        0 <= i <= events.len(),
    ensures
        ({
            let c = model_consume(st, events, i, t, sample_rate, base_id);
            &&& i <= c.next <= events.len()
            &&& (c.next < events.len() ==> event_timing(events[c.next]) > t)
        }),
    decreases events.len() - i,
{
    if i < events.len() && event_timing(events[i]) <= t {
        let a = crate::model::model_apply_event(st, events[i], sample_rate, base_id);
        lemma_consume_next(a.st, events, i + 1, t, sample_rate, base_id);
    }
}

/// Consumption depends only on the events, position and boundary, not
/// on the starting state, as far as the index reached is concerned.
pub proof fn lemma_consume_next_same(
    st1: EngineState,
    st2: EngineState,
    events: Seq<NoteEvent>,
    i: int,
    t: int,
    sample_rate: int,
    b1: u64,
    b2: u64,
)
    ensures
        model_consume(st1, events, i, t, sample_rate, b1).next == model_consume(
            st2,
            events,
            i,
            t,
            sample_rate,
            b2,
        ).next,
    decreases events.len() - i,
{
    if 0 <= i < events.len() && event_timing(events[i]) <= t {
        lemma_consume_next_same(
            crate::model::model_apply_event(st1, events[i], sample_rate, b1).st,
            crate::model::model_apply_event(st2, events[i], sample_rate, b2).st,
            events,
            i + 1,
            t,
            sample_rate,
            b1,
            b2,
        );
    }
}

/// Within an event-free span, the per-sample run renders exactly the
/// sub-block's samples and arrives at the pruned sub-block state.
#[verifier::rlimit(100)]
pub proof fn lemma_unit_within(
    cst: EngineState,
    events: Seq<NoteEvent>,
    idx: int,
    s: int,
    len: int,
    k: int,
    n: int,
    sample_rate: int,
)
    requires
        wf_state(cst),
        sorted_by_timing(events),
        forall|j: int| 0 <= j < events.len() ==> wf_event_payload(#[trigger] events[j]),
        1 <= sample_rate <= SR_MAX as int,
        0 <= s,
        1 <= len,
        s + len <= n,
        0 <= k <= len,
        0 <= idx <= events.len(),
        idx < events.len() ==> event_timing(events[idx]) >= s + len,
    ensures
        model_run(unit_state(cst, k as nat), events, idx, s + k, n, sample_rate, 1).out
            == Seq::new(
            (len - k) as nat,
            |j: int| span_sum(cst.voices, cst.gain, NUM_VOICES as int, (k + j) as nat) as i64,
        ) + model_run(
            model_prune(span_state(cst, len as nat), s + len).st,
            events,
            idx,
            s + len,
            n,
            sample_rate,
            1,
        ).out,
        model_run(unit_state(cst, k as nat), events, idx, s + k, n, sample_rate, 1).st
            == model_run(
            model_prune(span_state(cst, len as nat), s + len).st,
            events,
            idx,
            s + len,
            n,
            sample_rate,
            1,
        ).st,
    decreases len - k,
{
    let uk = unit_state(cst, k as nat);
    let pst = model_prune(span_state(cst, len as nat), s + len).st;
    if k == len {
        assert(uk.voices == prune_voices_spec(advmap(cst.voices, len as nat)));
        assert(pst.voices == prune_voices_spec(advmap(cst.voices, len as nat)));
        assert(uk == pst);
        assert(Seq::new(
            0,
            |j: int| span_sum(cst.voices, cst.gain, NUM_VOICES as int, (k + j) as nat) as i64,
        ) + model_run(pst, events, idx, s + len, n, sample_rate, 1).out =~= model_run(
            pst,
            events,
            idx,
            s + len,
            n,
            sample_rate,
            1,
        ).out);
    } else {
        // One unit iteration: consume nothing, render one sample,
        // prune, continue at the next boundary.
        let t = s + k;
        let c = model_consume(uk, events, idx, t, sample_rate, uk.next_internal_voice_id);
        assert(idx < events.len() ==> event_timing(events[idx]) >= s + len > t);
        assert(c.st == uk && c.next == idx && c.terms == Seq::<
            crate::event::VoiceTerminated,
        >::empty());
        let e = block_end_spec(events, idx, t, n, 1);
        assert(e == t + 1);
        let p_unit = model_prune(span_state(uk, 1), e);
        crate::wf::lemma_model_run_unfold(uk, events, idx, t, n, sample_rate, 1);
        let rest = model_run(p_unit.st, events, idx, t + 1, n, sample_rate, 1);
        let outs_unit = Seq::new(
            1,
            |j: int| span_sum(uk.voices, uk.gain, NUM_VOICES as int, j as nat) as i64,
        );
        assert(model_run(uk, events, idx, t, n, sample_rate, 1).out == outs_unit + rest.out);

        // The unit sample equals the sub-block's sample at offset k.
        assert(advmap(uk.voices, 0) =~= uk.voices);
        assert(sm_sample(uk.gain, 0) == sm_sample(cst.gain, k as nat));
        if k == 0 {
            assert(uk.voices == cst.voices);
            assert(span_sum(uk.voices, uk.gain, NUM_VOICES as int, 0) == span_sum(
                cst.voices,
                cst.gain,
                NUM_VOICES as int,
                k as nat,
            ));
        } else {
            lemma_advmap_prune_silent(cst.voices, k as nat);
            lemma_prune_sum(
                advmap(cst.voices, k as nat),
                sm_sample(cst.gain, k as nat),
                NUM_VOICES as int,
            );
            assert(slots_sum(uk.voices, sm_sample(cst.gain, k as nat), NUM_VOICES as int)
                == slots_sum(
                advmap(cst.voices, k as nat),
                sm_sample(cst.gain, k as nat),
                NUM_VOICES as int,
            ));
            assert(span_sum(uk.voices, uk.gain, NUM_VOICES as int, 0) == span_sum(
                cst.voices,
                cst.gain,
                NUM_VOICES as int,
                k as nat,
            ));
        }

        // The pruned one-sample state is the next unit state.
        lemma_sm_after_add(cst.gain, k as nat, 1);
        if k == 0 {
            assert(advmap(uk.voices, 1) == advmap(cst.voices, 1));
            assert(p_unit.st.voices == prune_voices_spec(advmap(cst.voices, 1)));
        } else {
            lemma_advmap_prune_silent(cst.voices, k as nat);
            lemma_prune_advance_commute(advmap(cst.voices, k as nat));
            lemma_advmap_add(cst.voices, k as nat, 1);
            assert(p_unit.st.voices == prune_voices_spec(
                advmap(prune_voices_spec(advmap(cst.voices, k as nat)), 1),
            ));
            assert(p_unit.st.voices == prune_voices_spec(advmap(cst.voices, (k + 1) as nat)));
        }
        assert(p_unit.st == unit_state(cst, (k + 1) as nat));

        lemma_unit_within(cst, events, idx, s, len, k + 1, n, sample_rate);
        let tail = Seq::new(
            (len - k - 1) as nat,
            |j: int| span_sum(cst.voices, cst.gain, NUM_VOICES as int, (k + 1 + j) as nat) as i64,
        );
        let whole = Seq::new(
            (len - k) as nat,
            |j: int| span_sum(cst.voices, cst.gain, NUM_VOICES as int, (k + j) as nat) as i64,
        );
        let pout = model_run(pst, events, idx, s + len, n, sample_rate, 1).out;
        assert(rest.out == tail + pout);
        assert(outs_unit + (tail + pout) =~= (outs_unit + tail) + pout);
        assert(outs_unit + tail =~= whole);
    }
}

/// Sub-block splitting with any cap renders the same samples as the
/// per-sample reference renderer.
#[verifier::rlimit(100)]
pub proof fn lemma_run_cap_irrelevant(
    st: EngineState,
    events: Seq<NoteEvent>,
    i: int,
    s: int,
    n: int,
    sample_rate: int,
    max_len: int,
)
    requires
        wf_state(st),
        sorted_by_timing(events),
        forall|j: int| 0 <= j < events.len() ==> wf_event_payload(#[trigger] events[j]),
        1 <= sample_rate <= SR_MAX as int,
        0 <= s,
        0 <= i <= events.len(),
        max_len >= 1,
    ensures
        model_run(st, events, i, s, n, sample_rate, max_len).out == model_run(
            st,
            events,
            i,
            s,
            n,
            sample_rate,
            1,
        ).out,
        model_run(st, events, i, s, n, sample_rate, max_len).st == model_run(
            st,
            events,
            i,
            s,
            n,
            sample_rate,
            1,
        ).st,
    decreases n - s,
{
    if s >= n {
    } else {
        let base_id = st.next_internal_voice_id;
        let c = model_consume(st, events, i, s, sample_rate, base_id);
        lemma_consume_next(st, events, i, s, sample_rate, base_id);
        lemma_wf_consume(st, events, i, s, sample_rate, base_id);
        let e = block_end_spec(events, c.next, s, n, max_len);
        crate::wf::lemma_block_end_range(events, c.next, s, n, max_len);
        let len = e - s;
        assert(c.next < events.len() ==> event_timing(events[c.next]) >= e);
        let pst = model_prune(span_state(c.st, len as nat), e).st;
        crate::wf::lemma_model_run_unfold(st, events, i, s, n, sample_rate, max_len);
        let rest_m = model_run(pst, events, c.next, e, n, sample_rate, max_len);
        let outs_m = Seq::new(
            len as nat,
            |k: int| span_sum(c.st.voices, c.st.gain, NUM_VOICES as int, k as nat) as i64,
        );
        assert(model_run(st, events, i, s, n, sample_rate, max_len).out == outs_m + rest_m.out);

        // The per-sample run's first iteration consumes the same
        // events and renders the sub-block's first sample.
        crate::wf::lemma_model_run_unfold(st, events, i, s, n, sample_rate, 1);
        let e1 = block_end_spec(events, c.next, s, n, 1);
        assert(e1 == s + 1);
        let p1 = model_prune(span_state(c.st, 1), s + 1);
        let outs_1 = Seq::new(
            1,
            |k: int| span_sum(c.st.voices, c.st.gain, NUM_VOICES as int, k as nat) as i64,
        );
        let rest_1 = model_run(p1.st, events, c.next, s + 1, n, sample_rate, 1);
        assert(model_run(st, events, i, s, n, sample_rate, 1).out == outs_1 + rest_1.out);

        // Walk the per-sample run across the event-free span.
        assert(advmap(c.st.voices, 1) == advmap(c.st.voices, 1nat));
        assert(p1.st == unit_state(c.st, 1));
        lemma_unit_within(c.st, events, c.next, s, len, 1, n, sample_rate);
        let tail = Seq::new(
            (len - 1) as nat,
            |j: int| span_sum(c.st.voices, c.st.gain, NUM_VOICES as int, (1 + j) as nat) as i64,
        );
        let pout = model_run(pst, events, c.next, e, n, sample_rate, 1).out;
        assert(rest_1.out == tail + pout);
        assert(outs_1 + (tail + pout) =~= (outs_1 + tail) + pout);
        assert(outs_1 + tail =~= outs_m);

        // Both runs continue from the same pruned state.
        crate::wf::lemma_wf_span_state(c.st, len as nat);
        crate::wf::lemma_wf_prune(span_state(c.st, len as nat));
        lemma_run_cap_irrelevant(pst, events, c.next, e, n, sample_rate, max_len);
    }
}

/// The scheduler's law: for any event sequence sorted ascending by
/// timing, sub-block splitting yields output identical to a reference
/// per-sample event-check renderer, and leaves the engine in the same
/// state; only the timing stamps of pruning notifications depend on
/// where the sub-block boundaries fall.
pub proof fn theorem_subblock_per_sample(
    st: EngineState,
    events: Seq<NoteEvent>,
    n: int,
    sample_rate: int,
    max_len: int,
)
    requires
        wf_state(st),
        sorted_by_timing(events),
        forall|j: int| 0 <= j < events.len() ==> wf_event_payload(#[trigger] events[j]),
        1 <= sample_rate <= SR_MAX as int,
        max_len >= 1,
    ensures
        model_run(st, events, 0, 0, n, sample_rate, max_len).out == model_run(
            st,
            events,
            0,
            0,
            n,
            sample_rate,
            1,
        ).out,
        model_run(st, events, 0, 0, n, sample_rate, max_len).st == model_run(
            st,
            events,
            0,
            0,
            n,
            sample_rate,
            1,
        ).st,
{
    lemma_run_cap_irrelevant(st, events, 0, 0, n, sample_rate, max_len);
}

} // verus!
