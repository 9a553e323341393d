//! A simple one-pole low-pass filter with a resonance feedback term,
//! processed sample by sample over a buffer. The coefficient
//! `cutoff / sample_rate` follows the cutoff parameter directly; the
//! complementary feedback coefficient is clamped into `[0, 1]`, and
//! the output saturates at the fixed-point range instead of growing
//! without bound where the raw recurrence would diverge.

use vstd::prelude::*;

use crate::fixed::BOUND;
use crate::fixed::ONE;
use crate::fixed::clamp_i64;
use crate::fixed::clamp_spec;
use crate::fixed::fx_mul;
use crate::fixed::fx_mul_spec;
use crate::fixed::lemma_fx_mul_bound;

verus! {

/// Highest cutoff frequency the filter accepts, in fixed-point Hz.
pub const CUTOFF_MAX: i64 = 1310720000;

/// Default cutoff: 1000 Hz.
pub const CUTOFF_DEFAULT: i64 = 65536000;

/// Filter state: the two parameters' plain values and the previous
/// output sample.
pub struct Filter {
    pub cutoff_freq: i64,
    pub resonance: i64,
    pub last_output: i64,
}

pub open spec fn wf_filter(f: Filter) -> bool {
    &&& 0 <= f.cutoff_freq <= CUTOFF_MAX
    &&& 0 <= f.resonance <= ONE
    &&& -BOUND <= f.last_output <= BOUND
}

/// One filtered sample: a blend of the previous output and the input
/// by the cutoff coefficient, minus the resonance feedback, saturated
/// into the representable range.
pub open spec fn filter_step_spec(
    cutoff: i64,
    resonance: i64,
    sample_rate: int,
    last: int,
    x: int,
) -> int
    recommends
        sample_rate >= 1,
{
    let k = cutoff as int / sample_rate;
    let a = clamp_spec(ONE - k, 0, ONE as int);
    let raw = fx_mul_spec(a, last) + fx_mul_spec(k, x) - fx_mul_spec(
        resonance as int,
        x - last,
    );
    clamp_spec(raw, -BOUND as int, BOUND as int)
}

/// The filter's state after the first `i` samples of a buffer.
pub open spec fn filter_last_spec(
    cutoff: i64,
    resonance: i64,
    sample_rate: int,
    last0: int,
    input: Seq<i64>,
    i: int,
) -> int
    decreases i,
{
    if i <= 0 {
        last0
    } else {
        filter_step_spec(
            cutoff,
            resonance,
            sample_rate,
            filter_last_spec(cutoff, resonance, sample_rate, last0, input, i - 1),
            input[i - 1] as int,
        )
    }
}

pub proof fn lemma_filter_last_bounded(
    cutoff: i64,
    resonance: i64,
    sample_rate: int,
    last0: int,
    input: Seq<i64>,
    i: int,
)
    requires
        -BOUND <= last0 <= BOUND,
    ensures
        -BOUND <= filter_last_spec(cutoff, resonance, sample_rate, last0, input, i) <= BOUND,
    decreases i,
{
    if i > 0 {
        lemma_filter_last_bounded(cutoff, resonance, sample_rate, last0, input, i - 1);
    }
}

impl Default for Filter {
    fn default() -> (r: Self)
        ensures
            r == (Filter { cutoff_freq: CUTOFF_DEFAULT, resonance: 0, last_output: 0 }),
    {
        Filter::new()
    }
}

impl Filter {
    /// A fresh filter: 1000 Hz cutoff, no resonance, silent history.
    pub fn new() -> (r: Self)
        ensures
            r == (Filter { cutoff_freq: CUTOFF_DEFAULT, resonance: 0, last_output: 0 }),
            wf_filter(r),
    {
        Filter { cutoff_freq: CUTOFF_DEFAULT, resonance: 0, last_output: 0 }
    }

    /// Filter a buffer in place, threading the previous-output state
    /// across the samples.
    pub fn process(&mut self, buffer: &mut Vec<i64>, sample_rate: u32)
        requires
            wf_filter(*old(self)),
            1 <= sample_rate,
            forall|i: int|
                0 <= i < old(buffer).len() ==> -BOUND <= #[trigger] old(buffer)[i] <= BOUND,
        ensures
            final(buffer).len() == old(buffer).len(),
            forall|i: int|
                0 <= i < old(buffer).len() ==> #[trigger] final(buffer)[i] == filter_last_spec(
                    old(self).cutoff_freq,
                    old(self).resonance,
                    sample_rate as int,
                    old(self).last_output as int,
                    old(buffer)@,
                    i + 1,
                ),
            final(self).last_output == filter_last_spec(
                old(self).cutoff_freq,
                old(self).resonance,
                sample_rate as int,
                old(self).last_output as int,
                old(buffer)@,
                old(buffer).len() as int,
            ),
            final(self).cutoff_freq == old(self).cutoff_freq,
            final(self).resonance == old(self).resonance,
            wf_filter(*final(self)),
    {
        let cutoff: i64 = self.cutoff_freq;
        let resonance: i64 = self.resonance;
        proof {
            crate::fixed::lemma_div_trunc_bound(cutoff as int, sample_rate as int);
        }
        let k: i64 = ((cutoff as u64) / (sample_rate as u64)) as i64;
        let mut i: usize = 0;
        while i < buffer.len()
            invariant
                i <= buffer@.len(),
                buffer@.len() == old(buffer)@.len(),
                cutoff == old(self).cutoff_freq,
                resonance == old(self).resonance,
                0 <= cutoff <= CUTOFF_MAX,
                0 <= resonance <= ONE,
                1 <= sample_rate,
                k == cutoff as int / sample_rate as int,
                0 <= k <= CUTOFF_MAX,
                self.cutoff_freq == old(self).cutoff_freq,
                self.resonance == old(self).resonance,
                -BOUND <= self.last_output <= BOUND,
                self.last_output == filter_last_spec(
                    cutoff,
                    resonance,
                    sample_rate as int,
                    old(self).last_output as int,
                    old(buffer)@,
                    i as int,
                ),
                forall|j: int|
                    0 <= j < i ==> #[trigger] buffer@[j] == filter_last_spec(
                        cutoff,
                        resonance,
                        sample_rate as int,
                        old(self).last_output as int,
                        old(buffer)@,
                        j + 1,
                    ),
                forall|j: int| i <= j < buffer@.len() ==> #[trigger] buffer@[j] == old(buffer)@[j],
                forall|j: int|
                    0 <= j < buffer@.len() ==> -BOUND <= #[trigger] old(buffer)@[j] <= BOUND,
            decreases buffer@.len() - i,
        {
            let x: i64 = buffer[i];
            let a: i64 = clamp_i64(ONE - k, 0, ONE);
            proof {
                lemma_fx_mul_bound(a as int, self.last_output as int, ONE as int, BOUND as int);
                lemma_fx_mul_bound(k as int, x as int, CUTOFF_MAX as int, BOUND as int);
                lemma_fx_mul_bound(
                    resonance as int,
                    x - self.last_output,
                    ONE as int,
                    2 * BOUND as int,
                );
            }
            let t1: i64 = fx_mul(a, self.last_output);
            let t2: i64 = fx_mul(k, x);
            let t3: i64 = fx_mul(resonance, x - self.last_output);
            let out: i64 = clamp_i64(t1 + t2 - t3, -BOUND, BOUND);
            buffer.set(i, out);
            self.last_output = out;
            i = i + 1;
        }
    }

    /// The plain value of a parameter by its stable id: 0 is the
    /// cutoff frequency, 1 the resonance.
    pub fn get_parameter(&self, id: u32) -> (r: Option<i64>)
        ensures
            r == if id == 0 {
                Option::Some(self.cutoff_freq)
            } else if id == 1 {
                Option::Some(self.resonance)
            } else {
                Option::<i64>::None
            },
    {
        if id == 0 {
            Option::Some(self.cutoff_freq)
        } else if id == 1 {
            Option::Some(self.resonance)
        } else {
            Option::None
        }
    }

}

} // verus!
