//! Ramped-value holder driving every modulated parameter.
//!
//! A `Smoother` renders one fixed-point value per sample: each call
//! writes the current value, then, while steps remain, advances the
//! value by a style-specific increment and decrements the remaining
//! step count. The final remaining step snaps exactly onto the target,
//! so a finished ramp always rests on it. Advances are clamped so the
//! value never leaves the closed interval between the value at the
//! start of the step and the target, which rules out runaway growth
//! where the geometric or logarithmic increment is degenerate; where
//! such an increment vanishes or is undefined (a value at or below
//! zero under the logarithmic style, a geometric step from zero), a
//! plain step of `step_size` is taken instead, so a ramp cannot stall.

use vstd::prelude::*;

use crate::fixed::BOUND;
use crate::fixed::ONE;
use crate::fixed::SBOUND;
use crate::fixed::clamp_i64;
use crate::fixed::clamp_spec;
use crate::fixed::div_trunc;
use crate::fixed::div_trunc_i64;
use crate::fixed::fx_mul;
use crate::fixed::fx_mul_spec;
use crate::fixed::lemma_div_trunc_bound;
use crate::fixed::lemma_fx_mul_bound;
use crate::fixed::lemma_log2_fx_range;
use crate::fixed::log2_fx;
use crate::fixed::log2_fx_spec;

verus! {

/// Highest sample rate the engine accepts, in Hz.
pub const SR_MAX: u32 = 1000000;

/// How a smoothed value approaches its target. The parameter of the
/// ramped styles is the smoothing time constant in fixed-point
/// milliseconds; for the logarithmic style the same parameter also
/// serves as the base of the logarithm in its per-step formula.
#[derive(Clone, Copy, PartialEq, Eq, Debug)]
pub enum SmoothingStyle {
    NoSmoothing,
    Linear(i64),
    Exponential(i64),
    Logarithmic(i64),
}

/// A restartable generator of ramp values: current value, target,
/// remaining step count and per-step increment, plus the most recently
/// rendered sample.
#[derive(Clone, Copy, PartialEq, Eq, Debug)]
pub struct Smoother {
    pub style: SmoothingStyle,
    pub value: i64,
    pub target: i64,
    pub steps_left: u32,
    pub step_size: i64,
    pub last: i64,
}

pub open spec fn wf_style(st: SmoothingStyle) -> bool {
    match st {
        SmoothingStyle::NoSmoothing => true,
        SmoothingStyle::Linear(t) => 0 <= t <= BOUND,
        SmoothingStyle::Exponential(t) => 0 <= t <= BOUND,
        SmoothingStyle::Logarithmic(t) => 0 <= t <= BOUND,
    }
}

/// Time constant of a style, in fixed-point milliseconds.
pub open spec fn style_time(st: SmoothingStyle) -> int {
    match st {
        SmoothingStyle::NoSmoothing => 0,
        SmoothingStyle::Linear(t) => t as int,
        SmoothingStyle::Exponential(t) => t as int,
        SmoothingStyle::Logarithmic(t) => t as int,
    }
}

pub open spec fn wf_smoother(s: Smoother) -> bool {
    &&& wf_style(s.style)
    &&& -BOUND <= s.value <= BOUND
    &&& -BOUND <= s.target <= BOUND
    &&& -SBOUND <= s.step_size <= SBOUND
    &&& -BOUND <= s.last <= BOUND
}

/// Number of ramp steps for a smoothing time: `sample_rate / 1000`
/// steps per millisecond, rounded to the nearest integer.
pub open spec fn steps_for(sample_rate: int, time_ms: int) -> int
    recommends
        sample_rate >= 1,
        time_ms >= 0,
{
    (sample_rate * time_ms + 500 * ONE as int) / (1000 * ONE as int)
}

/// Logarithm of a positive fixed-point value in a fixed-point base
/// larger than two.
pub open spec fn log_base_spec(base: int, v: int) -> int
    recommends
        1 <= v <= BOUND as int,
        2 * ONE as int <= base <= BOUND as int,
{
    div_trunc(log2_fx_spec(v) * ONE as int, log2_fx_spec(base))
}

/// Clamp a raw advanced value so it stays between the current value
/// and the target.
pub open spec fn toward(v: int, t: int, raw: int) -> int {
    if v <= t {
        clamp_spec(raw, v, t)
    } else {
        clamp_spec(raw, t, v)
    }
}

/// The unclamped one-step advance of each style.
pub open spec fn style_raw(s: Smoother) -> int {
    match s.style {
        SmoothingStyle::NoSmoothing => s.target as int,
        SmoothingStyle::Linear(_) => s.value + s.step_size,
        SmoothingStyle::Exponential(_) => {
            let d = fx_mul_spec(s.step_size as int, s.value as int);
            if d == 0 {
                s.value + s.step_size
            } else {
                s.value + d
            }
        },
        SmoothingStyle::Logarithmic(b) => {
            if 1 <= s.value && 2 * ONE <= b {
                s.value + fx_mul_spec(
                    s.step_size as int,
                    log_base_spec(b as int, s.value as int) + ONE as int,
                )
            } else {
                s.value + s.step_size
            }
        },
    }
}

/// One rendered sample: the state after writing `s.value` and, while
/// steps remain, advancing. The final remaining step snaps onto the
/// target.
pub open spec fn sm_step(s: Smoother) -> Smoother {
    if s.steps_left == 0 {
        Smoother { last: s.value, ..s }
    } else if s.steps_left == 1 {
        Smoother { value: s.target, steps_left: 0, last: s.value, ..s }
    } else {
        Smoother {
            value: toward(s.value as int, s.target as int, style_raw(s)) as i64,
            steps_left: (s.steps_left - 1) as u32,
            last: s.value,
            ..s
        }
    }
}

/// The state after rendering `k` samples.
pub open spec fn sm_after(s: Smoother, k: nat) -> Smoother
    decreases k,
{
    if k == 0 {
        s
    } else {
        sm_step(sm_after(s, (k - 1) as nat))
    }
}

/// The `k`-th rendered sample of a block started in state `s`.
pub open spec fn sm_sample(s: Smoother, k: nat) -> i64 {
    sm_after(s, k).value
}

pub open spec fn spec_reset(s: Smoother, v: i64) -> Smoother {
    Smoother { value: v, target: v, steps_left: 0, step_size: 0, last: v, style: s.style }
}

pub open spec fn spec_set_target(s: Smoother, sample_rate: int, t: i64) -> Smoother {
    if t == s.target {
        s
    } else {
        let steps = steps_for(sample_rate, style_time(s.style));
        if steps == 0 {
            Smoother { value: t, target: t, steps_left: 0, step_size: 0, ..s }
        } else {
            Smoother {
                target: t,
                steps_left: steps as u32,
                step_size: div_trunc(t - s.value, steps) as i64,
                ..s
            }
        }
    }
}

/// The clamped advance stays between the step's starting value and the
/// target, so one step keeps a well-formed state well formed.
pub proof fn lemma_sm_step_wf(s: Smoother)
    requires
        wf_smoother(s),
    ensures
        wf_smoother(sm_step(s)),
        s.value <= s.target ==> s.value <= sm_step(s).value <= s.target,
        s.target <= s.value ==> s.target <= sm_step(s).value <= s.value,
        sm_step(s).target == s.target,
        sm_step(s).step_size == s.step_size,
        sm_step(s).style == s.style,
        sm_step(s).last == s.value,
        sm_step(s).steps_left == if s.steps_left == 0 {
            0int
        } else {
            s.steps_left - 1
        },
{
}

pub proof fn lemma_sm_after_wf(s: Smoother, k: nat)
    requires
        wf_smoother(s),
    ensures
        wf_smoother(sm_after(s, k)),
        s.value <= s.target ==> s.value <= sm_after(s, k).value <= s.target,
        s.target <= s.value ==> s.target <= sm_after(s, k).value <= s.value,
        sm_after(s, k).target == s.target,
        sm_after(s, k).step_size == s.step_size,
        sm_after(s, k).style == s.style,
    decreases k,
{
    if k > 0 {
        lemma_sm_after_wf(s, (k - 1) as nat);
        lemma_sm_step_wf(sm_after(s, (k - 1) as nat));
    }
}

/// After a reset to `v`, every rendered sample is `v` and no steps
/// remain.
pub proof fn lemma_reset_renders_flat(s: Smoother, v: i64, k: nat)
    ensures
        sm_sample(spec_reset(s, v), k) == v,
        sm_after(spec_reset(s, v), k).steps_left == 0,
    decreases k,
{
    if k > 0 {
        lemma_reset_renders_flat(s, v, (k - 1) as nat);
    }
}

/// A smoother whose ramp has finished renders its target forever.
pub proof fn lemma_finished_renders_target(s: Smoother, k: nat)
    requires
        s.steps_left == 0,
        s.value == s.target,
    ensures
        sm_sample(s, k) == s.target,
        sm_after(s, k).steps_left == 0,
        sm_after(s, k).target == s.target,
    decreases k,
{
    if k > 0 {
        lemma_finished_renders_target(s, (k - 1) as nat);
    }
}

/// Rendering `a + b` samples is rendering `a`, then `b` more.
pub proof fn lemma_sm_after_add(s: Smoother, a: nat, b: nat)
    ensures
        sm_after(s, a + b) == sm_after(sm_after(s, a), b),
    decreases b,
{
    if b > 0 {
        lemma_sm_after_add(s, a, (b - 1) as nat);
        assert(a + b - 1 == a + (b - 1) as nat);
    }
}

impl Smoother {
    /// A fresh smoother of the given style, at rest on zero.
    pub fn new(style: SmoothingStyle) -> (r: Self)
        ensures
            r == (Smoother { style, value: 0, target: 0, steps_left: 0, step_size: 0, last: 0 }),
    {
        Smoother { style, value: 0, target: 0, steps_left: 0, step_size: 0, last: 0 }
    }

    /// A smoother that never ramps.
    pub fn none() -> (r: Self)
        ensures
            r == (Smoother {
                style: SmoothingStyle::NoSmoothing,
                value: 0,
                target: 0,
                steps_left: 0,
                step_size: 0,
                last: 0,
            }),
    {
        Smoother::new(SmoothingStyle::NoSmoothing)
    }

    /// Clear any in-flight ramp: current and target become `v` at once.
    pub fn reset(&mut self, v: i64)
        ensures
            *final(self) == spec_reset(*old(self), v),
    {
        self.value = v;
        self.target = v;
        self.steps_left = 0;
        self.step_size = 0;
        self.last = v;
    }

    /// Start a ramp from the current instantaneous value toward a new
    /// target, discarding any in-flight ramp. A no-op if the target is
    /// unchanged; with a zero step count the value snaps onto the
    /// target at once.
    pub fn set_target(&mut self, sample_rate: u32, t: i64)
        requires
            wf_smoother(*old(self)),
            1 <= sample_rate <= SR_MAX,
            -BOUND <= t <= BOUND,
        ensures
            *final(self) == spec_set_target(*old(self), sample_rate as int, t),
            wf_smoother(*final(self)),
    {
        if t == self.target {
            return ;
        }
        let time_ms: i64 = match self.style {
            SmoothingStyle::NoSmoothing => 0,
            SmoothingStyle::Linear(tc) => tc,
            SmoothingStyle::Exponential(tc) => tc,
            SmoothingStyle::Logarithmic(tc) => tc,
        };
        proof {
            assert(sample_rate as int * time_ms as int <= 1000000 * BOUND as int)
                by (nonlinear_arith)
                requires
                    1 <= sample_rate <= 1000000,
                    0 <= time_ms <= BOUND,
            ;
        }
        let num: u64 = (sample_rate as u64) * (time_ms as u64) + 500 * (ONE as u64);
        let steps: u64 = num / (1000 * (ONE as u64));
        proof {
            assert(steps < 0x100000000) by (nonlinear_arith)
                requires
                    steps == num as int / (1000 * ONE as int),
                    0 <= num as int <= 1000000 * BOUND as int + 500 * ONE as int,
            ;
        }
        if steps == 0 {
            self.value = t;
            self.target = t;
            self.steps_left = 0;
            self.step_size = 0;
        } else {
            proof {
                lemma_div_trunc_bound(t - self.value, steps as int);
            }
            self.step_size = div_trunc_i64(t - self.value, steps as i64);
            self.target = t;
            self.steps_left = steps as u32;
        }
    }

    /// Render one sample: return the current value, then advance.
    pub fn next(&mut self) -> (r: i64)
        requires
            wf_smoother(*old(self)),
        ensures
            r == old(self).value,
            *final(self) == sm_step(*old(self)),
            wf_smoother(*final(self)),
    {
        let out: i64 = self.value;
        if self.steps_left > 0 {
            if self.steps_left == 1 {
                self.value = self.target;
                self.steps_left = 0;
            } else {
                let raw: i64 = match self.style {
                    SmoothingStyle::NoSmoothing => self.target,
                    SmoothingStyle::Linear(_) => self.value + self.step_size,
                    SmoothingStyle::Exponential(_) => {
                        let d: i64 = fx_mul(self.step_size, self.value);
                        proof {
                            lemma_fx_mul_bound(
                                self.step_size as int,
                                self.value as int,
                                SBOUND as int,
                                BOUND as int,
                            );
                        }
                        if d == 0 {
                            self.value + self.step_size
                        } else {
                            self.value + d
                        }
                    },
                    SmoothingStyle::Logarithmic(b) => {
                        if 1 <= self.value && 2 * ONE <= b {
                            let lg: i64 = log2_fx(self.value);
                            let lb: i64 = log2_fx(b);
                            proof {
                                lemma_log2_fx_range(b as int);
                                lemma_log_base_positive(b as int);
                                lemma_div_trunc_bound(lg as int * ONE as int, lb as int);
                                lemma_log_base_bound(b as int, self.value as int);
                            }
                            let lt: i64 = div_trunc_i64(lg * ONE, lb);
                            let d: i64 = fx_mul(self.step_size, lt + ONE);
                            proof {
                                lemma_fx_mul_bound(
                                    self.step_size as int,
                                    lt as int + ONE as int,
                                    SBOUND as int,
                                    17 * ONE as int,
                                );
                            }
                            self.value + d
                        } else {
                            self.value + self.step_size
                        }
                    },
                };
                let lo: i64 = if self.value <= self.target {
                    self.value
                } else {
                    self.target
                };
                let hi: i64 = if self.value <= self.target {
                    self.target
                } else {
                    self.value
                };
                self.value = clamp_i64(raw, lo, hi);
                self.steps_left = self.steps_left - 1;
            }
        }
        self.last = out;
        out
    }

    /// Render `len` samples into the front of `out`, advancing the
    /// ramp across the block; the tail of `out` is untouched.
    pub fn next_block(&mut self, out: &mut Vec<i64>, len: usize)
        requires
            wf_smoother(*old(self)),
            len <= old(out).len(),
        ensures
            *final(self) == sm_after(*old(self), len as nat),
            wf_smoother(*final(self)),
            final(out).len() == old(out).len(),
            forall|k: int|
                0 <= k < len ==> #[trigger] final(out)[k] == sm_sample(*old(self), k as nat),
            forall|k: int| len <= k < final(out).len() ==> #[trigger] final(out)[k] == old(out)[k],
    {
        let mut i: usize = 0;
        while i < len
            invariant
                i <= len <= out.len(),
                out.len() == old(out).len(),
                wf_smoother(*self),
                *self == sm_after(*old(self), i as nat),
                forall|k: int| 0 <= k < i ==> #[trigger] out[k] == sm_sample(*old(self), k as nat),
                forall|k: int| i <= k < out.len() ==> #[trigger] out[k] == old(out)[k],
            decreases len - i,
        {
            proof {
                assert(sm_after(*old(self), (i + 1) as nat) == sm_step(
                    sm_after(*old(self), i as nat),
                ));
            }
            let v: i64 = self.next();
            out.set(i, v);
            i = i + 1;
        }
    }

    /// The most recently rendered sample.
    pub fn previous_value(&self) -> (r: i64)
        ensures
            r == self.last,
    {
        self.last
    }

    /// Preview the value the ramp would reach after all remaining
    /// steps (its target), plus one fractional extra step scaled by
    /// `offset`; pure and non-mutating.
    pub fn preview_modulated(&self, offset: i64) -> (r: i64)
        requires
            wf_smoother(*self),
            -ONE <= offset <= ONE,
        ensures
            r == self.target + fx_mul_spec(self.step_size as int, offset as int),
    {
        proof {
            lemma_fx_mul_bound(self.step_size as int, offset as int, SBOUND as int, ONE as int);
        }
        self.target + fx_mul(self.step_size, offset)
    }
}

/// For a base of at least two, the fixed-point base-two logarithm is
/// at least `ONE`.
pub proof fn lemma_log_base_positive(base: int)
    requires
        2 * ONE as int <= base <= BOUND as int,
    ensures
        ONE as int <= log2_fx_spec(base) <= 15 * ONE as int,
{
    lemma_log2_fx_range(base);
    crate::fixed::lemma_floor_log2_props(base);
    let k = crate::fixed::floor_log2(base);
    if k <= 16 {
        crate::fixed::lemma_pow2_mono(k as nat, 16);
        assert(crate::fixed::pow2(16) == 65536) by {
            reveal_with_fuel(crate::fixed::pow2, 17);
        }
    }
}

/// The logarithm term of the logarithmic style is bounded by the
/// base-two range.
pub proof fn lemma_log_base_bound(base: int, v: int)
    requires
        1 <= v <= BOUND as int,
        2 * ONE as int <= base <= BOUND as int,
    ensures
        -16 * ONE as int <= log_base_spec(base, v) <= 16 * ONE as int,
{
    lemma_log2_fx_range(v);
    lemma_log_base_positive(base);
    let num = log2_fx_spec(v) * ONE as int;
    let den = log2_fx_spec(base);
    assert(-16 * ONE as int * ONE as int <= num <= 16 * ONE as int * ONE as int)
        by (nonlinear_arith)
        requires
            -16 * ONE as int <= log2_fx_spec(v) <= 15 * ONE as int,
            num == log2_fx_spec(v) * ONE as int,
    ;
    lemma_div_trunc_bound(num, den);
    if num >= 0 {
        assert(num / den <= 16 * ONE as int) by (nonlinear_arith)
            requires
                0 <= num <= 16 * ONE as int * ONE as int,
                den >= ONE as int,
        ;
    } else {
        assert((-num) / den <= 16 * ONE as int) by (nonlinear_arith)
            requires
                0 < -num <= 16 * ONE as int * ONE as int,
                den >= ONE as int,
        ;
    }
}

} // verus!
