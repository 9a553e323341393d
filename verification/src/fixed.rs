//! Fixed-point arithmetic for the audio path.
//!
//! A value is an `i64` holding a real number scaled by `ONE` (sixteen
//! fractional bits). Multiplication truncates toward zero, as the
//! corresponding division does.

use vstd::prelude::*;

verus! {

/// The fixed-point unit: representations are scaled by this factor.
pub const ONE: i64 = 65536;

/// General magnitude bound on smoothed values (2^30).
pub const BOUND: i64 = 1073741824;

/// Magnitude bound on per-step ramp increments (2^31).
pub const SBOUND: i64 = 2147483648;

/// Division truncating toward zero, for a positive divisor.
pub open spec fn div_trunc(a: int, b: int) -> int
    recommends
        b > 0,
{
    if a >= 0 {
        a / b
    } else {
        -((-a) / b)
    }
}

/// Fixed-point product: `a * b` rescaled by `ONE`, truncated toward zero.
pub open spec fn fx_mul_spec(a: int, b: int) -> int {
    div_trunc(a * b, ONE as int)
}

/// Clamp `x` into the closed interval `[lo, hi]`.
pub open spec fn clamp_spec(x: int, lo: int, hi: int) -> int
    recommends
        lo <= hi,
{
    if x < lo {
        lo
    } else if x > hi {
        hi
    } else {
        x
    }
}

pub proof fn lemma_div_trunc_bound(a: int, b: int)
    requires
        b > 0,
    ensures
        a >= 0 ==> 0 <= div_trunc(a, b) <= a,
        a < 0 ==> a <= div_trunc(a, b) <= 0,
{
    if a >= 0 {
        assert(0 <= a / b <= a) by (nonlinear_arith)
            requires
                a >= 0,
                b > 0,
        ;
    } else {
        assert(0 <= (-a) / b <= -a) by (nonlinear_arith)
            requires
                a < 0,
                b > 0,
        ;
    }
}

/// A product of values within `[-m, m]` and `[-n, n]` rescales into
/// `[-(m * n) / ONE, (m * n) / ONE]`.
pub proof fn lemma_fx_mul_bound(a: int, b: int, m: int, n: int)
    requires
        0 <= m,
        0 <= n,
        -m <= a <= m,
        -n <= b <= n,
    ensures
        -(m * n) <= a * b <= m * n,
        -(m * n) / ONE as int - 1 <= fx_mul_spec(a, b) <= (m * n) / ONE as int,
{
    assert(-(m * n) <= a * b <= m * n) by (nonlinear_arith)
        requires
            0 <= m,
            0 <= n,
            -m <= a <= m,
            -n <= b <= n,
    ;
    lemma_div_trunc_bound(a * b, ONE as int);
    if a * b >= 0 {
        assert(a * b / ONE as int <= (m * n) / ONE as int) by (nonlinear_arith)
            requires
                0 <= a * b <= m * n,
        ;
    } else {
        assert((-(a * b)) / ONE as int <= (m * n) / ONE as int) by (nonlinear_arith)
            requires
                0 < -(a * b) <= m * n,
        ;
    }
}

/// A product with a factor in `[0, ONE]` keeps the other factor's range:
/// the result stays within `[-m, m]`, and within `[0, m]` if `a` is.
pub proof fn lemma_fx_mul_contracts(a: int, b: int, m: int)
    requires
        0 <= m,
        -m <= a <= m,
        0 <= b <= ONE as int,
    ensures
        -m <= fx_mul_spec(a, b) <= m,
        0 <= a ==> 0 <= fx_mul_spec(a, b) <= a,
{
    assert(-(m * ONE as int) <= a * b <= m * ONE as int) by (nonlinear_arith)
        requires
            0 <= m,
            -m <= a <= m,
            0 <= b <= ONE as int,
    ;
    lemma_div_trunc_bound(a * b, ONE as int);
    if a * b >= 0 {
        assert(a * b / ONE as int <= m) by (nonlinear_arith)
            requires
                0 <= a * b <= m * ONE as int,
        ;
    } else {
        assert((-(a * b)) / ONE as int <= m) by (nonlinear_arith)
            requires
                0 < -(a * b) <= m * ONE as int,
        ;
    }
    if 0 <= a {
        assert(a * b <= a * ONE as int) by (nonlinear_arith)
            requires
                0 <= a,
                0 <= b <= ONE as int,
        ;
        assert(0 <= a * b) by (nonlinear_arith)
            requires
                0 <= a,
                0 <= b,
        ;
        assert(a * b / ONE as int <= a * ONE as int / ONE as int) by (nonlinear_arith)
            requires
                0 <= a * b <= a * ONE as int,
        ;
        assert(a * ONE as int / ONE as int == a) by (nonlinear_arith);
    }
}

pub proof fn lemma_fx_mul_zero(a: int)
    ensures
        fx_mul_spec(a, 0) == 0,
        fx_mul_spec(0, a) == 0,
{
    assert(a * 0 == 0) by (nonlinear_arith);
    assert(0 * a == 0) by (nonlinear_arith);
}

/// Division truncating toward zero.
pub fn div_trunc_i64(a: i64, b: i64) -> (r: i64)
    requires
        b > 0,
        a != i64::MIN,
    ensures
        r == div_trunc(a as int, b as int),
{
    proof {
        lemma_div_trunc_bound(a as int, b as int);
    }
    if a >= 0 {
        let q: u64 = (a as u64) / (b as u64);
        q as i64
    } else {
        let m: i64 = -a;
        let q: u64 = (m as u64) / (b as u64);
        -(q as i64)
    }
}

/// Fixed-point multiplication, truncated toward zero.
pub fn fx_mul(a: i64, b: i64) -> (r: i64)
    requires
        -SBOUND <= a <= SBOUND,
        -SBOUND <= b <= SBOUND,
    ensures
        r == fx_mul_spec(a as int, b as int),
{
    proof {
        lemma_fx_mul_bound(a as int, b as int, SBOUND as int, SBOUND as int);
    }
    let p: i64 = a * b;
    div_trunc_i64(p, ONE)
}

/// Integer square root: the largest `r` with `r * r <= n`.
pub open spec fn isqrt_spec(n: int) -> int
    decreases n,
{
    if n < 1 {
        0
    } else {
        let r = isqrt_spec(n - 1);
        if (r + 1) * (r + 1) <= n {
            r + 1
        } else {
            r
        }
    }
}

pub proof fn lemma_isqrt_props(n: int)
    requires
        n >= 0,
    ensures
        0 <= isqrt_spec(n),
        isqrt_spec(n) * isqrt_spec(n) <= n,
        n < (isqrt_spec(n) + 1) * (isqrt_spec(n) + 1),
    decreases n,
{
    if n >= 1 {
        lemma_isqrt_props(n - 1);
        let r = isqrt_spec(n - 1);
        if (r + 1) * (r + 1) <= n {
            assert(n < (r + 2) * (r + 2)) by (nonlinear_arith)
                requires
                    r >= 0,
                    n - 1 < (r + 1) * (r + 1),
            ;
        }
    }
}

pub proof fn lemma_isqrt_unique(n: int, r: int)
    requires
        n >= 0,
        r >= 0,
        r * r <= n,
        n < (r + 1) * (r + 1),
    ensures
        r == isqrt_spec(n),
{
    lemma_isqrt_props(n);
    let s = isqrt_spec(n);
    if r < s {
        assert((r + 1) * (r + 1) <= s * s) by (nonlinear_arith)
            requires
                0 <= r,
                r + 1 <= s,
        ;
    }
    if s < r {
        assert((s + 1) * (s + 1) <= r * r) by (nonlinear_arith)
            requires
                0 <= s,
                s + 1 <= r,
        ;
    }
}

/// Square root of a fixed-point value in `[0, ONE]`, as a fixed-point
/// value: the largest `r` with `r * r <= v * ONE`.
pub fn fx_sqrt(v: i64) -> (r: i64)
    requires
        0 <= v <= ONE,
    ensures
        r == isqrt_spec(v as int * ONE as int),
        0 <= r <= ONE,
{
    let n: u64 = (v as u64) * (ONE as u64);
    let mut lo: u64 = 0;
    let mut hi: u64 = (ONE as u64) + 1;
    proof {
        assert((ONE as u64 + 1) * (ONE as u64 + 1) > n) by (nonlinear_arith)
            requires
                n == v as u64 * ONE as u64,
                0 <= v <= ONE,
        ;
    }
    while lo + 1 < hi
        invariant
            lo < hi <= ONE as u64 + 1,
            lo * lo <= n,
            n < hi * hi,
            n == v as int * ONE as int,
        decreases hi - lo,
    {
        let mid: u64 = lo + (hi - lo) / 2;
        proof {
            assert(mid as int * mid as int <= 65537 * 65537) by (nonlinear_arith)
                requires
                    0 <= mid <= 65537,
            ;
        }
        if mid * mid <= n {
            lo = mid;
        } else {
            hi = mid;
        }
    }
    proof {
        lemma_isqrt_unique(n as int, lo as int);
    }
    lo as i64
}

/// Floor of the base-two logarithm of a positive integer.
pub open spec fn floor_log2(v: int) -> int
    decreases v,
{
    if v < 2 {
        0
    } else {
        1 + floor_log2(v / 2)
    }
}

pub open spec fn pow2(k: nat) -> int
    decreases k,
{
    if k == 0 {
        1
    } else {
        2 * pow2((k - 1) as nat)
    }
}

pub proof fn lemma_floor_log2_props(v: int)
    requires
        v >= 1,
    ensures
        0 <= floor_log2(v) <= v,
        pow2(floor_log2(v) as nat) <= v,
        v < 2 * pow2(floor_log2(v) as nat),
    decreases v,
{
    if v >= 2 {
        lemma_floor_log2_props(v / 2);
    }
}

pub proof fn lemma_pow2_pos(k: nat)
    ensures
        pow2(k) >= 1,
    decreases k,
{
    if k > 0 {
        lemma_pow2_pos((k - 1) as nat);
    }
}

pub proof fn lemma_pow2_mono(j: nat, k: nat)
    requires
        j <= k,
    ensures
        pow2(j) <= pow2(k),
    decreases k,
{
    if j < k {
        lemma_pow2_mono(j, (k - 1) as nat);
        lemma_pow2_pos(j);
    }
}

/// Base-two logarithm of a positive fixed-point value, itself in fixed
/// point, with a piecewise-linear fraction: the value is scaled into
/// `[ONE, 2 * ONE)` and the offset from `ONE` stands for the fraction.
pub open spec fn log2_fx_spec(v: int) -> int
    recommends
        v >= 1,
{
    let k = floor_log2(v);
    let norm = if k >= 16 {
        v / pow2((k - 16) as nat)
    } else {
        v * pow2((16 - k) as nat)
    };
    (k - 16) * ONE as int + (norm - ONE as int)
}

pub proof fn lemma_log2_fx_range(v: int)
    requires
        1 <= v <= BOUND as int,
    ensures
        -16 * ONE as int <= log2_fx_spec(v) <= 15 * ONE as int,
        0 <= floor_log2(v) <= 30,
        floor_log2(v) >= 16 ==> ONE as int <= v / pow2((floor_log2(v) - 16) as nat) < 2 * ONE
            as int,
        floor_log2(v) < 16 ==> ONE as int <= v * pow2((16 - floor_log2(v)) as nat) < 2 * ONE
            as int,
{
    let k = floor_log2(v);
    lemma_floor_log2_props(v);
    assert(k <= 30) by {
        if k >= 31 {
            lemma_pow2_mono(31, k as nat);
            assert(pow2(31) == 2147483648) by {
                reveal_with_fuel(pow2, 32);
            }
        }
    }
    let norm = if k >= 16 {
        v / pow2((k - 16) as nat)
    } else {
        v * pow2((16 - k) as nat)
    };
    if k >= 16 {
        let p = pow2((k - 16) as nat);
        lemma_pow2_pos((k - 16) as nat);
        assert(pow2(k as nat) == p * pow2(16)) by {
            lemma_pow2_factor((k - 16) as nat, 16);
        }
        assert(pow2(16) == 65536) by {
            reveal_with_fuel(pow2, 17);
        }
        assert(ONE as int <= norm < 2 * ONE as int) by (nonlinear_arith)
            requires
                norm == v / p,
                p >= 1,
                p * 65536 <= v,
                v < 2 * (p * 65536),
                ONE == 65536i64,
        ;
    } else {
        let p = pow2((16 - k) as nat);
        lemma_pow2_pos((16 - k) as nat);
        assert(pow2(16) == p * pow2(k as nat)) by {
            lemma_pow2_factor((16 - k) as nat, k as nat);
        }
        assert(pow2(16) == 65536) by {
            reveal_with_fuel(pow2, 17);
        }
        assert(ONE as int <= norm < 2 * ONE as int) by (nonlinear_arith)
            requires
                norm == v * p,
                p >= 1,
                pow2(k as nat) <= v,
                v < 2 * pow2(k as nat),
                65536 == p * pow2(k as nat),
                ONE == 65536i64,
        ;
    }
}

pub proof fn lemma_pow2_factor(a: nat, b: nat)
    ensures
        pow2(a + b) == pow2(a) * pow2(b),
    decreases a,
{
    if a == 0 {
        assert(pow2(0 + b) == 1 * pow2(b)) by (nonlinear_arith)
            requires
                pow2(0 + b) == pow2(b),
        ;
    } else {
        lemma_pow2_factor((a - 1) as nat, b);
        assert(2 * (pow2((a - 1) as nat) * pow2(b)) == (2 * pow2((a - 1) as nat)) * pow2(b))
            by (nonlinear_arith);
    }
}

/// Floor of the base-two logarithm, executable.
pub fn floor_log2_i64(v: i64) -> (r: u32)
    requires
        v >= 1,
    ensures
        r == floor_log2(v as int),
        r <= 63,
{
    let mut x: u64 = v as u64;
    let mut k: u32 = 0;
    proof {
        lemma_floor_log2_props(v as int);
        lemma_floor_log2_le_63(v as int);
    }
    while x >= 2
        invariant
            x >= 1,
            k + floor_log2(x as int) == floor_log2(v as int),
            floor_log2(x as int) >= 0,
            floor_log2(v as int) <= 63,
            k <= 63,
        decreases x,
    {
        proof {
            lemma_floor_log2_props(x as int);
        }
        x = x / 2;
        k = k + 1;
    }
    k
}

pub proof fn lemma_floor_log2_le_63(v: int)
    requires
        1 <= v <= i64::MAX as int,
    ensures
        floor_log2(v) <= 63,
{
    lemma_floor_log2_props(v);
    if floor_log2(v) >= 64 {
        lemma_pow2_mono(64, floor_log2(v) as nat);
        assert(pow2(64) == 0x10000000000000000) by {
            reveal_with_fuel(pow2, 65);
        }
    }
}

/// Base-two logarithm of a positive fixed-point value, executable.
#[verifier::rlimit(30)]
pub fn log2_fx(v: i64) -> (r: i64)
    requires
        1 <= v <= BOUND,
    ensures
        r == log2_fx_spec(v as int),
        -16 * ONE <= r <= 15 * ONE,
{
    proof {
        lemma_log2_fx_range(v as int);
    }
    let k: u32 = floor_log2_i64(v);
    proof {
        lemma_floor_log2_props(v as int);
        if k >= 31 {
            lemma_pow2_mono(31, k as nat);
            assert(pow2(31) == 2147483648) by {
                reveal_with_fuel(pow2, 32);
            }
        }
    }
    let norm: i64 = if k >= 16 {
        let p: u64 = pow2_u64(k - 16);
        let q: u64 = (v as u64) / p;
        proof {
            assert(q == v as int / pow2((k - 16) as nat));
            assert(ONE as int <= q < 2 * ONE as int);
        }
        q as i64
    } else {
        let p: u64 = pow2_u64(16 - k);
        proof {
            lemma_pow2_mono((16 - k) as nat, 16);
            assert(pow2(16) == 65536) by {
            reveal_with_fuel(pow2, 17);
        }
            assert(v as u64 * p <= BOUND as u64 * 65536) by (nonlinear_arith)
                requires
                    1 <= v as u64 <= BOUND as u64,
                    1 <= p <= 65536,
            ;
        }
        let q: u64 = (v as u64) * p;
        proof {
            assert(q == v as int * pow2((16 - k) as nat));
            assert(ONE as int <= q < 2 * ONE as int);
        }
        q as i64
    };
    proof {
        assert(norm == if k >= 16 {
            v as int / pow2((k - 16) as nat)
        } else {
            v as int * pow2((16 - k) as nat)
        });
        assert(ONE as int <= norm < 2 * ONE as int);
    }
    (k as i64 - 16) * ONE + (norm - ONE)
}

/// `2^k` as a `u64`, for `k <= 63`.
pub fn pow2_u64(k: u32) -> (r: u64)
    requires
        k <= 63,
    ensures
        r == pow2(k as nat),
        r >= 1,
{
    let mut i: u32 = 0;
    let mut p: u64 = 1;
    while i < k
        invariant
            i <= k <= 63,
            p == pow2(i as nat),
            1 <= p,
            p <= pow2(i as nat),
        decreases k - i,
    {
        proof {
            lemma_pow2_mono((i + 1) as nat, 63);
            lemma_pow2_le_max();
        }
        p = p * 2;
        i = i + 1;
    }
    p
}

pub proof fn lemma_pow2_le_max()
    ensures
        pow2(63) == 0x8000000000000000,
{
    assert(pow2(63) == 0x8000000000000000) by {
        reveal_with_fuel(pow2, 64);
    }
}

/// Clamp `x` into `[lo, hi]`.
pub fn clamp_i64(x: i64, lo: i64, hi: i64) -> (r: i64)
    requires
        lo <= hi,
    ensures
        r == clamp_spec(x as int, lo as int, hi as int),
{
    if x < lo {
        lo
    } else if x > hi {
        hi
    } else {
        x
    }
}

} // verus!
