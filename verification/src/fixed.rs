//! Fixed-point scalar arithmetic.
//!
//! A coordinate is an integer number of thousandths of a unit: the constant
//! `SCALE` stands for one unit. All executable arithmetic is carried out on
//! wide (128-bit) intermediates and proved free of overflow; rounding is
//! always truncation toward zero, mirrored exactly by the spec functions
//! here.

use vstd::arithmetic::div_mod::{
    lemma_div_by_self, lemma_div_is_ordered, lemma_div_is_ordered_by_denominator,
    lemma_div_multiples_vanish, lemma_div_nonincreasing, lemma_div_pos_is_pos,
    lemma_fundamental_div_mod, lemma_mod_division_less_than_divisor,
};
use vstd::prelude::*;

verus! {

/// Number of fixed-point steps in one unit of length.
pub const SCALE: i64 = 1000;

/// Greatest magnitude allowed for a coordinate of a shape or a body.
pub const COORD_LIMIT: i64 = 50_000_000;

/// Greatest magnitude allowed for a quaternion component.
pub const QUAT_LIMIT: i64 = 2_000_000;

/// Greatest magnitude a support point can reach (loose bound, proved at the
/// shape queries).
pub const SUPPORT_LIMIT: i64 = 1_000_000_000;

/// Magnitude of a mathematical integer.
pub open spec fn abs_i(x: int) -> int {
    if x >= 0 {
        x
    } else {
        -x
    }
}

/// Division with truncation toward zero, the rounding of every executable
/// division in this crate. Meaningful for positive divisors.
pub open spec fn tdiv(x: int, d: int) -> int {
    if x >= 0 {
        x / d
    } else {
        -((-x) / d)
    }
}

/// Truncation toward zero never raises the magnitude and divides the bound.
pub proof fn lemma_tdiv_bound(x: int, d: int, c: int)
    requires
        d >= 1,
        c >= 0,
        abs_i(x) <= c * d,
    ensures
        abs_i(tdiv(x, d)) <= c,
{
    assert(c * d == d * c) by (nonlinear_arith);
    lemma_div_multiples_vanish(c, d);
    if x >= 0 {
        lemma_div_is_ordered(x, c * d, d);
        lemma_div_pos_is_pos(x, d);
    } else {
        lemma_div_is_ordered(-x, c * d, d);
        lemma_div_pos_is_pos(-x, d);
    }
}

/// The magnitude of a truncated quotient is at most the dividend's.
pub proof fn lemma_tdiv_le(x: int, d: int)
    requires
        d >= 1,
    ensures
        abs_i(tdiv(x, d)) <= abs_i(x),
{
    if x >= 0 {
        lemma_div_nonincreasing(x, d);
        lemma_div_pos_is_pos(x, d);
    } else {
        lemma_div_nonincreasing(-x, d);
        lemma_div_pos_is_pos(-x, d);
    }
}

/// Magnitude and truncated division commute.
pub proof fn lemma_tdiv_abs(x: int, d: int)
    requires
        d >= 1,
    ensures
        abs_i(tdiv(x, d)) == tdiv(abs_i(x), d),
{
    if x >= 0 {
        lemma_div_pos_is_pos(x, d);
    } else {
        lemma_div_pos_is_pos(-x, d);
    }
}

/// Truncated division is an odd function of its dividend.
pub proof fn lemma_tdiv_odd(x: int, d: int)
    requires
        d >= 1,
    ensures
        tdiv(-x, d) == -tdiv(x, d),
{
}

/// Executable truncated division on wide integers.
pub fn tdiv_i128(x: i128, d: i128) -> (r: i128)
    requires
        d >= 1,
        x > i128::MIN,
    ensures
        r == tdiv(x as int, d as int),
{
    proof {
        lemma_tdiv_le(x as int, d as int);
    }
    let q: Option<i128> = x.checked_div(d);
    match q {
        Some(r) => r,
        None => {
            proof {
                assert(false);
            }
            0
        },
    }
}

/// The integer square root, by counting up: the greatest `r` with
/// `r * r <= n`.
pub open spec fn isqrt_spec(n: nat) -> nat
    decreases n,
{
    if n == 0 {
        0
    } else {
        let p = isqrt_spec((n - 1) as nat) as int;
        if (p + 1) * (p + 1) <= n as int {
            (p + 1) as nat
        } else {
            p as nat
        }
    }
}

/// The defining sandwich of the integer square root.
pub proof fn lemma_isqrt_props(n: nat)
    ensures
        (isqrt_spec(n) as int) * (isqrt_spec(n) as int) <= n as int,
        (n as int) < (isqrt_spec(n) as int + 1) * (isqrt_spec(n) as int + 1),
    decreases n,
{
    if n == 0 {
        assert(isqrt_spec(n) == 0);
    } else {
        lemma_isqrt_props((n - 1) as nat);
        let p = isqrt_spec((n - 1) as nat) as int;
        assert(p * p <= n - 1);
        assert(n - 1 < (p + 1) * (p + 1));
        let q = isqrt_spec(n) as int;
        if (p + 1) * (p + 1) <= n {
            assert(q == p + 1);
            assert(n < (q + 1) * (q + 1)) by (nonlinear_arith)
                requires
                    n - 1 < (p + 1) * (p + 1),
                    q == p + 1,
                    p >= 0,
            ;
        } else {
            assert(q == p);
        }
        assert((isqrt_spec(n) as int) * (isqrt_spec(n) as int) <= n as int);
        assert((n as int) < (isqrt_spec(n) as int + 1) * (isqrt_spec(n) as int + 1));
    }
}

/// Any value satisfying the sandwich is the integer square root.
pub proof fn lemma_isqrt_unique(n: nat, r: nat)
    requires
        (r as int) * (r as int) <= n as int,
        (n as int) < (r as int + 1) * (r as int + 1),
    ensures
        r == isqrt_spec(n),
{
    lemma_isqrt_props(n);
    let s = isqrt_spec(n) as int;
    let ri = r as int;
    assert(ri == s) by (nonlinear_arith)
        requires
            ri * ri <= n,
            n < (ri + 1) * (ri + 1),
            s * s <= n,
            n < (s + 1) * (s + 1),
            ri >= 0,
            s >= 0,
    ;
}

/// Executable integer square root for the small operands that direction
/// normalization produces.
pub fn isqrt_u64(n: u64) -> (r: u64)
    requires
        n <= 3_000_000,
    ensures
        r == isqrt_spec(n as nat),
{
    let mut r: u64 = 0;
    loop
        invariant_except_break
            n <= 3_000_000,
            r * r <= n,
            r <= 2_000,
        ensures
            r * r <= n,
            n < (r + 1) * (r + 1),
        decreases n - r,
    {
        let next: u64 = r + 1;
        proof {
            assert(next * next <= 4_004_001) by (nonlinear_arith)
                requires
                    next <= 2_001,
                    next >= 0,
            ;
        }
        let sq: u64 = next * next;
        if sq > n {
            break;
        }
        proof {
            assert(r < n && next <= 2_000) by (nonlinear_arith)
                requires
                    (r + 1) * (r + 1) <= n,
                    n <= 3_000_000,
                    r >= 0,
                    next == r + 1,
            ;
        }
        r = next;
    }
    proof {
        lemma_isqrt_unique(n as nat, r as nat);
    }
    r
}

/// Fixed-point multiplication: the product, scaled back down.
pub open spec fn fmul(a: int, b: int) -> int {
    tdiv(a * b, SCALE as int)
}

/// Fixed-point division: the dividend, scaled up before dividing.
pub open spec fn fdiv(a: int, b: int) -> int {
    tdiv(a * (SCALE as int), b)
}

/// A quotient of a larger nonnegative value by a smaller positive one is at
/// least one.
pub proof fn lemma_div_at_least_one(x: int, d: int)
    requires
        1 <= d <= x,
    ensures
        x / d >= 1,
{
    lemma_div_by_self(d);
    lemma_div_is_ordered(d, x, d);
}

/// Every nonnegative value sits under the next multiple of the divisor.
pub proof fn lemma_next_multiple(m: int, s: int)
    requires
        m >= 0,
        s >= 1,
    ensures
        m < (m / s + 1) * s,
{
    lemma_fundamental_div_mod(m, s);
    lemma_mod_division_less_than_divisor(m, s);
    assert((m / s + 1) * s == s * (m / s) + s) by (nonlinear_arith);
}

/// Dividing by a thousand leaves room below the dividend.
pub proof fn lemma_div_small_shrinks(m: int)
    requires
        m >= 1,
    ensures
        m / (SCALE as int) + 1 <= m,
{
    if m < SCALE {
        assert(m / (SCALE as int) == 0) by {
            vstd::arithmetic::div_mod::lemma_basic_div(m, SCALE as int);
        }
    } else {
        lemma_div_is_ordered_by_denominator(m, 2, SCALE as int);
        assert(m / 2 <= m - 1);
    }
}

/// Comparing squares of nonnegative values compares the values.
pub proof fn lemma_sq_lt(a: int, b: int)
    requires
        a >= 0,
        b >= 0,
        a * a < b * b,
    ensures
        a < b,
{
    assert(a < b) by (nonlinear_arith)
        requires
            a >= 0,
            b >= 0,
            a * a < b * b,
    ;
}

/// Multiplying nonnegative values respects their bounds.
pub proof fn lemma_mul_le(a: int, b: int, ca: int, cb: int)
    requires
        0 <= a <= ca,
        0 <= b <= cb,
    ensures
        a * b <= ca * cb,
{
    assert(a * b <= ca * cb) by (nonlinear_arith)
        requires
            0 <= a <= ca,
            0 <= b <= cb,
    ;
}

/// The magnitude of the product of two bounded factors is bounded by the
/// product of the bounds.
pub proof fn lemma_abs_mul(a: int, b: int, ma: int, mb: int)
    requires
        abs_i(a) <= ma,
        abs_i(b) <= mb,
    ensures
        abs_i(a * b) <= ma * mb,
{
    assert(abs_i(a * b) <= ma * mb) by (nonlinear_arith)
        requires
            abs_i(a) <= ma,
            abs_i(b) <= mb,
    ;
}

} // verus!
