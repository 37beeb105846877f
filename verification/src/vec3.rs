//! Three-component vectors in fixed-point coordinates.
//!
//! `Vec3` is the public value type; its mathematical view is `V3`, a triple
//! of unbounded integers. Internal computations (cross products and the
//! like) run on 128-bit `Wide3` vectors so that no intermediate overflows,
//! and each executable operation is proved equal to its spec twin.

use crate::fixed::{
    abs_i, isqrt_spec, isqrt_u64, lemma_abs_mul, lemma_div_at_least_one, lemma_div_small_shrinks,
    lemma_next_multiple, lemma_sq_lt, lemma_tdiv_abs, lemma_tdiv_bound, tdiv, tdiv_i128, SCALE,
};
use vstd::prelude::*;

verus! {

/// Mathematical model of a vector: three unbounded integers.
pub ghost struct V3 {
    pub x: int,
    pub y: int,
    pub z: int,
}

/// A fixed-point vector; a component of `SCALE` stands for one unit.
#[derive(Clone, Copy, PartialEq, Eq, Structural, Debug)]
pub struct Vec3 {
    pub x: i64,
    pub y: i64,
    pub z: i64,
}

impl View for Vec3 {
    type V = V3;

    open spec fn view(&self) -> V3 {
        V3 { x: self.x as int, y: self.y as int, z: self.z as int }
    }
}

/// Wide intermediate vector for overflow-free internal arithmetic.
#[derive(Clone, Copy)]
pub(crate) struct Wide3 {
    pub(crate) x: i128,
    pub(crate) y: i128,
    pub(crate) z: i128,
}

impl View for Wide3 {
    type V = V3;

    open(crate) spec fn view(&self) -> V3 {
        V3 { x: self.x as int, y: self.y as int, z: self.z as int }
    }
}

pub open spec fn v3_zero() -> V3 {
    V3 { x: 0, y: 0, z: 0 }
}

pub open spec fn v3_is_zero(v: V3) -> bool {
    v.x == 0 && v.y == 0 && v.z == 0
}

pub open spec fn v3_add(a: V3, b: V3) -> V3 {
    V3 { x: a.x + b.x, y: a.y + b.y, z: a.z + b.z }
}

pub open spec fn v3_sub(a: V3, b: V3) -> V3 {
    V3 { x: a.x - b.x, y: a.y - b.y, z: a.z - b.z }
}

pub open spec fn v3_neg(a: V3) -> V3 {
    V3 { x: -a.x, y: -a.y, z: -a.z }
}

pub open spec fn v3_dot(a: V3, b: V3) -> int {
    a.x * b.x + a.y * b.y + a.z * b.z
}

pub open spec fn v3_cross(a: V3, b: V3) -> V3 {
    V3 {
        x: a.y * b.z - a.z * b.y,
        y: a.z * b.x - a.x * b.z,
        z: a.x * b.y - a.y * b.x,
    }
}

pub open spec fn max3(a: int, b: int, c: int) -> int {
    if a >= b && a >= c {
        a
    } else if b >= c {
        b
    } else {
        c
    }
}

/// Largest component magnitude of a vector.
pub open spec fn v3_max_abs(v: V3) -> int {
    max3(abs_i(v.x), abs_i(v.y), abs_i(v.z))
}

/// The normalize-or-zero policy: the zero vector stays zero; any other
/// vector is scaled to length close to `SCALE`. The vector is first brought
/// into a small range by an integer division, then scaled by `SCALE` over
/// its integer length; every rounding is truncation toward zero.
pub open spec fn spec_norm(v: V3) -> V3 {
    if v3_is_zero(v) {
        v
    } else {
        let m = v3_max_abs(v);
        let k = m / (SCALE as int) + 1;
        let sx = tdiv(v.x, k);
        let sy = tdiv(v.y, k);
        let sz = tdiv(v.z, k);
        let l = isqrt_spec((sx * sx + sy * sy + sz * sz) as nat) as int;
        V3 {
            x: tdiv(sx * (SCALE as int), l),
            y: tdiv(sy * (SCALE as int), l),
            z: tdiv(sz * (SCALE as int), l),
        }
    }
}

impl Vec3 {
    /// Builds the vector with the given fixed-point components.
    pub fn new(x: i64, y: i64, z: i64) -> (v: Vec3)
        ensures
            v@ == (V3 { x: x as int, y: y as int, z: z as int }),
    {
        Vec3 { x, y, z }
    }
}

pub(crate) fn wide3_of(v: &Vec3) -> (w: Wide3)
    ensures
        w@ == v@,
{
    Wide3 { x: v.x as i128, y: v.y as i128, z: v.z as i128 }
}

pub(crate) fn narrow3(w: &Wide3) -> (v: Vec3)
    requires
        v3_max_abs(w@) <= i64::MAX as int,
    ensures
        v@ == w@,
{
    Vec3 { x: w.x as i64, y: w.y as i64, z: w.z as i64 }
}

/// Bound under which `Wide3` sums and differences cannot overflow.
pub(crate) open(crate) spec fn w3_fits_linear(m: int) -> bool {
    0 <= m <= 0x2000_0000_0000_0000_0000_0000_0000_0000int
}

pub(crate) fn w3_add(a: &Wide3, b: &Wide3) -> (r: Wide3)
    requires
        w3_fits_linear(v3_max_abs(a@)),
        w3_fits_linear(v3_max_abs(b@)),
    ensures
        r@ == v3_add(a@, b@),
        v3_max_abs(r@) <= v3_max_abs(a@) + v3_max_abs(b@),
{
    Wide3 { x: a.x + b.x, y: a.y + b.y, z: a.z + b.z }
}

pub(crate) fn w3_sub(a: &Wide3, b: &Wide3) -> (r: Wide3)
    requires
        w3_fits_linear(v3_max_abs(a@)),
        w3_fits_linear(v3_max_abs(b@)),
    ensures
        r@ == v3_sub(a@, b@),
        v3_max_abs(r@) <= v3_max_abs(a@) + v3_max_abs(b@),
{
    Wide3 { x: a.x - b.x, y: a.y - b.y, z: a.z - b.z }
}

pub(crate) fn w3_neg(a: &Wide3) -> (r: Wide3)
    requires
        w3_fits_linear(v3_max_abs(a@)),
    ensures
        r@ == v3_neg(a@),
        v3_max_abs(r@) == v3_max_abs(a@),
{
    Wide3 { x: -a.x, y: -a.y, z: -a.z }
}

/// The scalar product; the bound precondition keeps every partial sum inside
/// 128 bits.
pub(crate) fn w3_dot(a: &Wide3, b: &Wide3) -> (r: i128)
    requires
        v3_max_abs(a@) * v3_max_abs(b@)
            <= 40_000_000_000_000_000_000_000_000_000_000_000_000int,
    ensures
        r == v3_dot(a@, b@),
{
    proof {
        let ma = v3_max_abs(a@);
        let mb = v3_max_abs(b@);
        lemma_abs_mul(a@.x, b@.x, ma, mb);
        lemma_abs_mul(a@.y, b@.y, ma, mb);
        lemma_abs_mul(a@.z, b@.z, ma, mb);
    }
    a.x * b.x + a.y * b.y + a.z * b.z
}

/// The cross product, with the same style of bound.
pub(crate) fn w3_cross(a: &Wide3, b: &Wide3) -> (r: Wide3)
    requires
        v3_max_abs(a@) * v3_max_abs(b@) <= 0x1000_0000_0000_0000_0000_0000_0000_0000int,
    ensures
        r@ == v3_cross(a@, b@),
        v3_max_abs(r@) <= 2 * (v3_max_abs(a@) * v3_max_abs(b@)),
{
    proof {
        let ma = v3_max_abs(a@);
        let mb = v3_max_abs(b@);
        lemma_abs_mul(a@.x, b@.y, ma, mb);
        lemma_abs_mul(a@.x, b@.z, ma, mb);
        lemma_abs_mul(a@.y, b@.x, ma, mb);
        lemma_abs_mul(a@.y, b@.z, ma, mb);
        lemma_abs_mul(a@.z, b@.x, ma, mb);
        lemma_abs_mul(a@.z, b@.y, ma, mb);
    }
    Wide3 {
        x: a.y * b.z - a.z * b.y,
        y: a.z * b.x - a.x * b.z,
        z: a.x * b.y - a.y * b.x,
    }
}

pub(crate) fn w3_max_abs(a: &Wide3) -> (r: i128)
    requires
        a.x > i128::MIN,
        a.y > i128::MIN,
        a.z > i128::MIN,
    ensures
        r == v3_max_abs(a@),
{
    let ax: i128 = if a.x < 0 { -a.x } else { a.x };
    let ay: i128 = if a.y < 0 { -a.y } else { a.y };
    let az: i128 = if a.z < 0 { -a.z } else { a.z };
    if ax >= ay && ax >= az {
        ax
    } else if ay >= az {
        ay
    } else {
        az
    }
}

/// After the first division of the normalize-or-zero policy, a nonzero
/// vector still has a nonzero component, so its squared length is positive.
pub proof fn lemma_norm_scaled_nonzero(v: V3)
    requires
        !v3_is_zero(v),
    ensures
        ({
            let m = v3_max_abs(v);
            let k = m / (SCALE as int) + 1;
            tdiv(v.x, k) * tdiv(v.x, k) + tdiv(v.y, k) * tdiv(v.y, k) + tdiv(v.z, k) * tdiv(
                v.z,
                k,
            ) >= 1
        }),
{
    let m = v3_max_abs(v);
    let k = m / (SCALE as int) + 1;
    assert(m >= 1);
    vstd::arithmetic::div_mod::lemma_div_pos_is_pos(m, SCALE as int);
    lemma_div_small_shrinks(m);
    lemma_div_at_least_one(m, k);
    lemma_tdiv_abs(v.x, k);
    lemma_tdiv_abs(v.y, k);
    lemma_tdiv_abs(v.z, k);
    let sx = tdiv(v.x, k);
    let sy = tdiv(v.y, k);
    let sz = tdiv(v.z, k);
    assert(abs_i(sx) >= 1 || abs_i(sy) >= 1 || abs_i(sz) >= 1);
    assert(sx * sx + sy * sy + sz * sz >= 1) by (nonlinear_arith)
        requires
            sx >= 1 || sx <= -1 || sy >= 1 || sy <= -1 || sz >= 1 || sz <= -1,
    ;
}

/// Bound accepted by `normalize_or_zero`; covers every value the collision
/// engine ever normalizes.
pub open spec fn norm_input_ok(v: V3) -> bool {
    v3_max_abs(v) <= 0x1_0000_0000_0000_0000_0000_0000_0000int
}

/// Normalize-or-zero on a wide vector; the result always fits in `Vec3`
/// with components no larger than `SCALE`.
pub(crate) fn normalize_or_zero(v: &Wide3) -> (r: Vec3)
    requires
        norm_input_ok(v@),
    ensures
        r@ == spec_norm(v@),
        v3_max_abs(r@) <= SCALE as int,
{
    if v.x == 0 && v.y == 0 && v.z == 0 {
        let r = Vec3 { x: 0, y: 0, z: 0 };
        assert(r@ == spec_norm(v@));
        r
    } else {
        let m: i128 = w3_max_abs(v);
        assert(m >= 1);
        let k: i128 = tdiv_i128(m, SCALE as i128) + 1;
        assert(k == (m as int) / (SCALE as int) + 1);
        proof {
            lemma_next_multiple(m as int, SCALE as int);
            lemma_tdiv_bound(v@.x, k as int, SCALE as int);
            lemma_tdiv_bound(v@.y, k as int, SCALE as int);
            lemma_tdiv_bound(v@.z, k as int, SCALE as int);
        }
        let sx: i128 = tdiv_i128(v.x, k);
        let sy: i128 = tdiv_i128(v.y, k);
        let sz: i128 = tdiv_i128(v.z, k);
        proof {
            lemma_abs_mul(sx as int, sx as int, SCALE as int, SCALE as int);
            lemma_abs_mul(sy as int, sy as int, SCALE as int, SCALE as int);
            lemma_abs_mul(sz as int, sz as int, SCALE as int, SCALE as int);
            assert(sx * sx >= 0 && sy * sy >= 0 && sz * sz >= 0) by (nonlinear_arith);
            lemma_div_small_shrinks(m as int);
            lemma_div_at_least_one(m as int, k as int);
        }
        let sumsq: i128 = sx * sx + sy * sy + sz * sz;
        proof {
            // The component that realizes the maximum keeps magnitude at
            // least one after the first division, so the length is positive.
            let m0 = v3_max_abs((Wide3 { x: sx, y: sy, z: sz })@);
            lemma_tdiv_abs(v@.x, k as int);
            lemma_tdiv_abs(v@.y, k as int);
            lemma_tdiv_abs(v@.z, k as int);
            assert(m0 >= tdiv(m as int, k as int));
            assert(m0 >= 1);
            assert(m0 == sx || m0 == -(sx as int) || m0 == sy || m0 == -(sy as int) || m0 == sz
                || m0 == -(sz as int));
            assert(sumsq >= m0 * m0) by (nonlinear_arith)
                requires
                    sumsq == sx * sx + sy * sy + sz * sz,
                    (m0 == sx || m0 == -(sx as int) || m0 == sy || m0 == -(sy as int) || m0 == sz
                        || m0 == -(sz as int)),
            ;
            assert(sumsq >= 1) by (nonlinear_arith)
                requires
                    sumsq >= m0 * m0,
                    m0 >= 1,
            ;
        }
        let l: i128 = isqrt_u64(sumsq as u64) as i128;
        proof {
            crate::fixed::lemma_isqrt_props(sumsq as nat);
            assert(l >= 1) by (nonlinear_arith)
                requires
                    sumsq >= 1,
                    l >= 0,
                    sumsq < (l as int + 1) * (l as int + 1),
            ;
            // The length bounds each component, so the scaled result stays
            // within SCALE.
            let m0 = v3_max_abs((Wide3 { x: sx, y: sy, z: sz })@);
            assert(m0 * m0 <= sumsq);
            assert(m0 < l + 1) by {
                lemma_sq_lt(m0, l as int + 1);
            }
            lemma_abs_mul(sx as int, SCALE as int, m0, SCALE as int);
            lemma_abs_mul(sy as int, SCALE as int, m0, SCALE as int);
            lemma_abs_mul(sz as int, SCALE as int, m0, SCALE as int);
            assert(m0 * (SCALE as int) <= (SCALE as int) * (l as int)) by (nonlinear_arith)
                requires
                    m0 <= l,
                    l >= 1,
            ;
            lemma_tdiv_bound(sx as int * (SCALE as int), l as int, SCALE as int);
            lemma_tdiv_bound(sy as int * (SCALE as int), l as int, SCALE as int);
            lemma_tdiv_bound(sz as int * (SCALE as int), l as int, SCALE as int);
        }
        let rx: i128 = tdiv_i128(sx * (SCALE as i128), l);
        let ry: i128 = tdiv_i128(sy * (SCALE as i128), l);
        let rz: i128 = tdiv_i128(sz * (SCALE as i128), l);
        Vec3 { x: rx as i64, y: ry as i64, z: rz as i64 }
    }
}

} // verus!
