//! Fixed-point quaternions and rigid rotation.
//!
//! A rotation is carried by a quaternion whose components are fixed-point
//! values; the identity is `(SCALE, 0, 0, 0)`. Applying a rotation multiplies
//! by the integer rotation matrix of the quaternion and divides by its
//! squared length, so any nonzero quaternion acts as the rotation of its
//! normalized form and no inversion can ever fail: the inverse rotation is
//! the conjugate's.

use crate::fixed::{abs_i, lemma_abs_mul, lemma_tdiv_bound, tdiv, tdiv_i128, QUAT_LIMIT, SCALE};
use crate::vec3::{v3_max_abs, Wide3, V3};
use vstd::prelude::*;

verus! {

/// Mathematical model of a quaternion: four unbounded integers.
pub ghost struct Q4 {
    pub w: int,
    pub x: int,
    pub y: int,
    pub z: int,
}

/// A fixed-point quaternion; `(SCALE, 0, 0, 0)` is the identity rotation.
#[derive(Clone, Copy, PartialEq, Eq, Structural, Debug)]
pub struct Quat {
    pub w: i64,
    pub x: i64,
    pub y: i64,
    pub z: i64,
}

impl View for Quat {
    type V = Q4;

    open spec fn view(&self) -> Q4 {
        Q4 { w: self.w as int, x: self.x as int, y: self.y as int, z: self.z as int }
    }
}

pub open spec fn q4_norm_sq(q: Q4) -> int {
    q.w * q.w + q.x * q.x + q.y * q.y + q.z * q.z
}

pub open spec fn q4_conj(q: Q4) -> Q4 {
    Q4 { w: q.w, x: -q.x, y: -q.y, z: -q.z }
}

/// A well-formed rotation: bounded components, not the zero quaternion.
pub open spec fn q4_wf(q: Q4) -> bool {
    abs_i(q.w) <= QUAT_LIMIT && abs_i(q.x) <= QUAT_LIMIT && abs_i(q.y) <= QUAT_LIMIT && abs_i(
        q.z,
    ) <= QUAT_LIMIT && !(q.w == 0 && q.x == 0 && q.y == 0 && q.z == 0)
}

/// A well-formed quaternion has squared length between one and four times
/// the squared component limit.
pub proof fn lemma_q4_wf_norm_sq(q: Q4)
    requires
        q4_wf(q),
    ensures
        1 <= q4_norm_sq(q),
        q4_norm_sq(q) <= 4 * (QUAT_LIMIT as int) * (QUAT_LIMIT as int),
{
    assert(1 <= q.w * q.w + q.x * q.x + q.y * q.y + q.z * q.z <= 4 * (QUAT_LIMIT as int) * (
    QUAT_LIMIT as int)) by (nonlinear_arith)
        requires
            abs_i(q.w) <= QUAT_LIMIT,
            abs_i(q.x) <= QUAT_LIMIT,
            abs_i(q.y) <= QUAT_LIMIT,
            abs_i(q.z) <= QUAT_LIMIT,
            !(q.w == 0 && q.x == 0 && q.y == 0 && q.z == 0),
            abs_i(q.w) == if q.w >= 0 {
                q.w
            } else {
                -q.w
            },
            abs_i(q.x) == if q.x >= 0 {
                q.x
            } else {
                -q.x
            },
            abs_i(q.y) == if q.y >= 0 {
                q.y
            } else {
                -q.y
            },
            abs_i(q.z) == if q.z >= 0 {
                q.z
            } else {
                -q.z
            },
    ;
}

/// Rotating a vector: multiply by the integer rotation matrix of the
/// quaternion and divide, truncating, by its squared length.
pub open spec fn spec_rotate(q: Q4, v: V3) -> V3 {
    let d = q4_norm_sq(q);
    let nx = (q.w * q.w + q.x * q.x - q.y * q.y - q.z * q.z) * v.x + 2 * (q.x * q.y - q.w * q.z)
        * v.y + 2 * (q.x * q.z + q.w * q.y) * v.z;
    let ny = 2 * (q.x * q.y + q.w * q.z) * v.x + (q.w * q.w - q.x * q.x + q.y * q.y - q.z * q.z)
        * v.y + 2 * (q.y * q.z - q.w * q.x) * v.z;
    let nz = 2 * (q.x * q.z - q.w * q.y) * v.x + 2 * (q.y * q.z + q.w * q.x) * v.y + (q.w * q.w
        - q.x * q.x - q.y * q.y + q.z * q.z) * v.z;
    V3 { x: tdiv(nx, d), y: tdiv(ny, d), z: tdiv(nz, d) }
}

/// The inverse rotation is the conjugate's rotation.
pub open spec fn spec_rotate_inv(q: Q4, v: V3) -> V3 {
    spec_rotate(q4_conj(q), v)
}

impl Quat {
    /// Builds the quaternion with the given fixed-point components.
    pub fn new(w: i64, x: i64, y: i64, z: i64) -> (q: Quat)
        ensures
            q@ == (Q4 { w: w as int, x: x as int, y: y as int, z: z as int }),
    {
        Quat { w, x, y, z }
    }

    /// The identity rotation.
    pub fn identity() -> (q: Quat)
        ensures
            q@ == (Q4 { w: SCALE as int, x: 0, y: 0, z: 0 }),
            q4_wf(q@),
    {
        Quat { w: SCALE, x: 0, y: 0, z: 0 }
    }
}

/// Every rotation-matrix entry is bounded by the squared quaternion length.
proof fn lemma_entry_bounds(w: int, x: int, y: int, z: int)
    ensures
        0 <= w * w && 0 <= x * x && 0 <= y * y && 0 <= z * z,
        -(w * w + x * x + y * y + z * z) <= 2 * (x * y - w * z) <= w * w + x * x + y * y + z * z,
        -(w * w + x * x + y * y + z * z) <= 2 * (x * y + w * z) <= w * w + x * x + y * y + z * z,
        -(w * w + x * x + y * y + z * z) <= 2 * (x * z - w * y) <= w * w + x * x + y * y + z * z,
        -(w * w + x * x + y * y + z * z) <= 2 * (x * z + w * y) <= w * w + x * x + y * y + z * z,
        -(w * w + x * x + y * y + z * z) <= 2 * (y * z - w * x) <= w * w + x * x + y * y + z * z,
        -(w * w + x * x + y * y + z * z) <= 2 * (y * z + w * x) <= w * w + x * x + y * y + z * z,
{
    assert((x - y) * (x - y) >= 0 && (x + y) * (x + y) >= 0 && (w - z) * (w - z) >= 0 && (w + z) * (
    w + z) >= 0 && (x - z) * (x - z) >= 0 && (x + z) * (x + z) >= 0 && (w - y) * (w - y) >= 0 && (w
        + y) * (w + y) >= 0 && (y - z) * (y - z) >= 0 && (y + z) * (y + z) >= 0 && (w - x) * (w - x)
        >= 0 && (w + x) * (w + x) >= 0 && 0 <= w * w && 0 <= x * x && 0 <= y * y && 0 <= z * z)
        by (nonlinear_arith);
    assert((x - y) * (x - y) == x * x - 2 * (x * y) + y * y) by (nonlinear_arith);
    assert((x + y) * (x + y) == x * x + 2 * (x * y) + y * y) by (nonlinear_arith);
    assert((w - z) * (w - z) == w * w - 2 * (w * z) + z * z) by (nonlinear_arith);
    assert((w + z) * (w + z) == w * w + 2 * (w * z) + z * z) by (nonlinear_arith);
    assert((x - z) * (x - z) == x * x - 2 * (x * z) + z * z) by (nonlinear_arith);
    assert((x + z) * (x + z) == x * x + 2 * (x * z) + z * z) by (nonlinear_arith);
    assert((w - y) * (w - y) == w * w - 2 * (w * y) + y * y) by (nonlinear_arith);
    assert((w + y) * (w + y) == w * w + 2 * (w * y) + y * y) by (nonlinear_arith);
    assert((y - z) * (y - z) == y * y - 2 * (y * z) + z * z) by (nonlinear_arith);
    assert((y + z) * (y + z) == y * y + 2 * (y * z) + z * z) by (nonlinear_arith);
    assert((w - x) * (w - x) == w * w - 2 * (w * x) + x * x) by (nonlinear_arith);
    assert((w + x) * (w + x) == w * w + 2 * (w * x) + x * x) by (nonlinear_arith);
}

/// Conjugation, for the inverse rotation.
pub(crate) fn quat_conj(q: &Quat) -> (r: Quat)
    requires
        q4_wf(q@),
    ensures
        r@ == q4_conj(q@),
        q4_wf(r@),
{
    Quat { w: q.w, x: -q.x, y: -q.y, z: -q.z }
}

/// Applies the rotation of `q` to `v`. The result's components grow by a
/// factor of at most three.
pub(crate) fn rotate(q: &Quat, v: &Wide3) -> (r: Wide3)
    requires
        q4_wf(q@),
        v3_max_abs(v@) <= 1_000_000_000,
    ensures
        r@ == spec_rotate(q@, v@),
        v3_max_abs(r@) <= 3 * v3_max_abs(v@),
{
    let w: i128 = q.w as i128;
    let x: i128 = q.x as i128;
    let y: i128 = q.y as i128;
    let z: i128 = q.z as i128;
    proof {
        lemma_q4_wf_norm_sq(q@);
        lemma_entry_bounds(w as int, x as int, y as int, z as int);
        lemma_abs_mul(w as int, w as int, QUAT_LIMIT as int, QUAT_LIMIT as int);
        lemma_abs_mul(x as int, x as int, QUAT_LIMIT as int, QUAT_LIMIT as int);
        lemma_abs_mul(y as int, y as int, QUAT_LIMIT as int, QUAT_LIMIT as int);
        lemma_abs_mul(z as int, z as int, QUAT_LIMIT as int, QUAT_LIMIT as int);
        lemma_abs_mul(x as int, y as int, QUAT_LIMIT as int, QUAT_LIMIT as int);
        lemma_abs_mul(x as int, z as int, QUAT_LIMIT as int, QUAT_LIMIT as int);
        lemma_abs_mul(y as int, z as int, QUAT_LIMIT as int, QUAT_LIMIT as int);
        lemma_abs_mul(w as int, x as int, QUAT_LIMIT as int, QUAT_LIMIT as int);
        lemma_abs_mul(w as int, y as int, QUAT_LIMIT as int, QUAT_LIMIT as int);
        lemma_abs_mul(w as int, z as int, QUAT_LIMIT as int, QUAT_LIMIT as int);
    }
    let d: i128 = w * w + x * x + y * y + z * z;
    let e11: i128 = w * w + x * x - y * y - z * z;
    let e12: i128 = 2 * (x * y - w * z);
    let e13: i128 = 2 * (x * z + w * y);
    let e21: i128 = 2 * (x * y + w * z);
    let e22: i128 = w * w - x * x + y * y - z * z;
    let e23: i128 = 2 * (y * z - w * x);
    let e31: i128 = 2 * (x * z - w * y);
    let e32: i128 = 2 * (y * z + w * x);
    let e33: i128 = w * w - x * x - y * y + z * z;
    let ghost mv = v3_max_abs(v@);
    proof {
        lemma_abs_mul(e11 as int, v@.x, d as int, mv);
        lemma_abs_mul(e12 as int, v@.y, d as int, mv);
        lemma_abs_mul(e13 as int, v@.z, d as int, mv);
        lemma_abs_mul(e21 as int, v@.x, d as int, mv);
        lemma_abs_mul(e22 as int, v@.y, d as int, mv);
        lemma_abs_mul(e23 as int, v@.z, d as int, mv);
        lemma_abs_mul(e31 as int, v@.x, d as int, mv);
        lemma_abs_mul(e32 as int, v@.y, d as int, mv);
        lemma_abs_mul(e33 as int, v@.z, d as int, mv);
        lemma_abs_mul(e11 as int, v@.x, 16_000_000_000_000, 1_000_000_000);
        lemma_abs_mul(e12 as int, v@.y, 16_000_000_000_000, 1_000_000_000);
        lemma_abs_mul(e13 as int, v@.z, 16_000_000_000_000, 1_000_000_000);
        lemma_abs_mul(e21 as int, v@.x, 16_000_000_000_000, 1_000_000_000);
        lemma_abs_mul(e22 as int, v@.y, 16_000_000_000_000, 1_000_000_000);
        lemma_abs_mul(e23 as int, v@.z, 16_000_000_000_000, 1_000_000_000);
        lemma_abs_mul(e31 as int, v@.x, 16_000_000_000_000, 1_000_000_000);
        lemma_abs_mul(e32 as int, v@.y, 16_000_000_000_000, 1_000_000_000);
        lemma_abs_mul(e33 as int, v@.z, 16_000_000_000_000, 1_000_000_000);
    }
    let nx: i128 = e11 * v.x + e12 * v.y + e13 * v.z;
    let ny: i128 = e21 * v.x + e22 * v.y + e23 * v.z;
    let nz: i128 = e31 * v.x + e32 * v.y + e33 * v.z;
    proof {
        assert(3 * (d as int * mv) == (3 * mv) * d) by (nonlinear_arith);
        lemma_tdiv_bound(nx as int, d as int, 3 * mv);
        lemma_tdiv_bound(ny as int, d as int, 3 * mv);
        lemma_tdiv_bound(nz as int, d as int, 3 * mv);
    }
    let rx: i128 = tdiv_i128(nx, d);
    let ry: i128 = tdiv_i128(ny, d);
    let rz: i128 = tdiv_i128(nz, d);
    Wide3 { x: rx, y: ry, z: rz }
}

} // verus!
