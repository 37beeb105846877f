//! The GJK intersection test.
//!
//! Two convex shapes intersect exactly when the origin lies in their
//! Minkowski difference. The engine walks that difference through its
//! support function, growing a simplex of at most four points and steering
//! the search direction toward the origin; it reports `true` when a simplex
//! encloses the origin (or touches it), `false` as soon as a separating
//! direction appears, and `false`, conservatively, when the iteration cap
//! runs out. Search directions are held in normalize-or-zero form at every
//! step, which also keeps every intermediate product within bounds. The
//! executable engine is proved to return exactly `spec_gjk` of its two
//! shapes.

use crate::fixed::{lemma_mul_le, SCALE, SUPPORT_LIMIT};
use crate::shapes::{collider_wf, furthest_limit, spec_center, spec_furthest, Collider};
use crate::vec3::{
    normalize_or_zero, spec_norm, v3_cross, v3_dot, v3_is_zero, v3_max_abs, v3_neg, v3_sub, w3_cross,
    w3_dot, w3_neg, w3_sub, wide3_of, Vec3, V3,
};
use vstd::prelude::*;

verus! {

/// The cap on GJK iterations: a safety bound against numerical cycling, not
/// a correctness requirement.
pub const MAX_ITERATIONS: usize = 100;

/// Two vectors point the same way when their scalar product is positive.
pub open spec fn same_dir(a: V3, b: V3) -> bool {
    v3_dot(a, b) > 0
}

/// A support point of the Minkowski difference of two shapes, along `d`.
pub open spec fn spec_support(c1: Collider, c2: Collider, d: V3) -> V3 {
    v3_sub(spec_furthest(c1, d), spec_furthest(c2, v3_neg(d)))
}

/// The mathematical view of a stored simplex.
pub open spec fn seq_views(s: Seq<Vec3>) -> Seq<V3> {
    s.map_values(|v: Vec3| v@)
}

/// All points of a simplex bounded in magnitude.
pub open spec fn pts_bounded(s: Seq<V3>, m: int) -> bool {
    forall|i: int| 0 <= i < s.len() ==> v3_max_abs(#[trigger] s[i]) <= m
}

/// One evolution step on a two-point simplex `{A(newest), B}`. If the origin
/// lies beyond `A` toward `B`, the new direction is perpendicular to the
/// segment, toward the origin; otherwise only `A` is kept and the search
/// turns straight toward the origin. A zero direction here means the origin
/// sits on the segment: enclosed.
pub open spec fn spec_do_line(s: Seq<V3>, d: V3) -> (Seq<V3>, V3, bool) {
    let a = s[0];
    let b = s[1];
    let ab = v3_sub(b, a);
    let ao = v3_neg(a);
    if same_dir(ab, ao) {
        let nd = spec_norm(v3_cross(v3_cross(ab, ao), ab));
        (s, nd, v3_is_zero(nd))
    } else {
        let nd = spec_norm(ao);
        (seq![a], nd, v3_is_zero(nd))
    }
}

/// One evolution step on a three-point simplex `{A(newest), B, C}`. The
/// origin is tested against the edge regions of `AC` and `AB` and against
/// the triangle plane; an exactly coplanar origin inside the triangle counts
/// as enclosed.
pub open spec fn spec_do_triangle(s: Seq<V3>, d: V3) -> (Seq<V3>, V3, bool) {
    let a = s[0];
    let b = s[1];
    let c = s[2];
    let ab = v3_sub(b, a);
    let ac = v3_sub(c, a);
    let ao = v3_neg(a);
    let abc = v3_cross(ab, ac);
    if same_dir(v3_cross(abc, ac), ao) {
        if same_dir(ac, ao) {
            (seq![a, c], spec_norm(v3_cross(v3_cross(ac, ao), ac)), false)
        } else {
            spec_do_line(seq![a, b], d)
        }
    } else {
        if same_dir(v3_cross(ab, abc), ao) {
            spec_do_line(seq![a, b], d)
        } else if v3_dot(abc, ao) == 0 {
            (s, d, true)
        } else if same_dir(abc, ao) {
            (s, spec_norm(abc), false)
        } else {
            (seq![a, c, b], spec_norm(v3_neg(abc)), false)
        }
    }
}

/// One evolution step on a four-point simplex `{A(newest), B, C, D}`: test
/// the three faces incident to `A`; if the origin is outside one, reduce to
/// that face, else the tetrahedron encloses the origin.
pub open spec fn spec_do_tetrahedron(s: Seq<V3>, d: V3) -> (Seq<V3>, V3, bool) {
    let a = s[0];
    let b = s[1];
    let c = s[2];
    let dd = s[3];
    let ab = v3_sub(b, a);
    let ac = v3_sub(c, a);
    let ad = v3_sub(dd, a);
    let ao = v3_neg(a);
    let abc = v3_cross(ab, ac);
    let acd = v3_cross(ac, ad);
    let adb = v3_cross(ad, ab);
    if same_dir(abc, ao) {
        spec_do_triangle(seq![a, b, c], d)
    } else if same_dir(acd, ao) {
        spec_do_triangle(seq![a, c, dd], d)
    } else if same_dir(adb, ao) {
        spec_do_triangle(seq![a, dd, b], d)
    } else {
        (s, d, true)
    }
}

/// The evolution step for the current simplex size.
pub open spec fn spec_next(s: Seq<V3>, d: V3) -> (Seq<V3>, V3, bool) {
    if s.len() == 2 {
        spec_do_line(s, d)
    } else if s.len() == 3 {
        spec_do_triangle(s, d)
    } else if s.len() == 4 {
        spec_do_tetrahedron(s, d)
    } else {
        (s, d, false)
    }
}

/// The GJK loop with `fuel` iterations left: take a support point along the
/// current direction; if it cannot pass the origin, a separating direction
/// was found; otherwise grow the simplex and evolve it. Exhausted fuel means
/// `false`, the conservative default.
pub open spec fn spec_gjk_loop(c1: Collider, c2: Collider, s: Seq<V3>, d: V3, fuel: nat) -> bool
    decreases fuel,
{
    if fuel == 0 {
        false
    } else {
        let sup = spec_support(c1, c2, d);
        if !same_dir(sup, d) {
            false
        } else {
            let grown = seq![sup] + s;
            let step = spec_next(grown, d);
            if step.2 {
                true
            } else {
                spec_gjk_loop(c1, c2, step.0, step.1, (fuel - 1) as nat)
            }
        }
    }
}

/// The whole intersection test: seed the simplex with a support point along
/// the line between the centers, then loop up to `MAX_ITERATIONS` times.
pub open spec fn spec_gjk(c1: Collider, c2: Collider) -> bool {
    let d0 = spec_norm(v3_sub(spec_center(c2), spec_center(c1)));
    let sup0 = spec_support(c1, c2, d0);
    let d1 = spec_norm(v3_neg(sup0));
    spec_gjk_loop(c1, c2, seq![sup0], d1, MAX_ITERATIONS as nat)
}

/// Whether the very first loop iteration of the intersection test finds a
/// separating direction: the first support point taken toward the origin
/// fails to pass it.
pub open spec fn spec_gjk_first_rejects(c1: Collider, c2: Collider) -> bool {
    let d0 = spec_norm(v3_sub(spec_center(c2), spec_center(c1)));
    let sup0 = spec_support(c1, c2, d0);
    let d1 = spec_norm(v3_neg(sup0));
    let sup1 = spec_support(c1, c2, d1);
    !same_dir(sup1, d1)
}

/// Whether two colliders intersect, decided by GJK on their support
/// functions; shape-agnostic.
pub fn collision(collider1: &Collider, collider2: &Collider) -> (r: bool)
    requires
        collider_wf(*collider1),
        collider_wf(*collider2),
    ensures
        r == spec_gjk(*collider1, *collider2),
{
    gjk_collision(collider1, collider2)
}

fn same_direction(a: &Vec3, b: &Vec3) -> (r: bool)
    requires
        v3_max_abs(a@) <= SUPPORT_LIMIT as int,
        v3_max_abs(b@) <= SUPPORT_LIMIT as int,
    ensures
        r == same_dir(a@, b@),
{
    proof {
        lemma_mul_le(
            v3_max_abs(a@),
            v3_max_abs(b@),
            SUPPORT_LIMIT as int,
            SUPPORT_LIMIT as int,
        );
    }
    let d = w3_dot(&wide3_of(a), &wide3_of(b));
    d > 0
}

fn support(a: &Collider, b: &Collider, direction: Vec3) -> (r: Vec3)
    requires
        collider_wf(*a),
        collider_wf(*b),
        v3_max_abs(direction@) <= SCALE as int,
    ensures
        r@ == spec_support(*a, *b, direction@),
        v3_max_abs(r@) <= 2 * furthest_limit(),
{
    let fa = a.furthest_point(direction);
    let nd = Vec3 { x: -direction.x, y: -direction.y, z: -direction.z };
    let fb = b.furthest_point(nd);
    Vec3 { x: fa.x - fb.x, y: fa.y - fb.y, z: fa.z - fb.z }
}

fn is_zero_vec(v: &Vec3) -> (r: bool)
    ensures
        r == v3_is_zero(v@),
{
    v.x == 0 && v.y == 0 && v.z == 0
}

fn do_line(simplex: &mut Vec<Vec3>, direction: &mut Vec3) -> (enclosed: bool)
    requires
        old(simplex)@.len() == 2,
        pts_bounded(seq_views(old(simplex)@), SUPPORT_LIMIT as int),
    ensures
        seq_views(final(simplex)@) == spec_do_line(
            seq_views(old(simplex)@),
            old(direction)@,
        ).0,
        final(direction)@ == spec_do_line(seq_views(old(simplex)@), old(direction)@).1,
        enclosed == spec_do_line(seq_views(old(simplex)@), old(direction)@).2,
        1 <= final(simplex)@.len() <= 2,
        pts_bounded(seq_views(final(simplex)@), SUPPORT_LIMIT as int),
        v3_max_abs(final(direction)@) <= SCALE as int,
{
    let ghost s0 = seq_views(old(simplex)@);
    let a = simplex[0];
    let b = simplex[1];
    proof {
        assert(s0[0] == a@ && s0[1] == b@);
    }
    let aw = wide3_of(&a);
    let bw = wide3_of(&b);
    let ab = w3_sub(&bw, &aw);
    let ao = w3_neg(&aw);
    proof {
        lemma_mul_le(
            v3_max_abs(ab@),
            v3_max_abs(ao@),
            2 * (SUPPORT_LIMIT as int),
            SUPPORT_LIMIT as int,
        );
    }
    let d = w3_dot(&ab, &ao);
    if d > 0 {
        let c1 = w3_cross(&ab, &ao);
        proof {
            lemma_mul_le(
                v3_max_abs(c1@),
                v3_max_abs(ab@),
                4_000_000_000_000_000_000,
                2 * (SUPPORT_LIMIT as int),
            );
        }
        let c2 = w3_cross(&c1, &ab);
        *direction = normalize_or_zero(&c2);
        is_zero_vec(direction)
    } else {
        simplex.pop();
        proof {
            assert(seq_views(simplex@) =~= seq![s0[0]]);
        }
        *direction = normalize_or_zero(&ao);
        is_zero_vec(direction)
    }
}

fn do_triangle(simplex: &mut Vec<Vec3>, direction: &mut Vec3) -> (enclosed: bool)
    requires
        old(simplex)@.len() == 3,
        pts_bounded(seq_views(old(simplex)@), SUPPORT_LIMIT as int),
        v3_max_abs(old(direction)@) <= SCALE as int,
    ensures
        seq_views(final(simplex)@) == spec_do_triangle(
            seq_views(old(simplex)@),
            old(direction)@,
        ).0,
        final(direction)@ == spec_do_triangle(seq_views(old(simplex)@), old(direction)@).1,
        enclosed == spec_do_triangle(seq_views(old(simplex)@), old(direction)@).2,
        1 <= final(simplex)@.len() <= 3,
        pts_bounded(seq_views(final(simplex)@), SUPPORT_LIMIT as int),
        v3_max_abs(final(direction)@) <= SCALE as int,
{
    let ghost s0 = seq_views(old(simplex)@);
    let a = simplex[0];
    let b = simplex[1];
    let c = simplex[2];
    proof {
        assert(s0[0] == a@ && s0[1] == b@ && s0[2] == c@);
    }
    let aw = wide3_of(&a);
    let bw = wide3_of(&b);
    let cw = wide3_of(&c);
    let ab = w3_sub(&bw, &aw);
    let ac = w3_sub(&cw, &aw);
    let ao = w3_neg(&aw);
    proof {
        lemma_mul_le(
            v3_max_abs(ab@),
            v3_max_abs(ac@),
            2 * (SUPPORT_LIMIT as int),
            2 * (SUPPORT_LIMIT as int),
        );
    }
    let abc = w3_cross(&ab, &ac);
    proof {
        lemma_mul_le(
            v3_max_abs(abc@),
            v3_max_abs(ac@),
            8_000_000_000_000_000_000,
            2 * (SUPPORT_LIMIT as int),
        );
        lemma_mul_le(
            v3_max_abs(ab@),
            v3_max_abs(abc@),
            2 * (SUPPORT_LIMIT as int),
            8_000_000_000_000_000_000,
        );
    }
    let abc_ac = w3_cross(&abc, &ac);
    proof {
        lemma_mul_le(
            v3_max_abs(abc_ac@),
            v3_max_abs(ao@),
            32_000_000_000_000_000_000_000_000_000,
            SUPPORT_LIMIT as int,
        );
    }
    let t1 = w3_dot(&abc_ac, &ao);
    if t1 > 0 {
        proof {
            lemma_mul_le(
                v3_max_abs(ac@),
                v3_max_abs(ao@),
                2 * (SUPPORT_LIMIT as int),
                SUPPORT_LIMIT as int,
            );
        }
        let t2 = w3_dot(&ac, &ao);
        if t2 > 0 {
            let mut ns: Vec<Vec3> = Vec::new();
            ns.push(a);
            ns.push(c);
            *simplex = ns;
            proof {
                assert(seq_views(simplex@) =~= seq![s0[0], s0[2]]);
                lemma_mul_le(
                    v3_max_abs(ac@),
                    v3_max_abs(ao@),
                    2 * (SUPPORT_LIMIT as int),
                    SUPPORT_LIMIT as int,
                );
            }
            let acao = w3_cross(&ac, &ao);
            proof {
                lemma_mul_le(
                    v3_max_abs(acao@),
                    v3_max_abs(ac@),
                    4_000_000_000_000_000_000,
                    2 * (SUPPORT_LIMIT as int),
                );
            }
            let nd = w3_cross(&acao, &ac);
            *direction = normalize_or_zero(&nd);
            false
        } else {
            let mut ns: Vec<Vec3> = Vec::new();
            ns.push(a);
            ns.push(b);
            *simplex = ns;
            proof {
                assert(seq_views(simplex@) =~= seq![s0[0], s0[1]]);
            }
            do_line(simplex, direction)
        }
    } else {
        let abx = w3_cross(&ab, &abc);
        proof {
            lemma_mul_le(
                v3_max_abs(abx@),
                v3_max_abs(ao@),
                32_000_000_000_000_000_000_000_000_000,
                SUPPORT_LIMIT as int,
            );
        }
        let t3 = w3_dot(&abx, &ao);
        if t3 > 0 {
            let mut ns: Vec<Vec3> = Vec::new();
            ns.push(a);
            ns.push(b);
            *simplex = ns;
            proof {
                assert(seq_views(simplex@) =~= seq![s0[0], s0[1]]);
            }
            do_line(simplex, direction)
        } else {
            proof {
                lemma_mul_le(
                    v3_max_abs(abc@),
                    v3_max_abs(ao@),
                    8_000_000_000_000_000_000,
                    SUPPORT_LIMIT as int,
                );
            }
            let t4 = w3_dot(&abc, &ao);
            if t4 == 0 {
                true
            } else if t4 > 0 {
                *direction = normalize_or_zero(&abc);
                false
            } else {
                let mut ns: Vec<Vec3> = Vec::new();
                ns.push(a);
                ns.push(c);
                ns.push(b);
                *simplex = ns;
                proof {
                    assert(seq_views(simplex@) =~= seq![s0[0], s0[2], s0[1]]);
                }
                let nabc = w3_neg(&abc);
                *direction = normalize_or_zero(&nabc);
                false
            }
        }
    }
}

#[verifier::rlimit(60)]
fn do_tetrahedron(simplex: &mut Vec<Vec3>, direction: &mut Vec3) -> (enclosed: bool)
    requires
        old(simplex)@.len() == 4,
        pts_bounded(seq_views(old(simplex)@), SUPPORT_LIMIT as int),
        v3_max_abs(old(direction)@) <= SCALE as int,
    ensures
        seq_views(final(simplex)@) == spec_do_tetrahedron(
            seq_views(old(simplex)@),
            old(direction)@,
        ).0,
        final(direction)@ == spec_do_tetrahedron(seq_views(old(simplex)@), old(direction)@).1,
        enclosed == spec_do_tetrahedron(seq_views(old(simplex)@), old(direction)@).2,
        1 <= final(simplex)@.len() <= 4,
        enclosed || final(simplex)@.len() <= 3,
        pts_bounded(seq_views(final(simplex)@), SUPPORT_LIMIT as int),
        v3_max_abs(final(direction)@) <= SCALE as int,
{
    let ghost s0 = seq_views(old(simplex)@);
    let a = simplex[0];
    let b = simplex[1];
    let c = simplex[2];
    let d = simplex[3];
    proof {
        assert(s0[0] == a@ && s0[1] == b@ && s0[2] == c@ && s0[3] == d@);
    }
    let aw = wide3_of(&a);
    let bw = wide3_of(&b);
    let cw = wide3_of(&c);
    let dw = wide3_of(&d);
    let ab = w3_sub(&bw, &aw);
    let ac = w3_sub(&cw, &aw);
    let ad = w3_sub(&dw, &aw);
    let ao = w3_neg(&aw);
    proof {
        lemma_mul_le(
            v3_max_abs(ab@),
            v3_max_abs(ac@),
            2 * (SUPPORT_LIMIT as int),
            2 * (SUPPORT_LIMIT as int),
        );
        lemma_mul_le(
            v3_max_abs(ac@),
            v3_max_abs(ad@),
            2 * (SUPPORT_LIMIT as int),
            2 * (SUPPORT_LIMIT as int),
        );
        lemma_mul_le(
            v3_max_abs(ad@),
            v3_max_abs(ab@),
            2 * (SUPPORT_LIMIT as int),
            2 * (SUPPORT_LIMIT as int),
        );
    }
    let abc = w3_cross(&ab, &ac);
    let acd = w3_cross(&ac, &ad);
    let adb = w3_cross(&ad, &ab);
    proof {
        lemma_mul_le(
            v3_max_abs(abc@),
            v3_max_abs(ao@),
            8_000_000_000_000_000_000,
            SUPPORT_LIMIT as int,
        );
        lemma_mul_le(
            v3_max_abs(acd@),
            v3_max_abs(ao@),
            8_000_000_000_000_000_000,
            SUPPORT_LIMIT as int,
        );
        lemma_mul_le(
            v3_max_abs(adb@),
            v3_max_abs(ao@),
            8_000_000_000_000_000_000,
            SUPPORT_LIMIT as int,
        );
    }
    let t1 = w3_dot(&abc, &ao);
    if t1 > 0 {
        let mut ns: Vec<Vec3> = Vec::new();
        ns.push(a);
        ns.push(b);
        ns.push(c);
        *simplex = ns;
        proof {
            assert(seq_views(simplex@) =~= seq![s0[0], s0[1], s0[2]]);
        }
        return do_triangle(simplex, direction);
    }
    let t2 = w3_dot(&acd, &ao);
    if t2 > 0 {
        let mut ns: Vec<Vec3> = Vec::new();
        ns.push(a);
        ns.push(c);
        ns.push(d);
        *simplex = ns;
        proof {
            assert(seq_views(simplex@) =~= seq![s0[0], s0[2], s0[3]]);
            assert(!same_dir(
                v3_cross(v3_sub(s0[1], s0[0]), v3_sub(s0[2], s0[0])),
                v3_neg(s0[0]),
            ));
            assert(same_dir(
                v3_cross(v3_sub(s0[2], s0[0]), v3_sub(s0[3], s0[0])),
                v3_neg(s0[0]),
            ));
            assert(spec_do_tetrahedron(s0, old(direction)@) =~~= spec_do_triangle(
                seq![s0[0], s0[2], s0[3]],
                old(direction)@,
            ));
        }
        return do_triangle(simplex, direction);
    }
    let t3 = w3_dot(&adb, &ao);
    if t3 > 0 {
        let mut ns: Vec<Vec3> = Vec::new();
        ns.push(a);
        ns.push(d);
        ns.push(b);
        *simplex = ns;
        proof {
            assert(seq_views(simplex@) =~= seq![s0[0], s0[3], s0[1]]);
            assert(!same_dir(
                v3_cross(v3_sub(s0[1], s0[0]), v3_sub(s0[2], s0[0])),
                v3_neg(s0[0]),
            ));
            assert(!same_dir(
                v3_cross(v3_sub(s0[2], s0[0]), v3_sub(s0[3], s0[0])),
                v3_neg(s0[0]),
            ));
            assert(same_dir(
                v3_cross(v3_sub(s0[3], s0[0]), v3_sub(s0[1], s0[0])),
                v3_neg(s0[0]),
            ));
            assert(spec_do_tetrahedron(s0, old(direction)@) =~~= spec_do_triangle(
                seq![s0[0], s0[3], s0[1]],
                old(direction)@,
            ));
        }
        return do_triangle(simplex, direction);
    }
    true
}

/// Dispatches the evolution step on the simplex size. A size outside two to
/// four would be a bug in the driving loop; the precondition rules it out.
fn next_simplex(simplex: &mut Vec<Vec3>, direction: &mut Vec3) -> (enclosed: bool)
    requires
        2 <= old(simplex)@.len() <= 4,
        pts_bounded(seq_views(old(simplex)@), SUPPORT_LIMIT as int),
        v3_max_abs(old(direction)@) <= SCALE as int,
    ensures
        seq_views(final(simplex)@) == spec_next(seq_views(old(simplex)@), old(direction)@).0,
        final(direction)@ == spec_next(seq_views(old(simplex)@), old(direction)@).1,
        enclosed == spec_next(seq_views(old(simplex)@), old(direction)@).2,
        1 <= final(simplex)@.len() <= 4,
        enclosed || final(simplex)@.len() <= 3,
        pts_bounded(seq_views(final(simplex)@), SUPPORT_LIMIT as int),
        v3_max_abs(final(direction)@) <= SCALE as int,
{
    let n = simplex.len();
    if n == 2 {
        do_line(simplex, direction)
    } else if n == 3 {
        do_triangle(simplex, direction)
    } else {
        do_tetrahedron(simplex, direction)
    }
}

#[verifier::rlimit(60)]
fn gjk_collision(shape1: &Collider, shape2: &Collider) -> (r: bool)
    requires
        collider_wf(*shape1),
        collider_wf(*shape2),
    ensures
        r == spec_gjk(*shape1, *shape2),
{
    let center1 = shape1.get_center();
    let center2 = shape2.get_center();
    let diff = w3_sub(&wide3_of(&center2), &wide3_of(&center1));
    let mut direction: Vec3 = normalize_or_zero(&diff);
    let sup0 = support(shape1, shape2, direction);
    let mut simplex: Vec<Vec3> = Vec::new();
    simplex.push(sup0);
    direction = normalize_or_zero(&w3_neg(&wide3_of(&sup0)));
    proof {
        assert(seq_views(simplex@) =~= seq![sup0@]);
    }
    for iter in 0..MAX_ITERATIONS
        invariant
            collider_wf(*shape1),
            collider_wf(*shape2),
            1 <= simplex@.len() <= 3,
            pts_bounded(seq_views(simplex@), SUPPORT_LIMIT as int),
            v3_max_abs(direction@) <= SCALE as int,
            spec_gjk_loop(
                *shape1,
                *shape2,
                seq_views(simplex@),
                direction@,
                (MAX_ITERATIONS - iter) as nat,
            ) == spec_gjk(*shape1, *shape2),
    {
        let ghost fuel = (MAX_ITERATIONS - iter) as nat;
        let ghost s_before = seq_views(simplex@);
        let ghost d_before = direction@;
        let sup = support(shape1, shape2, direction);
        if !same_direction(&sup, &direction) {
            proof {
                assert(spec_gjk_loop(*shape1, *shape2, s_before, d_before, fuel) == false);
            }
            return false;
        }
        simplex.insert(0, sup);
        proof {
            assert(seq_views(simplex@) =~= seq![sup@] + s_before);
        }
        let enclosed = next_simplex(&mut simplex, &mut direction);
        if enclosed {
            proof {
                assert(spec_gjk_loop(*shape1, *shape2, s_before, d_before, fuel) == true);
            }
            return true;
        }
        proof {
            assert(spec_gjk_loop(*shape1, *shape2, s_before, d_before, fuel) == spec_gjk_loop(
                *shape1,
                *shape2,
                seq_views(simplex@),
                direction@,
                (fuel - 1) as nat,
            ));
        }
    }
    false
}

} // verus!
