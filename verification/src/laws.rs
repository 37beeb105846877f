//! Laws of the collision engine, stated and proved once for all inputs.

use crate::collisions::{
    same_dir, spec_do_line, spec_gjk, spec_gjk_first_rejects, spec_gjk_loop, spec_next,
    spec_support, MAX_ITERATIONS,
};
use crate::fixed::{
    isqrt_spec, lemma_div_at_least_one, lemma_div_small_shrinks, lemma_isqrt_unique,
    lemma_tdiv_odd, tdiv, SCALE,
};
use crate::shapes::{
    best_index, spec_center, spec_furthest, spec_poly_furthest, spec_poly_local_dir,
    spec_sphere_furthest, sphere_wf, v3_scale_radius, Collider, ConvexPolyhedron, Sphere,
};
use crate::vec3::{
    spec_norm, v3_add, v3_cross, v3_dot, v3_is_zero, v3_max_abs, v3_neg, v3_sub, v3_zero, Vec3, V3,
};
use vstd::arithmetic::div_mod::{lemma_basic_div, lemma_div_multiples_vanish, lemma_div_pos_is_pos};
use vstd::prelude::*;

verus! {

/// The unit direction along the positive x axis.
pub open spec fn axis_x() -> V3 {
    V3 { x: SCALE as int, y: 0, z: 0 }
}

/// Normalizing any vector along the positive x axis lands exactly on the
/// unit axis direction.
proof fn lemma_norm_axis(t: int)
    requires
        t >= 1,
    ensures
        spec_norm(V3 { x: t, y: 0, z: 0 }) == axis_x(),
{
    let v = V3 { x: t, y: 0, z: 0 };
    let k = t / (SCALE as int) + 1;
    lemma_div_pos_is_pos(t, SCALE as int);
    lemma_div_small_shrinks(t);
    lemma_div_at_least_one(t, k);
    lemma_basic_div(0, k);
    let sx = tdiv(t, k);
    assert(sx >= 1);
    assert(tdiv(0, k) == 0);
    assert(sx * sx + tdiv(0, k) * tdiv(0, k) + tdiv(0, k) * tdiv(0, k) == sx * sx);
    assert(sx * sx >= 0 && sx * sx < (sx + 1) * (sx + 1)) by (nonlinear_arith)
        requires
            sx >= 1,
    ;
    lemma_isqrt_unique((sx * sx) as nat, sx as nat);
    assert(isqrt_spec((sx * sx) as nat) as int == sx);
    lemma_div_multiples_vanish(SCALE as int, sx);
    assert(tdiv(sx * (SCALE as int), sx) == SCALE as int);
    lemma_basic_div(0, sx);
    assert(tdiv(0 * (SCALE as int), sx) == 0);
}

/// Scaling the unit axis direction to a radius lands exactly on the radius.
proof fn lemma_scale_axis(r: int)
    requires
        r >= 1,
    ensures
        v3_scale_radius(axis_x(), r) == (V3 { x: r, y: 0, z: 0 }),
        v3_scale_radius(v3_neg(axis_x()), r) == (V3 { x: -r, y: 0, z: 0 }),
{
    lemma_div_multiples_vanish(r, SCALE as int);
    assert((SCALE as int) * r == r * (SCALE as int)) by (nonlinear_arith);
    assert(tdiv((SCALE as int) * r, SCALE as int) == r);
    lemma_tdiv_odd((SCALE as int) * r, SCALE as int);
    assert((-(SCALE as int)) * r == -((SCALE as int) * r)) by (nonlinear_arith);
    lemma_basic_div(0, SCALE as int);
    assert(tdiv(0 * r, SCALE as int) == 0);
}

/// Negating both vectors leaves their scalar product unchanged.
pub proof fn lemma_dot_neg_neg(a: V3, b: V3)
    ensures
        v3_dot(v3_neg(a), v3_neg(b)) == v3_dot(a, b),
{
    assert((-a.x) * (-b.x) == a.x * b.x && (-a.y) * (-b.y) == a.y * b.y && (-a.z) * (-b.z) == a.z
        * b.z) by (nonlinear_arith);
}

/// The normalize-or-zero policy is an odd function: normalizing a negated
/// vector negates the normalized vector.
pub proof fn lemma_norm_odd(v: V3)
    ensures
        spec_norm(v3_neg(v)) == v3_neg(spec_norm(v)),
{
    let n = v3_neg(v);
    if v3_is_zero(v) {
    } else {
        assert(v3_max_abs(n) == v3_max_abs(v));
        let m = v3_max_abs(v);
        let k = m / (SCALE as int) + 1;
        vstd::arithmetic::div_mod::lemma_div_pos_is_pos(m, SCALE as int);
        crate::vec3::lemma_norm_scaled_nonzero(v);
        lemma_tdiv_odd(v.x, k);
        lemma_tdiv_odd(v.y, k);
        lemma_tdiv_odd(v.z, k);
        let sx = tdiv(v.x, k);
        let sy = tdiv(v.y, k);
        let sz = tdiv(v.z, k);
        assert((-sx) * (-sx) == sx * sx && (-sy) * (-sy) == sy * sy && (-sz) * (-sz) == sz * sz)
            by (nonlinear_arith);
        let l = crate::fixed::isqrt_spec((sx * sx + sy * sy + sz * sz) as nat) as int;
        crate::fixed::lemma_isqrt_props((sx * sx + sy * sy + sz * sz) as nat);
        assert(l >= 1) by (nonlinear_arith)
            requires
                sx * sx + sy * sy + sz * sz >= 1,
                l >= 0,
                (sx * sx + sy * sy + sz * sz) < (l + 1) * (l + 1),
        ;
        lemma_tdiv_odd(sx * (SCALE as int), l);
        lemma_tdiv_odd(sy * (SCALE as int), l);
        lemma_tdiv_odd(sz * (SCALE as int), l);
        assert((-sx) * (SCALE as int) == -(sx * (SCALE as int)) && (-sy) * (SCALE as int) == -(sy
            * (SCALE as int)) && (-sz) * (SCALE as int) == -(sz * (SCALE as int)))
            by (nonlinear_arith);
    }
}

/// The support function of the Minkowski difference is antisymmetric in its
/// operands: swapping the shapes and negating the direction negates the
/// support point.
pub proof fn lemma_support_antisymmetric(c1: Collider, c2: Collider, d: V3)
    ensures
        spec_support(c1, c2, d) == v3_neg(spec_support(c2, c1, v3_neg(d))),
{
    assert(v3_neg(v3_neg(d)) == d);
}

/// The initial separating-axis rejection is symmetric in the two operands:
/// if the first loop iteration of `collision(A, B)` finds a separating
/// direction, so does the first iteration of `collision(B, A)`, and either
/// way both orders report no intersection.
pub proof fn lemma_first_rejection_symmetric(c1: Collider, c2: Collider)
    ensures
        spec_gjk_first_rejects(c1, c2) == spec_gjk_first_rejects(c2, c1),
        spec_gjk_first_rejects(c1, c2) ==> !spec_gjk(c1, c2) && !spec_gjk(c2, c1),
{
    let d0 = spec_norm(v3_sub(crate::shapes::spec_center(c2), crate::shapes::spec_center(c1)));
    let sup0 = spec_support(c1, c2, d0);
    let d1 = spec_norm(v3_neg(sup0));
    let sup1 = spec_support(c1, c2, d1);

    let e0 = spec_norm(v3_sub(crate::shapes::spec_center(c1), crate::shapes::spec_center(c2)));
    let t0 = spec_support(c2, c1, e0);
    let e1 = spec_norm(v3_neg(t0));
    let t1 = spec_support(c2, c1, e1);

    assert(v3_sub(crate::shapes::spec_center(c1), crate::shapes::spec_center(c2)) == v3_neg(
        v3_sub(crate::shapes::spec_center(c2), crate::shapes::spec_center(c1)),
    ));
    lemma_norm_odd(v3_sub(crate::shapes::spec_center(c2), crate::shapes::spec_center(c1)));
    assert(e0 == v3_neg(d0));
    lemma_support_antisymmetric(c1, c2, d0);
    assert(t0 == v3_neg(sup0));
    lemma_norm_odd(v3_neg(sup0));
    assert(v3_neg(v3_neg(sup0)) == sup0);
    assert(e1 == v3_neg(d1));
    lemma_support_antisymmetric(c1, c2, d1);
    assert(t1 == v3_neg(sup1));
    lemma_dot_neg_neg(sup1, d1);
    assert(spec_gjk_first_rejects(c1, c2) == spec_gjk_first_rejects(c2, c1));
    if spec_gjk_first_rejects(c1, c2) {
        assert(spec_gjk_loop(c1, c2, seq![sup0], d1, MAX_ITERATIONS as nat) == false);
        assert(spec_gjk_loop(c2, c1, seq![t0], e1, MAX_ITERATIONS as nat) == false);
    }
}

/// A zero-length direction is tolerated: the sphere support query answers
/// the center itself.
pub proof fn lemma_sphere_furthest_zero_direction(s: Sphere)
    ensures
        spec_sphere_furthest(s, v3_zero()) == s.center@,
{
    assert(spec_norm(v3_zero()) == v3_zero());
    assert(0 * (s.radius as int) == 0) by (nonlinear_arith);
    lemma_basic_div(0, SCALE as int);
    assert(v3_scale_radius(v3_zero(), s.radius as int) == v3_zero());
}

/// Along a coordinate axis the sphere support query is exact: the center
/// moved by the radius, whatever the direction's length.
pub proof fn lemma_sphere_furthest_axis(s: Sphere, t: int)
    requires
        sphere_wf(s),
        t >= 1,
    ensures
        spec_sphere_furthest(s, V3 { x: t, y: 0, z: 0 }) == (V3 {
            x: s.center@.x + s.radius,
            y: s.center@.y,
            z: s.center@.z,
        }),
{
    lemma_norm_axis(t);
    lemma_scale_axis(s.radius as int);
}

/// The winner of the vertex scan realizes the greatest scalar product among
/// the first `n` vertices.
proof fn lemma_best_index_optimal(verts: Seq<Vec3>, dl: V3, n: int)
    requires
        n >= 1,
    ensures
        forall|j: int|
            0 <= j < n ==> v3_dot(#[trigger] verts[j]@, dl) <= v3_dot(
                verts[crate::shapes::best_index(verts, dl, n)]@,
                dl,
            ),
    decreases n,
{
    if n > 1 {
        lemma_best_index_optimal(verts, dl, n - 1);
    }
}

/// The support point of a polyhedron is the world-space image of one of its
/// own vertices, and that vertex maximizes the scalar product against the
/// local search direction: no vertex of the shape lies further along the
/// queried direction.
pub proof fn lemma_poly_furthest_maximal(p: ConvexPolyhedron, d: V3)
    requires
        p.vertices@.len() >= 1,
    ensures
        0 <= best_index(p.vertices@, spec_poly_local_dir(p, d), p.vertices@.len() as int)
            < p.vertices@.len(),
        spec_poly_furthest(p, d) == v3_add(
            crate::quat::spec_rotate(
                p.rotation@,
                p.vertices@[best_index(
                    p.vertices@,
                    spec_poly_local_dir(p, d),
                    p.vertices@.len() as int,
                )]@,
            ),
            p.center@,
        ),
        forall|j: int|
            0 <= j < p.vertices@.len() ==> v3_dot(#[trigger] p.vertices@[j]@, spec_poly_local_dir(p, d))
                <= v3_dot(
                p.vertices@[best_index(
                    p.vertices@,
                    spec_poly_local_dir(p, d),
                    p.vertices@.len() as int,
                )]@,
                spec_poly_local_dir(p, d),
            ),
{
    crate::shapes::lemma_best_index_range(
        p.vertices@,
        spec_poly_local_dir(p, d),
        p.vertices@.len() as int,
    );
    lemma_best_index_optimal(p.vertices@, spec_poly_local_dir(p, d), p.vertices@.len() as int);
}

/// The support point of two on-axis spheres, along each direction the
/// on-axis intersection test can take.
proof fn lemma_sphere_support_axis(s1: Sphere, s2: Sphere)
    requires
        sphere_wf(s1),
        sphere_wf(s2),
        s1.center@.y == s2.center@.y,
        s1.center@.z == s2.center@.z,
    ensures
        spec_support(Collider::Sphere(s1), Collider::Sphere(s2), axis_x()) == (V3 {
            x: s1.center@.x + s1.radius - s2.center@.x + s2.radius,
            y: 0,
            z: 0,
        }),
        spec_support(Collider::Sphere(s1), Collider::Sphere(s2), v3_neg(axis_x())) == (V3 {
            x: s1.center@.x - s1.radius - s2.center@.x - s2.radius,
            y: 0,
            z: 0,
        }),
        spec_support(Collider::Sphere(s1), Collider::Sphere(s2), v3_zero()) == (V3 {
            x: s1.center@.x - s2.center@.x,
            y: 0,
            z: 0,
        }),
{
    lemma_norm_axis(SCALE as int);
    assert(spec_norm(axis_x()) == axis_x());
    lemma_norm_odd(axis_x());
    assert(spec_norm(v3_neg(axis_x())) == v3_neg(axis_x()));
    assert(v3_neg(v3_neg(axis_x())) == axis_x());
    lemma_scale_axis(s1.radius as int);
    lemma_scale_axis(s2.radius as int);
    assert(v3_neg(v3_zero()) == v3_zero());
    assert(spec_norm(v3_zero()) == v3_zero());
    assert(0 * (s1.radius as int) == 0 && 0 * (s2.radius as int) == 0) by (nonlinear_arith);
    lemma_basic_div(0, SCALE as int);
    assert(v3_scale_radius(v3_zero(), s1.radius as int) == v3_zero());
    assert(v3_scale_radius(v3_zero(), s2.radius as int) == v3_zero());
}

/// The full trace of the intersection test for two spheres whose centers
/// differ only along the x axis: the engine answers exactly "the center
/// distance is below the sum of the radii".
proof fn lemma_sphere_axis_trace(s1: Sphere, s2: Sphere)
    requires
        sphere_wf(s1),
        sphere_wf(s2),
        s1.center@.y == s2.center@.y,
        s1.center@.z == s2.center@.z,
        s2.center@.x != s1.center@.x,
    ensures
        spec_gjk(Collider::Sphere(s1), Collider::Sphere(s2)) == (crate::fixed::abs_i(
            s2.center@.x - s1.center@.x,
        ) < s1.radius + s2.radius),
{
    let c1 = Collider::Sphere(s1);
    let c2 = Collider::Sphere(s2);
    let e = s2.center@.x - s1.center@.x;
    let sum = s1.radius + s2.radius;
    lemma_sphere_support_axis(s1, s2);
    let d0 = spec_norm(v3_sub(spec_center(c2), spec_center(c1)));
    assert(v3_sub(spec_center(c2), spec_center(c1)) == (V3 { x: e, y: 0, z: 0 }));
    if e >= 1 {
        lemma_norm_axis(e);
        assert(d0 == axis_x());
        let t = sum - e;
        let sup0 = spec_support(c1, c2, d0);
        assert(sup0 == (V3 { x: t, y: 0, z: 0 }));
        if t == 0 {
            assert(v3_neg(sup0) == v3_zero());
            assert(spec_norm(v3_zero()) == v3_zero());
            let sup1 = spec_support(c1, c2, v3_zero());
            assert(sup1.x * 0 == 0 && sup1.y * 0 == 0 && sup1.z * 0 == 0) by (nonlinear_arith);
            assert(v3_dot(sup1, v3_zero()) == 0);
            assert(!same_dir(sup1, v3_zero()));
            assert(spec_gjk_loop(c1, c2, seq![sup0], v3_zero(), MAX_ITERATIONS as nat)
                == false);
            assert(!spec_gjk(c1, c2));
        } else if t >= 1 {
            lemma_norm_odd(V3 { x: t, y: 0, z: 0 });
            lemma_norm_axis(t);
            assert(v3_neg(sup0) == v3_neg(V3 { x: t, y: 0, z: 0 }));
            let d1 = spec_norm(v3_neg(sup0));
            assert(d1 == v3_neg(axis_x()));
            let sup1 = spec_support(c1, c2, d1);
            let u = s1.center@.x - s1.radius - s2.center@.x - s2.radius;
            assert(sup1 == (V3 { x: u, y: 0, z: 0 }));
            assert(u <= -3);
            assert(v3_dot(sup1, d1) == u * (-(SCALE as int)));
            assert(u * (-(SCALE as int)) > 0) by (nonlinear_arith)
                requires
                    u <= -3,
            ;
            assert(same_dir(sup1, d1));
            let grown = seq![sup1] + seq![sup0];
            assert(grown.len() == 2 && grown[0] == sup1 && grown[1] == sup0);
            let ab = v3_sub(grown[1], grown[0]);
            let ao = v3_neg(grown[0]);
            assert(ab == (V3 { x: t - u, y: 0, z: 0 }));
            assert(ao == (V3 { x: -u, y: 0, z: 0 }));
            assert(v3_dot(ab, ao) == (t - u) * (-u));
            assert((t - u) * (-u) > 0) by (nonlinear_arith)
                requires
                    t - u >= 2,
                    u <= -3,
            ;
            assert(same_dir(ab, ao));
            assert(ab.y * ao.z == 0 && ab.z * ao.y == 0 && ab.z * ao.x == 0 && ab.x * ao.z
                == 0 && ab.x * ao.y == 0 && ab.y * ao.x == 0) by (nonlinear_arith)
                requires
                    ab.y == 0,
                    ab.z == 0,
                    ao.y == 0,
                    ao.z == 0,
            ;
            assert(v3_cross(ab, ao) == v3_zero());
            assert(0 * ab.x == 0 && 0 * ab.y == 0 && 0 * ab.z == 0 && ab.x * 0 == 0 && ab.y * 0
                == 0 && ab.z * 0 == 0) by (nonlinear_arith);
            assert(v3_cross(v3_zero(), ab) == v3_zero());
            assert(v3_cross(v3_cross(ab, ao), ab) == v3_zero());
            assert(spec_norm(v3_zero()) == v3_zero());
            assert(spec_do_line(grown, d1).2);
            assert(spec_next(grown, d1).2);
            assert(spec_gjk_loop(c1, c2, seq![sup0], d1, MAX_ITERATIONS as nat) == true);
            assert(spec_gjk(c1, c2));
        } else {
            assert(t <= -1);
            lemma_norm_axis(-t);
            assert(v3_neg(sup0) == (V3 { x: -t, y: 0, z: 0 }));
            let d1 = spec_norm(v3_neg(sup0));
            assert(d1 == axis_x());
            let sup1 = spec_support(c1, c2, d1);
            assert(sup1 == (V3 { x: t, y: 0, z: 0 }));
            assert(v3_dot(sup1, d1) < 0) by (nonlinear_arith)
                requires
                    v3_dot(sup1, d1) == sup1.x * d1.x + sup1.y * d1.y + sup1.z * d1.z,
                    sup1.x == t,
                    sup1.y == 0,
                    sup1.z == 0,
                    d1.x == SCALE as int,
                    d1.y == 0,
                    d1.z == 0,
                    t <= -1,
            ;
            assert(!same_dir(sup1, d1));
            assert(spec_gjk_loop(c1, c2, seq![sup0], d1, MAX_ITERATIONS as nat) == false);
            assert(!spec_gjk(c1, c2));
        }
    } else {
        assert(e <= -1);
        lemma_norm_odd(V3 { x: -e, y: 0, z: 0 });
        lemma_norm_axis(-e);
        assert((V3 { x: e, y: 0, z: 0 }) == v3_neg(V3 { x: -e, y: 0, z: 0 }));
        assert(d0 == v3_neg(axis_x()));
        let t = sum + e;
        let sup0 = spec_support(c1, c2, d0);
        assert(sup0 == (V3 { x: -t, y: 0, z: 0 }));
        if t == 0 {
            assert(v3_neg(sup0) == v3_zero());
            assert(spec_norm(v3_zero()) == v3_zero());
            let sup1 = spec_support(c1, c2, v3_zero());
            assert(sup1.x * 0 == 0 && sup1.y * 0 == 0 && sup1.z * 0 == 0) by (nonlinear_arith);
            assert(v3_dot(sup1, v3_zero()) == 0);
            assert(!same_dir(sup1, v3_zero()));
            assert(spec_gjk_loop(c1, c2, seq![sup0], v3_zero(), MAX_ITERATIONS as nat)
                == false);
            assert(!spec_gjk(c1, c2));
        } else if t >= 1 {
            lemma_norm_axis(t);
            assert(v3_neg(sup0) == (V3 { x: t, y: 0, z: 0 }));
            let d1 = spec_norm(v3_neg(sup0));
            assert(d1 == axis_x());
            let sup1 = spec_support(c1, c2, d1);
            let w = s1.center@.x + s1.radius - s2.center@.x + s2.radius;
            assert(sup1 == (V3 { x: w, y: 0, z: 0 }));
            assert(w == sum - e);
            assert(w >= 3);
            assert(v3_dot(sup1, d1) == w * (SCALE as int));
            assert(w * (SCALE as int) > 0) by (nonlinear_arith)
                requires
                    w >= 3,
            ;
            assert(same_dir(sup1, d1));
            let grown = seq![sup1] + seq![sup0];
            assert(grown.len() == 2 && grown[0] == sup1 && grown[1] == sup0);
            let ab = v3_sub(grown[1], grown[0]);
            let ao = v3_neg(grown[0]);
            assert(ab == (V3 { x: -t - w, y: 0, z: 0 }));
            assert(ao == (V3 { x: -w, y: 0, z: 0 }));
            assert(v3_dot(ab, ao) == (-t - w) * (-w));
            assert((-t - w) * (-w) > 0) by (nonlinear_arith)
                requires
                    -t - w <= -2,
                    w >= 3,
            ;
            assert(same_dir(ab, ao));
            assert(ab.y * ao.z == 0 && ab.z * ao.y == 0 && ab.z * ao.x == 0 && ab.x * ao.z
                == 0 && ab.x * ao.y == 0 && ab.y * ao.x == 0) by (nonlinear_arith)
                requires
                    ab.y == 0,
                    ab.z == 0,
                    ao.y == 0,
                    ao.z == 0,
            ;
            assert(v3_cross(ab, ao) == v3_zero());
            assert(0 * ab.x == 0 && 0 * ab.y == 0 && 0 * ab.z == 0 && ab.x * 0 == 0 && ab.y * 0
                == 0 && ab.z * 0 == 0) by (nonlinear_arith);
            assert(v3_cross(v3_zero(), ab) == v3_zero());
            assert(v3_cross(v3_cross(ab, ao), ab) == v3_zero());
            assert(spec_norm(v3_zero()) == v3_zero());
            assert(spec_do_line(grown, d1).2);
            assert(spec_next(grown, d1).2);
            assert(spec_gjk_loop(c1, c2, seq![sup0], d1, MAX_ITERATIONS as nat) == true);
            assert(spec_gjk(c1, c2));
        } else {
            assert(t <= -1);
            lemma_norm_odd(V3 { x: -t, y: 0, z: 0 });
            lemma_norm_axis(-t);
            assert(v3_neg(sup0) == v3_neg(V3 { x: -t, y: 0, z: 0 }));
            let d1 = spec_norm(v3_neg(sup0));
            assert(d1 == v3_neg(axis_x()));
            let sup1 = spec_support(c1, c2, d1);
            assert(sup1 == (V3 { x: -t, y: 0, z: 0 }));
            assert(v3_dot(sup1, d1) < 0) by (nonlinear_arith)
                requires
                    v3_dot(sup1, d1) == sup1.x * d1.x + sup1.y * d1.y + sup1.z * d1.z,
                    sup1.x == -t,
                    sup1.y == 0,
                    sup1.z == 0,
                    d1.x == -(SCALE as int),
                    d1.y == 0,
                    d1.z == 0,
                    t <= -1,
            ;
            assert(!same_dir(sup1, d1));
            assert(spec_gjk_loop(c1, c2, seq![sup0], d1, MAX_ITERATIONS as nat) == false);
            assert(!spec_gjk(c1, c2));
        }
    }
}

/// On-axis spheres collide, in either operand order, exactly when the
/// distance between the centers is under the sum of the radii. At exactly
/// touching distance the engine reports no collision, and concentric
/// centers (a zero initial direction) stall the search, so they are outside
/// this law.
pub proof fn lemma_sphere_axis_collision(s1: Sphere, s2: Sphere)
    requires
        sphere_wf(s1),
        sphere_wf(s2),
        s1.center@.y == s2.center@.y,
        s1.center@.z == s2.center@.z,
        s2.center@.x != s1.center@.x,
    ensures
        spec_gjk(Collider::Sphere(s1), Collider::Sphere(s2)) == (crate::fixed::abs_i(
            s2.center@.x - s1.center@.x,
        ) < s1.radius + s2.radius),
        spec_gjk(Collider::Sphere(s2), Collider::Sphere(s1)) == spec_gjk(
            Collider::Sphere(s1),
            Collider::Sphere(s2),
        ),
{
    lemma_sphere_axis_trace(s1, s2);
    lemma_sphere_axis_trace(s2, s1);
}

/// An exhausted iteration cap is conservative: with no fuel left, the loop
/// reports no intersection, whatever the simplex and direction hold.
pub proof fn lemma_gjk_cap_conservative(c1: Collider, c2: Collider, s: Seq<V3>, d: V3)
    ensures
        !spec_gjk_loop(c1, c2, s, d, 0),
{
}

} // verus!
