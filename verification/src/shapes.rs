//! The collider shapes: spheres and convex polyhedra.
//!
//! A collider answers two geometric queries — its world center and its
//! support point (the boundary point furthest along a direction) — and can
//! be re-posed. A `ConvexPolyhedron` stores its vertex set relative to its
//! centroid, computed once at construction; only its world center and
//! rotation change afterwards.

use crate::fixed::{
    abs_i, lemma_abs_mul, lemma_mul_le, lemma_tdiv_bound, tdiv, tdiv_i128, COORD_LIMIT, SCALE,
};
use crate::quat::{q4_conj, q4_wf, quat_conj, rotate, spec_rotate, Quat, Q4};
use crate::vec3::{
    narrow3, normalize_or_zero, spec_norm, v3_add, v3_dot, v3_max_abs, v3_sub, v3_zero, w3_add,
    w3_dot, wide3_of, Vec3, Wide3, V3,
};
use vstd::prelude::*;

verus! {

/// Largest component magnitude a support point can have: rotation grows a
/// local vertex by at most a factor of three, and the world center is added.
pub open spec fn furthest_limit() -> int {
    7 * (COORD_LIMIT as int)
}

/// A sphere, described by its world center and its radius.
#[derive(Clone, Copy, PartialEq, Eq, Structural, Debug)]
pub struct Sphere {
    pub center: Vec3,
    pub radius: i64,
}

/// A convex polyhedron: an immutable vertex set relative to the shape's
/// centroid, a world center, and a world rotation.
#[derive(Debug)]
pub struct ConvexPolyhedron {
    pub vertices: Vec<Vec3>,
    pub center: Vec3,
    pub rotation: Quat,
}

/// A shape that can answer center and support-point queries.
#[derive(Debug)]
pub enum Collider {
    Sphere(Sphere),
    ConvexPolyhedron(ConvexPolyhedron),
}

/// A well-formed sphere: positive radius, bounded coordinates.
pub open spec fn sphere_wf(s: Sphere) -> bool {
    1 <= s.radius <= COORD_LIMIT && v3_max_abs(s.center@) <= COORD_LIMIT as int
}

/// A well-formed polyhedron: at least one vertex, bounded local vertices
/// (the centroid shift can double a coordinate), bounded center, a
/// well-formed rotation.
pub open spec fn poly_wf(p: ConvexPolyhedron) -> bool {
    &&& p.vertices@.len() >= 1
    &&& forall|i: int|
        0 <= i < p.vertices@.len() ==> v3_max_abs(#[trigger] p.vertices@[i]@) <= 2 * (
        COORD_LIMIT as int)
    &&& v3_max_abs(p.center@) <= COORD_LIMIT as int
    &&& q4_wf(p.rotation@)
}

pub open spec fn collider_wf(c: Collider) -> bool {
    match c {
        Collider::Sphere(s) => sphere_wf(s),
        Collider::ConvexPolyhedron(p) => poly_wf(p),
    }
}

/// World center of a collider.
pub open spec fn spec_center(c: Collider) -> V3 {
    match c {
        Collider::Sphere(s) => s.center@,
        Collider::ConvexPolyhedron(p) => p.center@,
    }
}

/// Scales a normalized direction by a radius: each component becomes
/// `n_i * r / SCALE`, truncated.
pub open spec fn v3_scale_radius(n: V3, r: int) -> V3 {
    V3 {
        x: tdiv(n.x * r, SCALE as int),
        y: tdiv(n.y * r, SCALE as int),
        z: tdiv(n.z * r, SCALE as int),
    }
}

/// Sum of the first `n` vertices of a set.
pub open spec fn sum_prefix(verts: Seq<Vec3>, n: int) -> V3
    decreases n,
{
    if n <= 0 {
        v3_zero()
    } else {
        v3_add(sum_prefix(verts, n - 1), verts[n - 1]@)
    }
}

/// Centroid of a vertex set: the component-wise mean, truncated toward zero.
pub open spec fn spec_centroid(verts: Seq<Vec3>) -> V3 {
    let s = sum_prefix(verts, verts.len() as int);
    let n = verts.len() as int;
    V3 { x: tdiv(s.x, n), y: tdiv(s.y, n), z: tdiv(s.z, n) }
}

/// Support point of a sphere: the center plus the normalized direction
/// scaled to the radius. A zero direction yields the center itself.
pub open spec fn spec_sphere_furthest(s: Sphere, d: V3) -> V3 {
    v3_add(s.center@, v3_scale_radius(spec_norm(d), s.radius as int))
}

/// Index of the vertex with the greatest scalar product against `dl` among
/// the first `n` vertices; an earlier vertex wins ties.
pub open spec fn best_index(verts: Seq<Vec3>, dl: V3, n: int) -> int
    decreases n,
{
    if n <= 1 {
        0
    } else {
        let b = best_index(verts, dl, n - 1);
        if v3_dot(verts[n - 1]@, dl) > v3_dot(verts[b]@, dl) {
            n - 1
        } else {
            b
        }
    }
}

pub proof fn lemma_best_index_range(verts: Seq<Vec3>, dl: V3, n: int)
    requires
        n >= 1,
    ensures
        0 <= best_index(verts, dl, n) < n,
    decreases n,
{
    if n > 1 {
        lemma_best_index_range(verts, dl, n - 1);
    }
}

/// The direction a polyhedron scans its local vertices against: the query
/// direction normalized, then carried into local space by the inverse
/// rotation.
pub open spec fn spec_poly_local_dir(p: ConvexPolyhedron, d: V3) -> V3 {
    spec_rotate(q4_conj(p.rotation@), spec_norm(d))
}

/// Support point of a polyhedron: scan the local vertices for the greatest
/// scalar product against the local direction, then carry the winner back
/// into world space.
pub open spec fn spec_poly_furthest(p: ConvexPolyhedron, d: V3) -> V3 {
    let dl = spec_poly_local_dir(p, d);
    let i = best_index(p.vertices@, dl, p.vertices@.len() as int);
    v3_add(spec_rotate(p.rotation@, p.vertices@[i]@), p.center@)
}

/// Support point of any collider.
pub open spec fn spec_furthest(c: Collider, d: V3) -> V3 {
    match c {
        Collider::Sphere(s) => spec_sphere_furthest(s, d),
        Collider::ConvexPolyhedron(p) => spec_poly_furthest(p, d),
    }
}

/// The collider re-posed: a sphere moves its center; a polyhedron moves its
/// center and takes the new rotation. Local vertices never change.
pub open spec fn collider_updated(c: Collider, position: Vec3, rotation: Quat) -> Collider {
    match c {
        Collider::Sphere(s) => Collider::Sphere(Sphere { center: position, radius: s.radius }),
        Collider::ConvexPolyhedron(p) => Collider::ConvexPolyhedron(
            ConvexPolyhedron { vertices: p.vertices, center: position, rotation },
        ),
    }
}

impl Sphere {
    /// Builds a sphere from a world center and a positive radius.
    pub fn new(center: Vec3, radius: i64) -> (s: Sphere)
        requires
            1 <= radius <= COORD_LIMIT,
            v3_max_abs(center@) <= COORD_LIMIT as int,
        ensures
            s == (Sphere { center, radius }),
            sphere_wf(s),
    {
        Sphere { center, radius }
    }

    /// Moves the sphere; a sphere has no orientation, so the rotation is
    /// ignored.
    pub fn update(&mut self, position: Vec3, _rotation: Quat)
        requires
            sphere_wf(*old(self)),
            v3_max_abs(position@) <= COORD_LIMIT as int,
        ensures
            *final(self) == (Sphere { center: position, radius: old(self).radius }),
            sphere_wf(*final(self)),
    {
        self.center = position;
    }

    /// World center; a pure query.
    pub fn get_center(&self) -> (r: Vec3)
        ensures
            r == self.center,
    {
        self.center
    }

    /// The boundary point furthest along `direction`; the center itself when
    /// the direction is zero.
    pub fn furthest_point(&self, direction: Vec3) -> (r: Vec3)
        requires
            sphere_wf(*self),
        ensures
            r@ == spec_sphere_furthest(*self, direction@),
            v3_max_abs(r@) <= furthest_limit(),
    {
        let n = normalize_or_zero(&wide3_of(&direction));
        let r128: i128 = self.radius as i128;
        proof {
            lemma_abs_mul(n@.x, r128 as int, SCALE as int, COORD_LIMIT as int);
            lemma_abs_mul(n@.y, r128 as int, SCALE as int, COORD_LIMIT as int);
            lemma_abs_mul(n@.z, r128 as int, SCALE as int, COORD_LIMIT as int);
            lemma_tdiv_bound(n@.x * r128 as int, SCALE as int, COORD_LIMIT as int);
            lemma_tdiv_bound(n@.y * r128 as int, SCALE as int, COORD_LIMIT as int);
            lemma_tdiv_bound(n@.z * r128 as int, SCALE as int, COORD_LIMIT as int);
        }
        let rx: i128 = self.center.x as i128 + tdiv_i128(n.x as i128 * r128, SCALE as i128);
        let ry: i128 = self.center.y as i128 + tdiv_i128(n.y as i128 * r128, SCALE as i128);
        let rz: i128 = self.center.z as i128 + tdiv_i128(n.z as i128 * r128, SCALE as i128);
        narrow3(&Wide3 { x: rx, y: ry, z: rz })
    }
}

impl ConvexPolyhedron {
    /// Builds a polyhedron from a non-empty world-space vertex set. The
    /// centroid becomes the world center, the vertices are stored relative
    /// to it, and the rotation starts at the identity.
    pub fn new(vertices: Vec<Vec3>) -> (p: ConvexPolyhedron)
        requires
            vertices@.len() >= 1,
            forall|i: int|
                0 <= i < vertices@.len() ==> v3_max_abs(#[trigger] vertices@[i]@) <= (
                COORD_LIMIT as int),
        ensures
            p.rotation@ == (Q4 { w: SCALE as int, x: 0, y: 0, z: 0 }),
            p.center@ == spec_centroid(vertices@),
            p.vertices@.len() == vertices@.len(),
            forall|i: int|
                0 <= i < vertices@.len() ==> #[trigger] p.vertices@[i]@ == v3_sub(
                    vertices@[i]@,
                    spec_centroid(vertices@),
                ),
            poly_wf(p),
    {
        let len = vertices.len();
        let mut sx: i128 = 0;
        let mut sy: i128 = 0;
        let mut sz: i128 = 0;
        for i in 0..len
            invariant
                len == vertices@.len(),
                forall|j: int|
                    0 <= j < vertices@.len() ==> v3_max_abs(#[trigger] vertices@[j]@) <= (
                    COORD_LIMIT as int),
                sx == sum_prefix(vertices@, i as int).x,
                sy == sum_prefix(vertices@, i as int).y,
                sz == sum_prefix(vertices@, i as int).z,
                abs_i(sx as int) <= i * (COORD_LIMIT as int),
                abs_i(sy as int) <= i * (COORD_LIMIT as int),
                abs_i(sz as int) <= i * (COORD_LIMIT as int),
        {
            sx = sx + vertices[i].x as i128;
            sy = sy + vertices[i].y as i128;
            sz = sz + vertices[i].z as i128;
        }
        let n128: i128 = len as i128;
        proof {
            lemma_tdiv_bound(sx as int, n128 as int, COORD_LIMIT as int);
            lemma_tdiv_bound(sy as int, n128 as int, COORD_LIMIT as int);
            lemma_tdiv_bound(sz as int, n128 as int, COORD_LIMIT as int);
        }
        let center = Vec3 {
            x: tdiv_i128(sx, n128) as i64,
            y: tdiv_i128(sy, n128) as i64,
            z: tdiv_i128(sz, n128) as i64,
        };
        assert(center@ == spec_centroid(vertices@));
        let mut locals: Vec<Vec3> = Vec::new();
        for i in 0..len
            invariant
                len == vertices@.len(),
                forall|j: int|
                    0 <= j < vertices@.len() ==> v3_max_abs(#[trigger] vertices@[j]@) <= (
                    COORD_LIMIT as int),
                v3_max_abs(center@) <= COORD_LIMIT as int,
                center@ == spec_centroid(vertices@),
                locals@.len() == i,
                forall|j: int|
                    0 <= j < i ==> #[trigger] locals@[j]@ == v3_sub(
                        vertices@[j]@,
                        spec_centroid(vertices@),
                    ),
                forall|j: int|
                    0 <= j < i ==> v3_max_abs(#[trigger] locals@[j]@) <= 2 * (COORD_LIMIT as int),
        {
            proof {
                assert(v3_max_abs(vertices@[i as int]@) <= COORD_LIMIT as int);
            }
            locals.push(
                Vec3 {
                    x: vertices[i].x - center.x,
                    y: vertices[i].y - center.y,
                    z: vertices[i].z - center.z,
                },
            );
        }
        ConvexPolyhedron { vertices: locals, center, rotation: Quat::identity() }
    }

    /// Moves and reorients the polyhedron; the local vertex set is immutable.
    pub fn update(&mut self, position: Vec3, rotation: Quat)
        requires
            poly_wf(*old(self)),
            v3_max_abs(position@) <= COORD_LIMIT as int,
            q4_wf(rotation@),
        ensures
            *final(self) == (ConvexPolyhedron {
                vertices: old(self).vertices,
                center: position,
                rotation,
            }),
            poly_wf(*final(self)),
    {
        self.center = position;
        self.rotation = rotation;
    }

    /// World center; a pure query.
    pub fn get_center(&self) -> (r: Vec3)
        ensures
            r == self.center,
    {
        self.center
    }

    /// The vertex furthest along `direction`, in world space: the direction
    /// is normalized and carried into local space by the inverse rotation,
    /// the local vertices are scanned for the greatest scalar product, and
    /// the winner is carried back by the forward transform.
    pub fn furthest_point(&self, direction: Vec3) -> (r: Vec3)
        requires
            poly_wf(*self),
        ensures
            r@ == spec_poly_furthest(*self, direction@),
            v3_max_abs(r@) <= furthest_limit(),
    {
        let n = normalize_or_zero(&wide3_of(&direction));
        let cq = quat_conj(&self.rotation);
        let dl = rotate(&cq, &wide3_of(&n));
        proof {
            lemma_mul_le(
                v3_max_abs(self.vertices@[0]@),
                v3_max_abs(dl@),
                2 * (COORD_LIMIT as int),
                3 * (SCALE as int),
            );
        }
        let mut best: usize = 0;
        let mut best_dot: i128 = w3_dot(&wide3_of(&self.vertices[0]), &dl);
        let len = self.vertices.len();
        for i in 1..len
            invariant
                poly_wf(*self),
                len == self.vertices@.len(),
                v3_max_abs(dl@) <= 3 * (SCALE as int),
                0 <= best < i,
                best_dot == v3_dot(self.vertices@[best as int]@, dl@),
                best == best_index(self.vertices@, dl@, i as int),
        {
            proof {
                lemma_mul_le(
                    v3_max_abs(self.vertices@[i as int]@),
                    v3_max_abs(dl@),
                    2 * (COORD_LIMIT as int),
                    3 * (SCALE as int),
                );
            }
            let d = w3_dot(&wide3_of(&self.vertices[i]), &dl);
            if d > best_dot {
                best = i;
                best_dot = d;
            }
        }
        proof {
            lemma_best_index_range(self.vertices@, dl@, len as int);
        }
        let rw = rotate(&self.rotation, &wide3_of(&self.vertices[best]));
        let cw = wide3_of(&self.center);
        let sum = w3_add(&rw, &cw);
        narrow3(&sum)
    }
}

impl Collider {
    /// Re-poses the shape; side effect only.
    pub fn update(&mut self, position: Vec3, rotation: Quat)
        requires
            collider_wf(*old(self)),
            v3_max_abs(position@) <= COORD_LIMIT as int,
            q4_wf(rotation@),
        ensures
            *final(self) == collider_updated(*old(self), position, rotation),
            collider_wf(*final(self)),
    {
        match self {
            Collider::Sphere(s) => s.update(position, rotation),
            Collider::ConvexPolyhedron(p) => p.update(position, rotation),
        }
    }

    /// Current world center; a pure query.
    pub fn get_center(&self) -> (r: Vec3)
        ensures
            r@ == spec_center(*self),
    {
        match self {
            Collider::Sphere(s) => s.get_center(),
            Collider::ConvexPolyhedron(p) => p.get_center(),
        }
    }

    /// The boundary point maximizing the scalar product with `direction`;
    /// a pure query.
    pub fn furthest_point(&self, direction: Vec3) -> (r: Vec3)
        requires
            collider_wf(*self),
        ensures
            r@ == spec_furthest(*self, direction@),
            v3_max_abs(r@) <= furthest_limit(),
    {
        match self {
            Collider::Sphere(s) => s.furthest_point(direction),
            Collider::ConvexPolyhedron(p) => p.furthest_point(direction),
        }
    }
}

} // verus!
