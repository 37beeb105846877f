//! Tests of the collider shapes and the GJK intersection test. Coordinates
//! are fixed-point: 1000 stands for one unit of length.

use gjk_physics::collision;
use gjk_physics::Collider;
use gjk_physics::ConvexPolyhedron;
use gjk_physics::Quat;
use gjk_physics::Sphere;
use gjk_physics::Vec3;

fn unit_tetrahedron() -> ConvexPolyhedron {
    let vertices = vec![
        Vec3::new(0, 0, 0),
        Vec3::new(1000, 0, 0),
        Vec3::new(0, 1000, 0),
        Vec3::new(0, 0, 1000),
    ];
    ConvexPolyhedron::new(vertices)
}

#[test]
fn test_sphere_furthest_point() {
    let sphere = Sphere::new(Vec3::new(0, 0, 0), 1000);
    let direction = Vec3::new(1000, 0, 0);
    let furthest_point = sphere.furthest_point(direction);
    assert_eq!(furthest_point, Vec3::new(1000, 0, 0));
}

#[test]
fn test_convex_polyhedron_furthest_point() {
    let polyhedron = unit_tetrahedron();
    let direction = Vec3::new(1000, 0, 0);
    let furthest_point = polyhedron.furthest_point(direction);
    assert_eq!(furthest_point, Vec3::new(1000, 0, 0));
}

#[test]
fn test_sphere_collision() {
    let sphere1 = Collider::Sphere(Sphere::new(Vec3::new(0, 0, 0), 1000));
    let sphere2 = Collider::Sphere(Sphere::new(Vec3::new(2000, 0, 0), 1000));
    assert_eq!(collision(&sphere1, &sphere2), false, "Spheres too far apart");

    let sphere1 = Collider::Sphere(Sphere::new(Vec3::new(0, 0, 0), 1000));
    let sphere2 = Collider::Sphere(Sphere::new(Vec3::new(1000, 0, 0), 1000));
    assert_eq!(collision(&sphere1, &sphere2), true, "Spheres collide on one point");

    let sphere1 = Collider::Sphere(Sphere::new(Vec3::new(0, 0, 0), 1000));
    let sphere2 = Collider::Sphere(Sphere::new(Vec3::new(1000, 0, 0), 2000));
    assert_eq!(collision(&sphere1, &sphere2), true, "Spheres collide on more than one point");

    let sphere1 = Collider::Sphere(Sphere::new(Vec3::new(0, 0, 0), 1000));
    let sphere2 = Collider::Sphere(Sphere::new(Vec3::new(1000, 0, 0), 3000));
    assert_eq!(collision(&sphere1, &sphere2), true, "Spheres inside each other");
}

#[test]
fn sphere_furthest_point_zero_direction_is_center() {
    let sphere = Sphere::new(Vec3::new(5000, 2000, -3000), 1500);
    let furthest_point = sphere.furthest_point(Vec3::new(0, 0, 0));
    assert_eq!(furthest_point, Vec3::new(5000, 2000, -3000));
}

#[test]
fn sphere_furthest_point_non_axis_direction() {
    // A 3-4-0 direction normalizes exactly; a radius of two units lands on
    // the boundary point (1.2, 1.6, 0).
    let sphere = Sphere::new(Vec3::new(0, 0, 0), 2000);
    let furthest_point = sphere.furthest_point(Vec3::new(3, 4, 0));
    assert_eq!(furthest_point, Vec3::new(1200, 1600, 0));
}

#[test]
fn sphere_furthest_point_off_center() {
    // Any positive direction along the x axis reaches the same boundary
    // point: the center moved by the radius.
    let sphere = Sphere::new(Vec3::new(2000, 3000, 4000), 500);
    assert_eq!(sphere.furthest_point(Vec3::new(7, 0, 0)), Vec3::new(2500, 3000, 4000));
    assert_eq!(sphere.furthest_point(Vec3::new(987654, 0, 0)), Vec3::new(2500, 3000, 4000));
}

#[test]
fn polyhedron_center_is_centroid() {
    let polyhedron = unit_tetrahedron();
    assert_eq!(polyhedron.get_center(), Vec3::new(250, 250, 250));
}

#[test]
fn polyhedron_furthest_point_after_rotation() {
    // A quarter turn about the z axis: the quaternion (707, 0, 0, 707) has
    // squared length 999698, and the winning vertex maps exactly.
    let mut polyhedron = unit_tetrahedron();
    polyhedron.update(Vec3::new(0, 0, 0), Quat::new(707, 0, 0, 707));
    let furthest_point = polyhedron.furthest_point(Vec3::new(0, 1000, 0));
    assert_eq!(furthest_point, Vec3::new(250, 750, -250));
}

#[test]
fn collider_update_moves_sphere() {
    let mut collider = Collider::Sphere(Sphere::new(Vec3::new(0, 0, 0), 1000));
    collider.update(Vec3::new(4000, 5000, 6000), Quat::identity());
    assert_eq!(collider.get_center(), Vec3::new(4000, 5000, 6000));
}

#[test]
fn collision_is_symmetric_on_sphere_pairs() {
    let cases = [
        (2000i64, 1000i64, 1000i64),
        (1000, 1000, 1000),
        (1000, 2000, 1000),
        (1000, 3000, 1000),
        (1999, 1000, 1000),
        (2001, 1000, 1000),
    ];
    for (distance, r2, r1) in cases {
        let a = Collider::Sphere(Sphere::new(Vec3::new(0, 0, 0), r1));
        let b = Collider::Sphere(Sphere::new(Vec3::new(distance, 0, 0), r2));
        assert_eq!(collision(&a, &b), collision(&b, &a));
    }
}

#[test]
fn collision_is_symmetric_on_mixed_pair() {
    let polyhedron = Collider::ConvexPolyhedron(unit_tetrahedron());
    let sphere = Collider::Sphere(Sphere::new(Vec3::new(5000, 0, 0), 1000));
    assert_eq!(collision(&polyhedron, &sphere), collision(&sphere, &polyhedron));
    assert_eq!(collision(&polyhedron, &sphere), false);
}

#[test]
fn polyhedron_collision_overlapping_and_apart() {
    let vertices = |shift: i64| {
        vec![
            Vec3::new(shift, 0, 0),
            Vec3::new(shift + 1000, 0, 0),
            Vec3::new(shift, 1000, 0),
            Vec3::new(shift, 0, 1000),
        ]
    };
    let base = Collider::ConvexPolyhedron(ConvexPolyhedron::new(vertices(0)));
    let overlapping = Collider::ConvexPolyhedron(ConvexPolyhedron::new(vertices(500)));
    let apart = Collider::ConvexPolyhedron(ConvexPolyhedron::new(vertices(2000)));
    assert_eq!(collision(&base, &overlapping), true);
    assert_eq!(collision(&base, &apart), false);
}

#[test]
fn collision_terminates_on_near_tangent_spheres() {
    // Overlap by a thousandth of a unit: collision. A gap of a thousandth:
    // none. Both runs stop well within the iteration cap.
    let a = Collider::Sphere(Sphere::new(Vec3::new(0, 0, 0), 1000));
    let overlapping = Collider::Sphere(Sphere::new(Vec3::new(1999, 0, 0), 1000));
    let separated = Collider::Sphere(Sphere::new(Vec3::new(2001, 0, 0), 1000));
    assert_eq!(collision(&a, &overlapping), true);
    assert_eq!(collision(&a, &separated), false);
}

#[test]
fn collision_terminates_on_degenerate_configurations() {
    // Concentric shapes yield a zero initial direction, which stalls the
    // search: the engine answers, conservatively, that nothing was found.
    let a = Collider::Sphere(Sphere::new(Vec3::new(0, 0, 0), 1000));
    let b = Collider::Sphere(Sphere::new(Vec3::new(0, 0, 0), 2000));
    assert_eq!(collision(&a, &b), false);
    let p = Collider::ConvexPolyhedron(unit_tetrahedron());
    let q = Collider::ConvexPolyhedron(unit_tetrahedron());
    assert_eq!(collision(&p, &q), false);
}

#[test]
fn queries_are_idempotent() {
    let collider = Collider::ConvexPolyhedron(unit_tetrahedron());
    let direction = Vec3::new(700, -300, 100);
    assert_eq!(collider.get_center(), collider.get_center());
    assert_eq!(collider.furthest_point(direction), collider.furthest_point(direction));
    let sphere = Sphere::new(Vec3::new(100, 200, 300), 1234);
    assert_eq!(sphere.furthest_point(direction), sphere.furthest_point(direction));
    assert_eq!(sphere.get_center(), sphere.get_center());
}
