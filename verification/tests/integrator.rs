//! Tests of the rigid-body integrator. Coordinates are fixed-point: 1000
//! stands for one unit, so standard gravity is -9810 per second squared and
//! a time step of one second is 1000.

use gjk_physics::Collider;
use gjk_physics::PhysicalObject;
use gjk_physics::Quat;
use gjk_physics::Sphere;
use gjk_physics::Vec3;

fn body_at(position: Vec3, mass: i64) -> PhysicalObject {
    let collider = Collider::Sphere(Sphere::new(position, 1000));
    PhysicalObject::new(position, Quat::identity(), None, None, mass, collider)
}

#[test]
fn gravity_step_accelerates_and_clamps() {
    // Unit mass, one-second step: velocity picks up -9.81 on y; the position
    // would fall to -9.81 and is clamped to the ground plane at -1.
    let mut body = body_at(Vec3::new(0, 0, 0), 1000);
    body.enable_gravity();
    body.update(1000);
    assert_eq!(body.velocity, Vec3::new(0, -9810, 0));
    assert_eq!(body.get_position(), Vec3::new(0, -1000, 0));
}

#[test]
fn gravity_step_without_clamp() {
    let mut body = body_at(Vec3::new(0, 20000, 0), 1000);
    body.enable_gravity();
    body.update(1000);
    assert_eq!(body.velocity, Vec3::new(0, -9810, 0));
    assert_eq!(body.get_position(), Vec3::new(0, 10190, 0));
}

#[test]
fn clamp_does_not_zero_velocity() {
    // A resting body keeps accumulating downward velocity: the ground clamp
    // holds the position but deliberately leaves the velocity alone.
    let mut body = body_at(Vec3::new(0, 0, 0), 1000);
    body.enable_gravity();
    body.update(1000);
    body.update(1000);
    assert_eq!(body.velocity, Vec3::new(0, -19620, 0));
    assert_eq!(body.get_position(), Vec3::new(0, -1000, 0));
}

#[test]
fn gravity_disabled_means_no_motion() {
    let mut body = body_at(Vec3::new(0, 5000, 0), 1000);
    body.update(1000);
    assert_eq!(body.velocity, Vec3::new(0, 0, 0));
    assert_eq!(body.get_position(), Vec3::new(0, 5000, 0));
}

#[test]
fn heavier_mass_same_gravity_acceleration() {
    // Weight scales with mass and is divided out again: a two-unit mass
    // falls exactly as a unit mass does.
    let mut body = body_at(Vec3::new(0, 20000, 0), 2000);
    body.enable_gravity();
    body.update(1000);
    assert_eq!(body.velocity, Vec3::new(0, -9810, 0));
}

#[test]
fn apply_force_overwrites_previous_force() {
    let mut body = body_at(Vec3::new(0, 5000, 0), 1000);
    body.apply_force(Vec3::new(1000, 0, 0));
    body.apply_force(Vec3::new(0, 0, 2000));
    body.update(1000);
    assert_eq!(body.velocity, Vec3::new(0, 0, 2000));
    assert_eq!(body.get_position(), Vec3::new(0, 5000, 2000));
}

#[test]
fn update_rotation_changes_rotation_only() {
    let mut body = body_at(Vec3::new(0, 5000, 0), 1000);
    let turned = Quat::new(707, 0, 0, 707);
    body.update_rotation(turned);
    assert_eq!(body.get_rotation(), turned);
    assert_eq!(body.get_position(), Vec3::new(0, 5000, 0));
}

#[test]
fn update_resyncs_collider_to_new_pose() {
    let mut body = body_at(Vec3::new(0, 20000, 0), 1000);
    body.enable_gravity();
    body.update(1000);
    assert_eq!(body.collider.get_center(), Vec3::new(0, 10190, 0));
}

#[test]
fn collide_requires_both_flags() {
    // The spheres overlap geometrically, but a body with collision disabled
    // never reports a collision.
    let mut a = body_at(Vec3::new(0, 0, 0), 1000);
    let mut b = body_at(Vec3::new(1000, 0, 0), 1000);
    assert_eq!(a.collide(&b), false);
    assert_eq!(b.collide(&a), false);
    a.enable_collision();
    assert_eq!(a.collide(&b), false);
    assert_eq!(b.collide(&a), false);
    b.enable_collision();
    assert_eq!(a.collide(&b), true);
    assert_eq!(b.collide(&a), true);
    a.disable_collision();
    assert_eq!(a.collide(&b), false);
    assert_eq!(b.collide(&a), false);
}

#[test]
fn collide_true_only_when_shapes_meet() {
    let mut a = body_at(Vec3::new(0, 5000, 0), 1000);
    let mut b = body_at(Vec3::new(9000, 5000, 0), 1000);
    a.enable_collision();
    b.enable_collision();
    assert_eq!(a.collide(&b), false);
    assert_eq!(b.collide(&a), false);
}

#[test]
fn set_gravity_changes_the_pull() {
    // Gravity is configuration: a moon-like pull of -1.62 units per second
    // squared shows up directly in the velocity.
    let mut body = body_at(Vec3::new(0, 20000, 0), 1000);
    body.set_gravity(Vec3::new(0, -1620, 0));
    body.enable_gravity();
    body.update(1000);
    assert_eq!(body.velocity, Vec3::new(0, -1620, 0));
    assert_eq!(body.get_position(), Vec3::new(0, 18380, 0));
}
