//! The rigid-body integrator.
//!
//! A `PhysicalObject` owns one collider, integrates its motion with
//! semi-implicit Euler steps, and gates collision queries behind per-object
//! enable flags. Two quirks of the design are kept deliberately:
//! `apply_force` overwrites the stored force rather than accumulating, and
//! the ground clamp does not zero the vertical velocity.

use crate::collisions::{collision, spec_gjk};
use crate::fixed::{fdiv, fmul, tdiv, tdiv_i128, COORD_LIMIT, SCALE};
use crate::quat::{q4_wf, Quat};
use crate::shapes::{collider_updated, collider_wf, Collider};
use crate::vec3::{v3_max_abs, Vec3, V3};
use vstd::prelude::*;

verus! {

/// Downward acceleration of standard gravity, in fixed-point units per
/// second squared.
pub const GRAVITY_Y: i64 = -9810;

/// A rigid body: pose, motion state, one owned collider, and the two
/// independent gravity and collision toggles.
pub struct PhysicalObject {
    pub position: Vec3,
    pub rotation: Quat,
    pub velocity: Vec3,
    pub forces: Vec3,
    pub mass: i64,
    pub gravity: Vec3,
    pub have_gravity: bool,
    pub have_collision: bool,
    pub collider: Collider,
}

pub open spec fn max_i(a: int, b: int) -> int {
    if a >= b {
        a
    } else {
        b
    }
}

/// A well-formed body: bounded state, positive mass, a well-formed rotation
/// and collider.
pub open spec fn body_wf(b: PhysicalObject) -> bool {
    &&& v3_max_abs(b.position@) <= COORD_LIMIT as int
    &&& v3_max_abs(b.velocity@) <= COORD_LIMIT as int
    &&& v3_max_abs(b.forces@) <= COORD_LIMIT as int
    &&& v3_max_abs(b.gravity@) <= COORD_LIMIT as int
    &&& 1 <= b.mass <= COORD_LIMIT
    &&& q4_wf(b.rotation@)
    &&& collider_wf(b.collider)
}

/// The force driving one step: the stored force, plus the body's weight when
/// gravity is enabled.
pub open spec fn spec_effective_force(b: PhysicalObject) -> V3 {
    if b.have_gravity {
        V3 {
            x: b.forces@.x + fmul(b.mass as int, b.gravity@.x),
            y: b.forces@.y + fmul(b.mass as int, b.gravity@.y),
            z: b.forces@.z + fmul(b.mass as int, b.gravity@.z),
        }
    } else {
        b.forces@
    }
}

/// Velocity after one step of length `dt`: the acceleration
/// `effective_force / mass`, scaled by `dt`, is added on.
pub open spec fn spec_new_velocity(b: PhysicalObject, dt: int) -> V3 {
    let f = spec_effective_force(b);
    V3 {
        x: b.velocity@.x + fmul(fdiv(f.x, b.mass as int), dt),
        y: b.velocity@.y + fmul(fdiv(f.y, b.mass as int), dt),
        z: b.velocity@.z + fmul(fdiv(f.z, b.mass as int), dt),
    }
}

/// Position after one step, before the ground clamp.
pub open spec fn spec_new_position_pre(b: PhysicalObject, dt: int) -> V3 {
    let v = spec_new_velocity(b, dt);
    V3 {
        x: b.position@.x + fmul(v.x, dt),
        y: b.position@.y + fmul(v.y, dt),
        z: b.position@.z + fmul(v.z, dt),
    }
}

/// Position after one step: the height is clamped to the ground plane one
/// unit below the origin. The velocity is left as it is.
pub open spec fn spec_new_position(b: PhysicalObject, dt: int) -> V3 {
    let p = spec_new_position_pre(b, dt);
    V3 { x: p.x, y: max_i(p.y, -(SCALE as int)), z: p.z }
}

/// The machine limit on one step: the new velocity and the unclamped new
/// position must stay within the coordinate range.
pub open spec fn step_fits(b: PhysicalObject, dt: int) -> bool {
    v3_max_abs(spec_new_velocity(b, dt)) <= COORD_LIMIT as int && v3_max_abs(
        spec_new_position_pre(b, dt),
    ) <= COORD_LIMIT as int
}

pub open spec fn opt_vec3_bounded(o: Option<Vec3>) -> bool {
    match o {
        Some(v) => v3_max_abs(v@) <= COORD_LIMIT as int,
        None => true,
    }
}

pub open spec fn opt_vec3_or_zero(o: Option<Vec3>) -> V3 {
    match o {
        Some(v) => v@,
        None => V3 { x: 0, y: 0, z: 0 },
    }
}

impl PhysicalObject {
    /// Builds a body at an initial pose with an owned collider. Velocity and
    /// force default to zero; gravity and collision start disabled; gravity
    /// pulls down at the standard rate until it is reconfigured.
    pub fn new(
        position: Vec3,
        rotation: Quat,
        velocity: Option<Vec3>,
        forces: Option<Vec3>,
        mass: i64,
        collider: Collider,
    ) -> (b: PhysicalObject)
        requires
            v3_max_abs(position@) <= COORD_LIMIT as int,
            q4_wf(rotation@),
            opt_vec3_bounded(velocity),
            opt_vec3_bounded(forces),
            1 <= mass <= COORD_LIMIT,
            collider_wf(collider),
        ensures
            b.position == position,
            b.rotation == rotation,
            b.velocity@ == opt_vec3_or_zero(velocity),
            b.forces@ == opt_vec3_or_zero(forces),
            b.mass == mass,
            b.gravity@ == (V3 { x: 0, y: GRAVITY_Y as int, z: 0 }),
            !b.have_gravity,
            !b.have_collision,
            b.collider == collider,
            body_wf(b),
    {
        let v = match velocity {
            Some(v) => v,
            None => Vec3 { x: 0, y: 0, z: 0 },
        };
        let f = match forces {
            Some(f) => f,
            None => Vec3 { x: 0, y: 0, z: 0 },
        };
        PhysicalObject {
            position,
            rotation,
            velocity: v,
            forces: f,
            mass,
            gravity: Vec3 { x: 0, y: GRAVITY_Y, z: 0 },
            have_gravity: false,
            have_collision: false,
            collider,
        }
    }

    /// Current position; a pure query.
    pub fn get_position(&self) -> (r: Vec3)
        ensures
            r == self.position,
    {
        self.position
    }

    /// Current rotation; a pure query.
    pub fn get_rotation(&self) -> (r: Quat)
        ensures
            r == self.rotation,
    {
        self.rotation
    }

    /// Sets the rotation. The owned collider keeps its old pose until the
    /// next `update`.
    pub fn update_rotation(&mut self, rotation: Quat)
        requires
            q4_wf(rotation@),
        ensures
            *final(self) == (PhysicalObject { rotation, ..*old(self) }),
    {
        self.rotation = rotation;
    }

    /// Replaces the gravity vector used by gravity-enabled steps.
    pub fn set_gravity(&mut self, gravity: Vec3)
        requires
            v3_max_abs(gravity@) <= COORD_LIMIT as int,
        ensures
            *final(self) == (PhysicalObject { gravity, ..*old(self) }),
    {
        self.gravity = gravity;
    }

    /// One semi-implicit Euler step of length `dt` (seconds, fixed-point):
    /// velocity picks up `effective_force / mass * dt`, position picks up
    /// `velocity * dt` and is clamped to the ground plane, and the owned
    /// collider is re-synced to the new pose. The clamp does not zero the
    /// velocity.
    pub fn update(&mut self, dt: i64)
        requires
            body_wf(*old(self)),
            -COORD_LIMIT <= dt <= COORD_LIMIT,
            step_fits(*old(self), dt as int),
        ensures
            final(self).velocity@ == spec_new_velocity(*old(self), dt as int),
            final(self).position@ == spec_new_position(*old(self), dt as int),
            final(self).rotation == old(self).rotation,
            final(self).forces == old(self).forces,
            final(self).mass == old(self).mass,
            final(self).gravity == old(self).gravity,
            final(self).have_gravity == old(self).have_gravity,
            final(self).have_collision == old(self).have_collision,
            final(self).collider == collider_updated(
                old(self).collider,
                final(self).position,
                old(self).rotation,
            ),
            body_wf(*final(self)),
    {
        proof {
            crate::fixed::lemma_abs_mul(
                self.mass as int,
                self.gravity@.x,
                COORD_LIMIT as int,
                COORD_LIMIT as int,
            );
            crate::fixed::lemma_abs_mul(
                self.mass as int,
                self.gravity@.y,
                COORD_LIMIT as int,
                COORD_LIMIT as int,
            );
            crate::fixed::lemma_abs_mul(
                self.mass as int,
                self.gravity@.z,
                COORD_LIMIT as int,
                COORD_LIMIT as int,
            );
            crate::fixed::lemma_tdiv_le(self.mass as int * self.gravity@.x, SCALE as int);
            crate::fixed::lemma_tdiv_le(self.mass as int * self.gravity@.y, SCALE as int);
            crate::fixed::lemma_tdiv_le(self.mass as int * self.gravity@.z, SCALE as int);
        }
        let m128: i128 = self.mass as i128;
        let fx: i128;
        let fy: i128;
        let fz: i128;
        if self.have_gravity {
            fx = self.forces.x as i128 + tdiv_i128(m128 * self.gravity.x as i128, SCALE as i128);
            fy = self.forces.y as i128 + tdiv_i128(m128 * self.gravity.y as i128, SCALE as i128);
            fz = self.forces.z as i128 + tdiv_i128(m128 * self.gravity.z as i128, SCALE as i128);
        } else {
            fx = self.forces.x as i128;
            fy = self.forces.y as i128;
            fz = self.forces.z as i128;
        }
        let ghost eff = spec_effective_force(*self);
        proof {
            assert(fx == eff.x && fy == eff.y && fz == eff.z);
            crate::fixed::lemma_tdiv_le(eff.x * SCALE as int, m128 as int);
            crate::fixed::lemma_tdiv_le(eff.y * SCALE as int, m128 as int);
            crate::fixed::lemma_tdiv_le(eff.z * SCALE as int, m128 as int);
        }
        let ax: i128 = tdiv_i128(fx * (SCALE as i128), m128);
        let ay: i128 = tdiv_i128(fy * (SCALE as i128), m128);
        let az: i128 = tdiv_i128(fz * (SCALE as i128), m128);
        proof {
            crate::fixed::lemma_tdiv_le(ax as int * dt as int, SCALE as int);
            crate::fixed::lemma_tdiv_le(ay as int * dt as int, SCALE as int);
            crate::fixed::lemma_tdiv_le(az as int * dt as int, SCALE as int);
        }
        let vx: i128 = self.velocity.x as i128 + tdiv_i128(ax * dt as i128, SCALE as i128);
        let vy: i128 = self.velocity.y as i128 + tdiv_i128(ay * dt as i128, SCALE as i128);
        let vz: i128 = self.velocity.z as i128 + tdiv_i128(az * dt as i128, SCALE as i128);
        let ghost nv = spec_new_velocity(*self, dt as int);
        proof {
            assert(vx == nv.x && vy == nv.y && vz == nv.z);
        }
        let new_velocity = Vec3 { x: vx as i64, y: vy as i64, z: vz as i64 };
        proof {
            crate::fixed::lemma_tdiv_le(vx as int * dt as int, SCALE as int);
            crate::fixed::lemma_tdiv_le(vy as int * dt as int, SCALE as int);
            crate::fixed::lemma_tdiv_le(vz as int * dt as int, SCALE as int);
        }
        let px: i128 = self.position.x as i128 + tdiv_i128(vx * dt as i128, SCALE as i128);
        let py: i128 = self.position.y as i128 + tdiv_i128(vy * dt as i128, SCALE as i128);
        let pz: i128 = self.position.z as i128 + tdiv_i128(vz * dt as i128, SCALE as i128);
        let ghost np = spec_new_position_pre(*self, dt as int);
        proof {
            assert(px == np.x && py == np.y && pz == np.z);
        }
        let clamped_y: i128 = if py < -(SCALE as i128) {
            -(SCALE as i128)
        } else {
            py
        };
        let new_position = Vec3 { x: px as i64, y: clamped_y as i64, z: pz as i64 };
        self.velocity = new_velocity;
        self.position = new_position;
        self.collider.update(self.position, self.rotation);
    }

    /// Overwrites the stored force; it is not added to the previous one. A
    /// caller wanting a persistent thrust must apply it again every tick.
    pub fn apply_force(&mut self, force: Vec3)
        requires
            v3_max_abs(force@) <= COORD_LIMIT as int,
        ensures
            *final(self) == (PhysicalObject { forces: force, ..*old(self) }),
    {
        self.forces = force;
    }

    pub fn enable_gravity(&mut self)
        ensures
            *final(self) == (PhysicalObject { have_gravity: true, ..*old(self) }),
    {
        self.have_gravity = true;
    }

    pub fn disable_gravity(&mut self)
        ensures
            *final(self) == (PhysicalObject { have_gravity: false, ..*old(self) }),
    {
        self.have_gravity = false;
    }

    pub fn enable_collision(&mut self)
        ensures
            *final(self) == (PhysicalObject { have_collision: true, ..*old(self) }),
    {
        self.have_collision = true;
    }

    pub fn disable_collision(&mut self)
        ensures
            *final(self) == (PhysicalObject { have_collision: false, ..*old(self) }),
    {
        self.have_collision = false;
    }

    /// Whether this body collides with the other: true exactly when both
    /// bodies have collision enabled and their colliders intersect. A body
    /// with collision disabled never reports a collision, however much the
    /// shapes overlap.
    pub fn collide(&self, other: &PhysicalObject) -> (r: bool)
        requires
            body_wf(*self),
            body_wf(*other),
        ensures
            r == (self.have_collision && other.have_collision && spec_gjk(
                self.collider,
                other.collider,
            )),
            !(self.have_collision && other.have_collision) ==> r == false,
    {
        self.have_collision && other.have_collision && collision(&self.collider, &other.collider)
    }
}

} // verus!
