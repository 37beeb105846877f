//! A narrow-phase convex-collision engine and the rigid-body integrator that
//! drives it.
//!
//! All geometry lives in fixed-point coordinates: a value of `SCALE` stands
//! for one unit of length. Shapes (`Sphere`, `ConvexPolyhedron`) answer
//! support-point queries, the GJK engine (`collision`) decides whether two
//! shapes intersect, and `PhysicalObject` integrates motion and gates
//! collision queries behind per-object flags.

pub mod body;
pub mod collisions;
pub mod fixed;
pub mod laws;
pub mod quat;
pub mod shapes;
pub mod vec3;

pub use body::PhysicalObject;
pub use body::GRAVITY_Y;
pub use collisions::collision;
pub use fixed::COORD_LIMIT;
pub use fixed::SCALE;
pub use quat::Quat;
pub use shapes::Collider;
pub use shapes::ConvexPolyhedron;
pub use shapes::Sphere;
pub use vec3::Vec3;
