//! A particle-based cloth simulation: a lattice of mass points joined by
//! distance constraints, advanced by Verlet integration in fixed steps,
//! with the triangle buffers a renderer draws and ray picking for
//! interactive dragging.
//!
//! The simulation is generic over the arithmetic it runs on (see
//! [`math::Real`] and [`math::Vector`]). Every operation states its result
//! exactly over the spec counterparts of that arithmetic (the Verlet step,
//! the constraint correction, wind, normals, picking), together with the
//! lattice topology, the constraint order, the permanence of anchors, step
//! counting and buffer layout.

pub mod cloth;
pub mod grid;
pub mod input;
pub mod lattice;
pub mod math;
pub mod memo;
pub mod mesh;
pub mod palette;
pub mod particle;
pub mod pick;
pub mod stepper;

pub use cloth::{Cloth, ClothError, SimConfig};
pub use input::DragKind;
pub use math::{Real, Vector};
pub use memo::Memoized;
pub use particle::{Constraint, Particle};
pub use pick::Ray;
pub use stepper::FixedStep;
