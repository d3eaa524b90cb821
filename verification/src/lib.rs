//! A minimal two-dimensional particle simulation on an integer grid.
//!
//! Circular bodies move on a bounded plane, bounce off its walls and exchange
//! velocity when they overlap. Every coordinate is an `i32` in world units
//! and every operation on coordinates saturates at the ends of that range,
//! so a tick is total: it never fails and never panics.

pub mod vector;
pub mod body;
pub mod integrator;
pub mod wall;
pub mod pair;
pub mod simulation;

pub use crate::body::{create_body, Body, BodyError, Bounds};
pub use crate::simulation::{step, Simulation};
pub use crate::vector::Vec2;
