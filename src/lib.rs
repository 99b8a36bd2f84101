//! A point-mass exterior ballistics engine in fixed-point arithmetic.
//!
//! The engine advances a projectile's motion under drag, gravity and the
//! Coriolis effect, searches for the muzzle pitch that puts the trajectory
//! through a zero point, and samples a trajectory into a drop table.
//!
//! Every quantity is an integer in a fixed unit, so that each result is
//! specified exactly and proved free of overflow:
//! - [`fixed`]: floor division, square root, sine, cosine, exponential and
//!   arctangent on scaled integers;
//! - [`drag_table`] and [`drag_tables`]: drag coefficient against Mach number;
//! - [`atmosphere`]: air density and the speed of sound;
//! - [`projectile`], [`simulation`]: the inputs of a run and its model;
//! - [`integrator`]: the force model and the lazy sequence of motion samples;
//! - [`zero`]: the search for the zeroing pitch;
//! - [`table`], [`simulator`]: drop tables and the full solve.
pub mod atmosphere;
pub mod drag_table;
pub mod drag_tables;
pub mod error;
pub mod fixed;
pub mod integrator;
pub mod projectile;
pub mod runs;
pub mod simulation;
pub mod simulator;
pub mod table;
pub mod vector;
pub mod zero;
