//! A real-time, grid-based incompressible-fluid solver.
//!
//! The solver advances a 2D velocity and smoke-density field forward in
//! fixed time steps using pressure projection and semi-Lagrangian advection,
//! around a static obstacle mask. All field values are fixed-point numbers
//! (see [`fixed`]).

pub mod advect;
pub mod fixed;
pub mod laws;
pub mod project;
pub mod render;
pub mod space;
pub mod stepper;
