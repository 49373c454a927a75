//! A 2D point-mass simulation under gravity and holonomic constraints.
//!
//! Positions are integrated with Störmer–Verlet steps; constraint violations
//! are turned into corrective forces by solving a Jacobian/Lagrange-multiplier
//! linear system with a warm-started conjugate-gradient solver.  All scalars
//! are fixed-point values on a sub-unit grid (see [`fixed`]), so every
//! arithmetic step has an exact, machine-checked meaning.

pub mod fixed;
pub mod linalg;
pub mod particle;
pub mod constraints;
pub mod solver;
