//! Forward kinematics for a swerve drive in exact integer arithmetic.
//!
//! Angles are whole microdegrees, lengths whole micrometres and speeds whole
//! micrometres per second, so every result below is exact: the heading
//! optimizer compares against a quarter turn without rounding, and the solver
//! returns the least-squares chassis velocity as fractions over one common
//! denominator.
pub mod angle;
pub mod optimizer;
pub mod module;
pub mod sums;
pub mod spread;
pub mod solver;
pub mod laws;
pub mod misfit;
