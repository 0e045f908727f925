//! Stress-energy samples and classical energy-condition checks, in exact
//! arithmetic.
//!
//! Sample tensors support unit-test quadratic forms only; they are not
//! assembled from curvature.

pub mod conditions;
pub mod quadratic_laws;
pub mod stress_energy;
