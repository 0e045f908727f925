//! Discrete operator diagnostics on axisymmetric background profiles:
//! the exact-arithmetic part of the framework.
//!
//! Signature (−+++), geometric units c = G = 1. Exact rational metric algebra,
//! energy-condition quadratic forms and the verdict logic of the Picard smoke
//! tests live here; floating-point numerics are driven from the application.

pub mod exact;
pub mod algebra;
pub mod dynamics;
pub mod energy;
