//! The discrete monodromy operator's exact parts: the kernel family selector
//! and the verdicts of the Picard smoke tests.

pub mod bvp;
pub mod monodromy;
