//! Exact metric algebra on the equatorial slice and invariant reports.

pub mod determinant_laws;
pub mod invariants;
pub mod metric;
pub mod slice_laws;

pub use metric::DIM;
