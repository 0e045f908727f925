//! Exact rational numbers: the pair model used in contracts and the
//! arbitrary-precision rational type computed by `num-rational`.

pub mod field;
pub mod rational;
