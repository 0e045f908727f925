//! Verdicts of the Picard smoke tests for the discrete monodromy operator.
//!
//! The Picard runs themselves are floating-point computations; these functions
//! take the outcome of their tolerance checks and decide the reported verdict.

use vstd::prelude::*;

verus! {

/// Verdict of the homogeneous Picard smoke test: PASS exactly when the
/// residual is below 1e-8 and ‖Φ*‖₂ is below 1e-6 (the trivial fixed point).
pub fn homogeneous_picard_smoke_test(residual_below_tol: bool, norm_below_tol: bool) -> (verdict: &'static str)
    ensures
        verdict@ == if residual_below_tol && norm_below_tol {
            "PASS (homogeneous M_N Picard → Φ*≈0; spectral regression)"@
        } else {
            "FAIL (residual or ||Φ*|| above tolerance)"@
        },
{
    if residual_below_tol && norm_below_tol {
        "PASS (homogeneous M_N Picard → Φ*≈0; spectral regression)"
    } else {
        "FAIL (residual or ||Φ*|| above tolerance)"
    }
}

/// Verdict of the inhomogeneous Picard smoke test Φ = KΦ + S: PASS exactly when
/// the residual is below 1e-8 and ‖Φ*‖₂ is above 1e-3 (a nontrivial response).
pub fn inhomogeneous_picard_smoke_test(residual_below_tol: bool, norm_above_floor: bool) -> (verdict: &'static str)
    ensures
        verdict@ == if residual_below_tol && norm_above_floor {
            "PASS (inhomogeneous M_N Picard → nontrivial Φ*; discrete response)"@
        } else {
            "FAIL (residual or ||Φ*|| outside tolerance)"@
        },
{
    if residual_below_tol && norm_above_floor {
        "PASS (inhomogeneous M_N Picard → nontrivial Φ*; discrete response)"
    } else {
        "FAIL (residual or ||Φ*|| outside tolerance)"
    }
}

} // verus!
