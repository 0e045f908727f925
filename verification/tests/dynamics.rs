use ctc_research_framework::dynamics::bvp::{homogeneous_picard_smoke_test, inhomogeneous_picard_smoke_test};
use ctc_research_framework::dynamics::monodromy::KernelKind;

#[test]
fn default_kernel_is_yukawa_proxy() {
    assert_eq!(KernelKind::default(), KernelKind::YukawaProxy);
    assert_ne!(KernelKind::default(), KernelKind::ExponentialDecay);
}

#[test]
fn homogeneous_smoke_verdicts() {
    assert_eq!(
        homogeneous_picard_smoke_test(true, true),
        "PASS (homogeneous M_N Picard → Φ*≈0; spectral regression)"
    );
    for (a, b) in [(true, false), (false, true), (false, false)] {
        assert_eq!(homogeneous_picard_smoke_test(a, b), "FAIL (residual or ||Φ*|| above tolerance)");
    }
}

#[test]
fn inhomogeneous_smoke_verdicts() {
    assert_eq!(
        inhomogeneous_picard_smoke_test(true, true),
        "PASS (inhomogeneous M_N Picard → nontrivial Φ*; discrete response)"
    );
    for (a, b) in [(true, false), (false, true), (false, false)] {
        assert_eq!(inhomogeneous_picard_smoke_test(a, b), "FAIL (residual or ||Φ*|| outside tolerance)");
    }
}
