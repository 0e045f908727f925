//! Curvature / metric invariant reports in exact arithmetic.

use vstd::prelude::*;
use vstd::string::StringExecFns;
use crate::exact::field::{
    QPair, qeq, qint, qadd, qsub, qmul, qdiv, lowest_terms, lemma_qeq_refl, lemma_qeq_trans, lemma_lowest_terms_unique,
    lemma_step_add, lemma_step_mul,
};
use crate::algebra::slice_laws::{lemma_slice_determinant, slice_det_formula};
use crate::exact::rational::{Rational, rat_text, lemma_rational_den_pos};
use crate::algebra::metric::{
    MetricRational, evaluate_metric_slice, metric_determinant, e2phi_linear, r2_sin2_spec, det4_spec, metric_values, is_equatorial_slice,
};

verus! {

broadcast use lemma_rational_den_pos;

/// The second-order series 1 + 2Φ + 2Φ² for e^{2Φ}.
pub open spec fn redshift_series_spec(phi: QPair) -> QPair {
    qadd(qadd(qint(1), qmul(qint(2), phi)), qmul(qmul(qint(2), phi), phi))
}

/// The text of the redshift note for the series value `approx`.
pub open spec fn redshift_note_text(approx: QPair) -> Seq<char> {
    "e^{2Φ} ≈ "@ + rat_text(approx) + " (series; enable --features high-prec for MPFR)"@
}

/// The text of the sample report.
pub open spec fn report_text(det: QPair, note: Seq<char>, phi: QPair) -> Seq<char> {
    "det(g) = "@ + rat_text(det) + "; "@ + note + "; Φ scaffold exact="@ + rat_text(phi)
}

/// The series 1 + 2Φ + 2Φ², exactly.
pub fn redshift_series(phi: &Rational) -> (approx: Rational)
    ensures
        qeq(approx@, redshift_series_spec(phi@)),
        lowest_terms(approx@),
{
    let two = Rational::from_integer(2);
    let two_phi = two.mul(phi);
    let lin = Rational::one().add(&two_phi);
    let quad = two_phi.mul(phi);
    let approx = lin.add(&quad);
    proof {
        lemma_qeq_refl(qint(1));
        lemma_qeq_refl(qint(2));
        lemma_qeq_refl(phi@);
        lemma_step_add(lin@, qint(1), two_phi@, qint(1), qmul(qint(2), phi@));
        lemma_step_mul(quad@, two_phi@, phi@, qmul(qint(2), phi@), phi@);
        lemma_step_add(approx@, lin@, quad@, qadd(qint(1), qmul(qint(2), phi@)), qmul(qmul(qint(2), phi@), phi@));
    }
    approx
}

/// Redshift factor note: e^{2Φ} by its second-order series (the exact value of
/// 1 + 2Φ + 2Φ², in lowest terms). The note names the MPFR `high-prec` build as
/// the way to an exact exponential; this crate computes the series only.
pub fn redshift_factor_note(phi: &Rational) -> (note: String)
    ensures
        exists|a: QPair|
            a.1 > 0 && lowest_terms(a) && qeq(a, redshift_series_spec(phi@)) && note@ == redshift_note_text(a),
{
    let approx = redshift_series(phi);
    let mut note = String::from_str("e^{2Φ} ≈ ");
    let text = approx.to_text();
    note.append(text.as_str());
    note.append(" (series; enable --features high-prec for MPFR)");
    assert(note@ == redshift_note_text(approx@));
    note
}

/// Sample metric report: the determinant of the equatorial slice at r = 3,
/// b/r = 1/3, Φ = −1/20, ω = 1/5, sin θ = 1 (which is −2187/20), the redshift
/// note for that Φ (1 + 2Φ + 2Φ² = 181/200), and Φ itself, as exact rationals
/// in lowest terms.
pub fn sample_metric_report() -> (report: String)
    ensures
        report@ == report_text((-2187, 20), redshift_note_text((181, 200)), (-1, 20)),
{
    let r = Rational::from_integer(3);
    let b_over_r = Rational::new(1, 3);
    let phi = Rational::new(-1, 20);
    let omega = Rational::new(1, 5);
    let sin_theta = Rational::one();
    proof {
        lemma_lowest_terms_unique(b_over_r@, (1, 3), 1, 0);
        lemma_lowest_terms_unique(phi@, (-1, 20), -1, 0);
        lemma_lowest_terms_unique(omega@, (1, 5), 1, 0);
    }
    let phi_shown = phi.copy();
    let phi_note = phi.copy();
    let g = evaluate_metric_slice(r, b_over_r, phi, omega, sin_theta);
    let det = metric_determinant(&g);
    let note = redshift_factor_note(&phi_note);
    let mut report = String::from_str("det(g) = ");
    let det_text = det.to_text();
    report.append(det_text.as_str());
    report.append("; ");
    report.append(note.as_str());
    report.append("; Φ scaffold exact=");
    let phi_text = phi_shown.to_text();
    report.append(phi_text.as_str());
    proof {
        // The determinant is −2187/20.
        let f = slice_det_formula(qint(3), (1, 3), (-1, 20), qint(1));
        lemma_slice_determinant(g, qint(3), (1, 3), (-1, 20), (1, 5), qint(1));
        assert(3int * 3 == 9 && 9int * 1 == 9 && 3int * 9 == 27 && 2int * 1 == 2 && 18int * 9 == 162
            && 20int * 1 == 20 && 27int * -162 == -4374 && 2int * 20 == 40) by (nonlinear_arith);
        assert(e2phi_linear((-1, 20)) == (18int, 20int));
        assert(qmul(qint(3), qint(3)) == (9int, 1int));
        assert(qmul((9int, 1int), qint(1)) == (9int, 1int));
        assert(r2_sin2_spec(qint(3), qint(1)) == (9int, 1int));
        assert(qsub(qint(1), (1, 3)) == (2int, 3int));
        assert(qdiv(qint(1), (2int, 3int)) == (3int, 2int));
        assert(qmul((3int, 2int), (9int, 1int)) == (27int, 2int));
        assert(qmul((18int, 20int), (9int, 1int)) == (162int, 20int));
        assert(qmul((27int, 2int), (-162int, 20int)) == (-4374int, 40int));
        assert(f == (-4374int, 40int));
        lemma_qeq_trans(det@, det4_spec(metric_values(g)), f);
        assert(det@.0 * 20 == -2187 * det@.1) by (nonlinear_arith)
            requires
                det@.0 * 40 == -4374 * det@.1,
        ;
        lemma_lowest_terms_unique(det@, (-2187, 20), -3, -328);
        // The series value is 181/200.
        let aa = choose|a: QPair|
            a.1 > 0 && lowest_terms(a) && qeq(a, redshift_series_spec(phi_note@)) && note@ == redshift_note_text(a);
        assert(2int * -1 == -2 && 1int * 20 == 20 && -2int * 1 == -2 && -2int * -1 == 2 && 20int * 20 == 400
            && 18int * 400 == 7200 && 2int * 20 == 40 && 20int * 400 == 8000) by (nonlinear_arith);
        assert(qmul(qint(2), (-1, 20)) == (-2int, 20int));
        assert(qadd(qint(1), (-2int, 20int)) == (18int, 20int));
        assert(qmul((-2int, 20int), (-1, 20)) == (2int, 400int));
        assert(qadd((18int, 20int), (2int, 400int)) == (7240int, 8000int));
        assert(redshift_series_spec((-1, 20)) == (7240int, 8000int));
        lemma_lowest_terms_unique(aa, (181, 200), 21, -19);
        assert(report@ =~= report_text(det@, redshift_note_text(aa), phi_shown@));
    }
    report
}

/// Scalar curvature placeholder (zero until the Riemann pipeline is wired).
pub fn ricci_scalar_placeholder() -> (r: Rational)
    ensures
        r@ == qint(0),
{
    Rational::zero()
}

} // verus!
