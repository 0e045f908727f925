use ctc_research_framework::algebra::invariants::{
    redshift_factor_note, redshift_series, ricci_scalar_placeholder, sample_metric_report,
};
use ctc_research_framework::algebra::metric::{evaluate_metric_slice, metric_determinant, DIM};
use ctc_research_framework::exact::rational::Rational;
use num_bigint::BigInt;
use num_rational::BigRational;
use num_traits::ToPrimitive;

fn to_big(q: &Rational) -> BigRational {
    BigRational::new(
        BigInt::from_signed_bytes_le(&q.numer_bytes()),
        BigInt::from_signed_bytes_le(&q.denom_bytes()),
    )
}

fn q(n: i64, d: i64) -> Rational {
    Rational::new(n, d)
}

#[test]
fn equatorial_slice_has_lorentzian_det_sign() {
    let r = Rational::from_integer(2);
    let b_over_r = Rational::new(1, 2);
    let phi = Rational::zero();
    let omega = Rational::new(1, 10);
    let sin_theta = Rational::one();
    let g = evaluate_metric_slice(r, b_over_r, phi, omega, sin_theta);
    let det = metric_determinant(&g);
    assert!(to_big(&det).to_f64().unwrap() < 0.0);
    assert!(det.is_negative());
}

#[test]
fn equatorial_slice_determinant_closed_form() {
    // g_rr · r² · (−(1 + 2Φ) r² sin²θ) = 2 · 4 · (−4) = −32 at r = 2, b/r = 1/2, Φ = 0.
    let g = evaluate_metric_slice(
        Rational::from_integer(2),
        q(1, 2),
        Rational::zero(),
        q(1, 10),
        Rational::one(),
    );
    assert_eq!(metric_determinant(&g).to_text(), "-32");
    // With Φ = −1/20, r = 3, b/r = 1/3, ω = 1/5: (3/2) · 9 · (−(9/10) · 9) = −2187/20.
    let g = evaluate_metric_slice(Rational::from_integer(3), q(1, 3), q(-1, 20), q(1, 5), Rational::one());
    assert_eq!(metric_determinant(&g).to_text(), "-2187/20");
}

#[test]
fn equatorial_slice_entries() {
    let g = evaluate_metric_slice(Rational::from_integer(2), q(1, 2), Rational::zero(), q(1, 10), Rational::one());
    // g_tt = −1 + 4/100, g_rr = 2, g_θθ = 4, g_φφ = 4, g_tφ = g_φt = −4/10.
    assert_eq!(g[0][0].to_text(), "-24/25");
    assert_eq!(g[1][1].to_text(), "2");
    assert_eq!(g[2][2].to_text(), "4");
    assert_eq!(g[3][3].to_text(), "4");
    assert_eq!(g[0][3].to_text(), "-2/5");
    assert_eq!(g[3][0].to_text(), "-2/5");
    for i in 0..DIM {
        for j in 0..DIM {
            if i != j && !((i, j) == (0, 3) || (i, j) == (3, 0)) {
                assert_eq!(g[i][j].to_text(), "0");
            }
        }
    }
}

#[test]
fn off_equator_slice_scales_with_sin_squared() {
    // sin θ = 1/2 quarters the r² sin²θ factor: det = 2 · 4 · (−1) = −8.
    let g = evaluate_metric_slice(Rational::from_integer(2), q(1, 2), Rational::zero(), q(3, 7), q(1, 2));
    assert_eq!(metric_determinant(&g).to_text(), "-8");
}

#[test]
fn determinant_of_general_matrix() {
    let rows: [[i64; 4]; 4] = [[2, -1, 0, 3], [1, 4, 2, -2], [0, 5, -3, 1], [6, 0, 1, 2]];
    let g: [[Rational; 4]; 4] = std::array::from_fn(|i| std::array::from_fn(|j| Rational::from_integer(rows[i][j])));
    // Expansion along the first row gives 234.
    assert_eq!(metric_determinant(&g).to_text(), "234");
    let diag: [[Rational; 4]; 4] =
        std::array::from_fn(|i| std::array::from_fn(|j| if i == j { q(1, (i + 1) as i64) } else { Rational::zero() }));
    assert_eq!(metric_determinant(&diag).to_text(), "1/24");
}

#[test]
fn redshift_series_and_note() {
    let phi = q(-1, 20);
    assert_eq!(redshift_series(&phi).to_text(), "181/200");
    assert_eq!(
        redshift_factor_note(&phi),
        "e^{2Φ} ≈ 181/200 (series; enable --features high-prec for MPFR)"
    );
}

#[test]
fn sample_report_text() {
    assert_eq!(
        sample_metric_report(),
        "det(g) = -2187/20; e^{2Φ} ≈ 181/200 (series; enable --features high-prec for MPFR); Φ scaffold exact=-1/20"
    );
}

#[test]
fn ricci_placeholder_is_zero() {
    assert_eq!(ricci_scalar_placeholder().to_text(), "0");
}
