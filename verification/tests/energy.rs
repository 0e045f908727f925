use ctc_research_framework::energy::conditions::{
    nec_holds_on_samples, null_energy_condition_sample, sample_null, sample_timelike,
    weak_energy_condition_sample,
};
use ctc_research_framework::energy::stress_energy::{
    quadratic_form, sample_exotic_stress_energy, sample_ordinary_stress_energy,
};
use ctc_research_framework::exact::rational::Rational;

fn ints(v: [i64; 4]) -> [Rational; 4] {
    [
        Rational::from_integer(v[0]),
        Rational::from_integer(v[1]),
        Rational::from_integer(v[2]),
        Rational::from_integer(v[3]),
    ]
}

#[test]
fn ordinary_matter_passes_wec_sample() {
    assert!(weak_energy_condition_sample());
}

#[test]
fn exotic_sample_flagged() {
    let t = sample_exotic_stress_energy();
    let u = sample_timelike();
    // Scaffold T_00 < 0 → WEC violation for u = ∂_t
    assert!(quadratic_form(&t, &u).is_negative());
}

#[test]
fn ordinary_matter_passes_nec_sample() {
    assert!(null_energy_condition_sample());
}

#[test]
fn quadratic_form_values() {
    let exotic = sample_exotic_stress_energy();
    // −1/10 + 1/20 for k = (1, 1, 0, 0).
    assert_eq!(quadratic_form(&exotic, &sample_null()).to_text(), "-1/20");
    // −1/10 · 4 + 1/20 (1 + 4 + 9) = 3/10 for v = (2, 1, 2, 3).
    assert_eq!(quadratic_form(&exotic, &ints([2, 1, 2, 3])).to_text(), "3/10");
    let ordinary = sample_ordinary_stress_energy();
    assert_eq!(quadratic_form(&ordinary, &ints([3, 5, 0, 1])).to_text(), "9");
}

#[test]
fn nec_region_classifier() {
    let ordinary = sample_ordinary_stress_energy();
    let exotic = sample_exotic_stress_energy();
    let rays = vec![sample_null(), ints([1, 0, 1, 0]), ints([1, 0, 0, -1])];
    assert!(nec_holds_on_samples(&ordinary, &rays));
    // Exotic matter: T(k, k) = −1/10 + 1/20 < −10⁻¹² along every axis ray.
    assert!(!nec_holds_on_samples(&exotic, &rays));
    // No rays: the condition holds vacuously.
    assert!(nec_holds_on_samples(&exotic, &[]));
}
