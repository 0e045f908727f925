//! Classical energy-condition checks on sample tensors.
//!
//! - NEC: T_{μν} k^μ k^ν ≥ 0 for null k^μ
//! - WEC: T_{μν} u^μ u^ν ≥ 0 for timelike u^μ

use vstd::prelude::*;
use crate::exact::field::{QPair, qeq, qint, qge};
use crate::exact::rational::{Rational, lemma_rational_den_pos};
use crate::algebra::metric::QMatrix;
use crate::energy::stress_energy::{
    Tensor4, Vector4, quadratic_form, quadratic_partial, quadratic_spec, tensor_values, vector_values,
    sample_ordinary_stress_energy,
};

verus! {

broadcast use lemma_rational_den_pos;

/// The null vector k^μ = (1, 1, 0, 0) (η(k, k) = 0 in Minkowski (−+++)).
pub open spec fn null_sample_spec() -> spec_fn(int) -> QPair {
    |i: int| if i == 0 || i == 1 { qint(1) } else { qint(0) }
}

/// The future-directed unit timelike vector u^μ = (1, 0, 0, 0).
pub open spec fn timelike_sample_spec() -> spec_fn(int) -> QPair {
    |i: int| if i == 0 { qint(1) } else { qint(0) }
}

/// The ordinary dust-like sample: ρ = 1 in T_00.
pub open spec fn ordinary_sample_spec() -> QMatrix {
    |i: int, j: int| if i == 0 && j == 0 { qint(1) } else { qint(0) }
}

/// Tolerance of the NEC region check: −10⁻¹².
pub open spec fn nec_tolerance() -> QPair {
    (-1, 1000000000000)
}

/// Null vector sample k^μ = (1, 1, 0, 0) in Minkowski (−+++).
pub fn sample_null() -> (k: Vector4)
    ensures
        forall|i: int| 0 <= i < 4 ==> #[trigger] k[i]@ == null_sample_spec()(i),
{
    [Rational::from_integer(1), Rational::from_integer(1), Rational::zero(), Rational::zero()]
}

/// Future-directed unit timelike sample u^μ = (1, 0, 0, 0).
pub fn sample_timelike() -> (u: Vector4)
    ensures
        forall|i: int| 0 <= i < 4 ==> #[trigger] u[i]@ == timelike_sample_spec()(i),
{
    [Rational::from_integer(1), Rational::zero(), Rational::zero(), Rational::zero()]
}

/// With positive denominators, the comparison does not depend on the
/// representative of either side.
proof fn lemma_qge_transfer(x: QPair, y: QPair, t: QPair)
    requires
        qeq(x, y),
        x.1 > 0,
        y.1 > 0,
        t.1 > 0,
    ensures
        qge(x, t) == qge(y, t),
{
    assert((x.0 * t.1 >= t.0 * x.1) == (y.0 * t.1 >= t.0 * y.1)) by (nonlinear_arith)
        requires
            x.0 * y.1 == y.0 * x.1,
            x.1 > 0,
            y.1 > 0,
            t.1 > 0,
    ;
}

proof fn lemma_quadratic_den_pos(t: QMatrix, v: spec_fn(int) -> QPair, n: nat)
    requires
        forall|i: int, j: int| 0 <= i < 4 && 0 <= j < 4 ==> (#[trigger] t(i, j)).1 > 0,
        forall|i: int| 0 <= i < 4 ==> (#[trigger] v(i)).1 > 0,
        n <= 16,
    ensures
        quadratic_partial(t, v, n).1 > 0,
    decreases n,
{
    if n > 0 {
        lemma_quadratic_den_pos(t, v, (n - 1) as nat);
        let mu = (n - 1) / 4;
        let nu = (n - 1) % 4;
        let a = quadratic_partial(t, v, (n - 1) as nat);
        let (x, y, z) = (t(mu, nu), v(mu), v(nu));
        assert(x.1 > 0 && y.1 > 0 && z.1 > 0);
        assert(a.1 * ((x.1 * y.1) * z.1) > 0) by (nonlinear_arith)
            requires
                a.1 > 0,
                x.1 > 0,
                y.1 > 0,
                z.1 > 0,
        ;
    }
}

/// NEC on the ordinary sample for the null vector k = (1, 1, 0, 0): the value
/// T(k, k) = 1 is non-negative, so the condition holds.
pub fn null_energy_condition_sample() -> (holds: bool)
    ensures
        holds == qge(quadratic_spec(ordinary_sample_spec(), null_sample_spec()), qint(0)),
        holds,
{
    let t = sample_ordinary_stress_energy();
    let k = sample_null();
    let q = quadratic_form(&t, &k);
    let holds = q.ge(&Rational::zero());
    proof {
        reveal_with_fuel(quadratic_partial, 17);
        assert(quadratic_spec(ordinary_sample_spec(), null_sample_spec()) == (1int, 1int));
        assert(quadratic_spec(tensor_values(t), vector_values(k)) == (1int, 1int));
        lemma_qge_transfer(q@, quadratic_spec(tensor_values(t), vector_values(k)), qint(0));
    }
    holds
}

/// WEC on the ordinary sample for u = (1, 0, 0, 0): the value T(u, u) = 1 is
/// non-negative, so the condition holds.
pub fn weak_energy_condition_sample() -> (holds: bool)
    ensures
        holds == qge(quadratic_spec(ordinary_sample_spec(), timelike_sample_spec()), qint(0)),
        holds,
{
    let t = sample_ordinary_stress_energy();
    let u = sample_timelike();
    let q = quadratic_form(&t, &u);
    let holds = q.ge(&Rational::zero());
    proof {
        reveal_with_fuel(quadratic_partial, 17);
        assert(quadratic_spec(ordinary_sample_spec(), timelike_sample_spec()) == (1int, 1int));
        assert(quadratic_spec(tensor_values(t), vector_values(u)) == (1int, 1int));
        lemma_qge_transfer(q@, quadratic_spec(tensor_values(t), vector_values(u)), qint(0));
    }
    holds
}

/// Region classifier: true exactly when T_{μν} k^μ k^ν ≥ −10⁻¹² for every
/// provided null-cone sample k.
pub fn nec_holds_on_samples(t: &Tensor4, null_rays: &[Vector4]) -> (holds: bool)
    ensures
        holds == forall|i: int| 0 <= i < null_rays@.len() ==>
            qge(#[trigger] quadratic_spec(tensor_values(*t), vector_values(null_rays@[i])), nec_tolerance()),
        holds == forall|i: int| 0 <= i < null_rays@.len() ==>
            qge(#[trigger] quadratic_spec(tensor_values(*t), vector_values(null_rays@[i])), (-1, 1000000000000)),
{
    let tolerance = Rational::new(-1, 1000000000000);
    let mut i: usize = 0;
    while i < null_rays.len()
        invariant
            i <= null_rays@.len(),
            qeq(tolerance@, nec_tolerance()),
            forall|j: int| 0 <= j < i ==>
                qge(#[trigger] quadratic_spec(tensor_values(*t), vector_values(null_rays@[j])), nec_tolerance()),
        decreases null_rays@.len() - i,
    {
        let q = quadratic_form(t, &null_rays[i]);
        let ok = q.ge(&tolerance);
        proof {
            let s = quadratic_spec(tensor_values(*t), vector_values(null_rays@[i as int]));
            assert forall|a: int, b: int| 0 <= a < 4 && 0 <= b < 4 implies (#[trigger] tensor_values(*t)(a, b)).1 > 0 by {
                assert(t[a][b]@.1 > 0);
            }
            assert forall|a: int| 0 <= a < 4 implies (#[trigger] vector_values(null_rays@[i as int])(a)).1 > 0 by {
                assert(null_rays@[i as int][a]@.1 > 0);
            }
            lemma_quadratic_den_pos(tensor_values(*t), vector_values(null_rays@[i as int]), 16);
            lemma_qge_transfer(q@, s, tolerance@);
            assert(qge(tolerance@, nec_tolerance()) && qge(nec_tolerance(), tolerance@));
            assert(qge(s, tolerance@) == qge(s, nec_tolerance())) by (nonlinear_arith)
                requires
                    tolerance@.0 * 1000000000000 == -1 * tolerance@.1,
                    tolerance@.1 > 0,
                    s.1 > 0,
            ;
        }
        if !ok {
            return false;
        }
        i = i + 1;
    }
    true
}

} // verus!
