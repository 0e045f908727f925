//! Sample stress-energy tensors for the energy-condition checks.

use vstd::prelude::*;
use crate::algebra::DIM;
use crate::algebra::metric::QMatrix;
use crate::exact::field::{QPair, qeq, qint, qadd, qmul, lowest_terms, lemma_lowest_terms_int, lemma_lowest_terms_unique, lemma_qeq_refl, lemma_step_add, lemma_step_mul};
use crate::exact::rational::{Rational, lemma_rational_den_pos};

verus! {

broadcast use lemma_rational_den_pos;

/// A rank-2 tensor T_{μν} with exact rational components.
pub type Tensor4 = [[Rational; DIM]; DIM];

/// A 4-vector v^μ with exact rational components.
pub type Vector4 = [Rational; DIM];

pub open spec fn tensor_values(t: Tensor4) -> QMatrix {
    |i: int, j: int| t[i][j]@
}

pub open spec fn vector_values(v: Vector4) -> spec_fn(int) -> QPair {
    |i: int| v[i]@
}

/// The first `n` terms of Σ_{μ,ν} T_{μν} v^μ v^ν, taken in row-major order.
pub open spec fn quadratic_partial(t: QMatrix, v: spec_fn(int) -> QPair, n: nat) -> QPair
    decreases n,
{
    if n == 0 {
        qint(0)
    } else {
        let mu = (n - 1) / 4;
        let nu = (n - 1) % 4;
        qadd(quadratic_partial(t, v, (n - 1) as nat), qmul(qmul(t(mu, nu), v(mu)), v(nu)))
    }
}

/// T_{μν} v^μ v^ν.
pub open spec fn quadratic_spec(t: QMatrix, v: spec_fn(int) -> QPair) -> QPair {
    quadratic_partial(t, v, 16)
}

/// Contract T_{μν} v^μ v^ν.
pub fn quadratic_form(t: &Tensor4, v: &Vector4) -> (q: Rational)
    ensures
        qeq(q@, quadratic_spec(tensor_values(*t), vector_values(*v))),
        lowest_terms(q@),
{
    let ghost tv = tensor_values(*t);
    let ghost vv = vector_values(*v);
    let mut acc = Rational::zero();
    proof {
        lemma_lowest_terms_int(0);
    }
    let mut mu: usize = 0;
    while mu < DIM
        invariant
            mu <= DIM,
            tv == tensor_values(*t),
            vv == vector_values(*v),
            qeq(acc@, quadratic_partial(tv, vv, (mu * 4) as nat)),
            lowest_terms(acc@),
        decreases DIM - mu,
    {
        let mut nu: usize = 0;
        while nu < DIM
            invariant
                mu < DIM,
                nu <= DIM,
                tv == tensor_values(*t),
                vv == vector_values(*v),
                qeq(acc@, quadratic_partial(tv, vv, (mu * 4 + nu) as nat)),
                lowest_terms(acc@),
            decreases DIM - nu,
        {
            let tm = t[mu][nu].mul(&v[mu]);
            let term = tm.mul(&v[nu]);
            let next = acc.add(&term);
            proof {
                let n = (mu * 4 + nu) as nat;
                assert((n + 1 - 1) / 4 == mu as int && (n + 1 - 1) % 4 == nu as int);
                lemma_qeq_refl(tv(mu as int, nu as int));
                lemma_qeq_refl(vv(mu as int));
                lemma_qeq_refl(vv(nu as int));
                lemma_step_mul(term@, tm@, vv(nu as int), qmul(tv(mu as int, nu as int), vv(mu as int)), vv(nu as int));
                lemma_step_add(next@, acc@, term@, quadratic_partial(tv, vv, n),
                    qmul(qmul(tv(mu as int, nu as int), vv(mu as int)), vv(nu as int)));
            }
            acc = next;
            nu = nu + 1;
        }
        mu = mu + 1;
    }
    acc
}

/// Sample exotic-matter-like T_{μν}: diag(−1/10, 1/20, 1/20, 1/20), with
/// negative lab-frame energy density.
pub fn sample_exotic_stress_energy() -> (t: Tensor4)
    ensures
        forall|i: int, j: int| 0 <= i < 4 && 0 <= j < 4 ==>
            #[trigger] t[i][j]@ == (if i != j { qint(0) } else if i == 0 { (-1, 10) } else { (1, 20) }),
{
    let t00 = Rational::new(-1, 10);
    let t11 = Rational::new(1, 20);
    let t22 = Rational::new(1, 20);
    let t33 = Rational::new(1, 20);
    proof {
        lemma_lowest_terms_unique(t00@, (-1, 10), -1, 0);
        lemma_lowest_terms_unique(t11@, (1, 20), 1, 0);
        lemma_lowest_terms_unique(t22@, (1, 20), 1, 0);
        lemma_lowest_terms_unique(t33@, (1, 20), 1, 0);
    }
    [
        [t00, Rational::zero(), Rational::zero(), Rational::zero()],
        [Rational::zero(), t11, Rational::zero(), Rational::zero()],
        [Rational::zero(), Rational::zero(), t22, Rational::zero()],
        [Rational::zero(), Rational::zero(), Rational::zero(), t33],
    ]
}

/// Sample ordinary dust-like T_{μν}: ρ = 1 in T_00, all other components zero.
pub fn sample_ordinary_stress_energy() -> (t: Tensor4)
    ensures
        forall|i: int, j: int| 0 <= i < 4 && 0 <= j < 4 ==>
            #[trigger] t[i][j]@ == (if i == 0 && j == 0 { qint(1) } else { qint(0) }),
{
    [
        [Rational::one(), Rational::zero(), Rational::zero(), Rational::zero()],
        [Rational::zero(), Rational::zero(), Rational::zero(), Rational::zero()],
        [Rational::zero(), Rational::zero(), Rational::zero(), Rational::zero()],
        [Rational::zero(), Rational::zero(), Rational::zero(), Rational::zero()],
    ]
}

} // verus!
