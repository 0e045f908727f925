//! The quadratic form as the full double sum over all index pairs.
//!
//! Whenever T_{μν} = x(μ, ν) / p and v^μ = y(μ) / q for integers x, y and
//! common denominators p, q ≠ 0 (every rational tensor and vector can be
//! written so), T(v, v) = (Σ_μ y(μ) · Σ_ν x(μ, ν) · y(ν)) / (p q²).

use vstd::prelude::*;
use crate::exact::field::{QPair, qeq, qint, qmul, lemma_over_mul, lemma_over_add};
use crate::algebra::metric::QMatrix;
use crate::energy::stress_energy::{quadratic_partial, quadratic_spec};

verus! {

/// Σ_μ y(μ) · (Σ_ν x(μ, ν) · y(ν)) over μ, ν ∈ 0..4.
pub open spec fn bilinear4(x: spec_fn(int, int) -> int, y: spec_fn(int) -> int) -> int {
    y(0) * (x(0, 0) * y(0) + x(0, 1) * y(1) + x(0, 2) * y(2) + x(0, 3) * y(3))
    + y(1) * (x(1, 0) * y(0) + x(1, 1) * y(1) + x(1, 2) * y(2) + x(1, 3) * y(3))
    + y(2) * (x(2, 0) * y(0) + x(2, 1) * y(1) + x(2, 2) * y(2) + x(2, 3) * y(3))
    + y(3) * (x(3, 0) * y(0) + x(3, 1) * y(1) + x(3, 2) * y(2) + x(3, 3) * y(3))
}

/// Running integer sum of the first `n` products, used inside the proof.
spec fn products_up_to(x: spec_fn(int, int) -> int, y: spec_fn(int) -> int, n: nat) -> int
    decreases n,
{
    if n == 0 {
        0
    } else {
        let mu = (n - 1) / 4;
        let nu = (n - 1) % 4;
        products_up_to(x, y, (n - 1) as nat) + x(mu, nu) * y(mu) * y(nu)
    }
}

proof fn lemma_partial_over(
    t: QMatrix,
    v: spec_fn(int) -> QPair,
    x: spec_fn(int, int) -> int,
    y: spec_fn(int) -> int,
    p: int,
    q: int,
    n: nat,
)
    requires
        p != 0,
        q != 0,
        n <= 16,
        forall|i: int, j: int| 0 <= i < 4 && 0 <= j < 4 ==> qeq(#[trigger] t(i, j), (x(i, j), p)),
        forall|i: int| 0 <= i < 4 ==> qeq(#[trigger] v(i), (y(i), q)),
    ensures
        qeq(quadratic_partial(t, v, n), (products_up_to(x, y, n), p * q * q)),
    decreases n,
{
    let r = p * q * q;
    assert(r != 0) by (nonlinear_arith)
        requires
            p != 0,
            q != 0,
            r == p * q * q,
    ;
    if n == 0 {
        assert(qeq(qint(0), (0, r)));
    } else {
        lemma_partial_over(t, v, x, y, p, q, (n - 1) as nat);
        let mu = (n - 1) / 4;
        let nu = (n - 1) % 4;
        assert(qeq(t(mu, nu), (x(mu, nu), p)));
        assert(qeq(v(mu), (y(mu), q)));
        assert(qeq(v(nu), (y(nu), q)));
        lemma_over_mul(t(mu, nu), v(mu), x(mu, nu), p, y(mu), q);
        lemma_over_mul(qmul(t(mu, nu), v(mu)), v(nu), x(mu, nu) * y(mu), p * q, y(nu), q);
        lemma_over_add(
            quadratic_partial(t, v, (n - 1) as nat),
            qmul(qmul(t(mu, nu), v(mu)), v(nu)),
            products_up_to(x, y, (n - 1) as nat),
            x(mu, nu) * y(mu) * y(nu),
            r,
        );
    }
}

/// ym · (a·y0 + b·y1 + c·y2 + d·y3) = a·ym·y0 + b·ym·y1 + c·ym·y2 + d·ym·y3.
proof fn lemma_row(ym: int, a: int, b: int, c: int, d: int, y0: int, y1: int, y2: int, y3: int)
    ensures
        ym * (a * y0 + b * y1 + c * y2 + d * y3) == a * ym * y0 + b * ym * y1 + c * ym * y2 + d * ym * y3,
{
    assert(ym * (a * y0) == a * ym * y0) by (nonlinear_arith);
    assert(ym * (b * y1) == b * ym * y1) by (nonlinear_arith);
    assert(ym * (c * y2) == c * ym * y2) by (nonlinear_arith);
    assert(ym * (d * y3) == d * ym * y3) by (nonlinear_arith);
    vstd::arithmetic::mul::lemma_mul_is_distributive_add(ym, a * y0 + b * y1 + c * y2, d * y3);
    vstd::arithmetic::mul::lemma_mul_is_distributive_add(ym, a * y0 + b * y1, c * y2);
    vstd::arithmetic::mul::lemma_mul_is_distributive_add(ym, a * y0, b * y1);
}

/// The quadratic form is the full double sum: whenever every T_{μν} equals
/// x(μ, ν) / p and every v^μ equals y(μ) / q (integers x, y; p, q ≠ 0), then
/// T(v, v) equals bilinear4(x, y) / (p q²), every one of the sixteen
/// components contributing.
pub proof fn lemma_quadratic_double_sum(
    t: QMatrix,
    v: spec_fn(int) -> QPair,
    x: spec_fn(int, int) -> int,
    y: spec_fn(int) -> int,
    p: int,
    q: int,
)
    requires
        p != 0,
        q != 0,
        forall|i: int, j: int| 0 <= i < 4 && 0 <= j < 4 ==> qeq(#[trigger] t(i, j), (x(i, j), p)),
        forall|i: int| 0 <= i < 4 ==> qeq(#[trigger] v(i), (y(i), q)),
    ensures
        qeq(quadratic_spec(t, v), (bilinear4(x, y), p * q * q)),
{
    lemma_partial_over(t, v, x, y, p, q, 16);
    reveal_with_fuel(products_up_to, 17);
    lemma_row(y(0), x(0, 0), x(0, 1), x(0, 2), x(0, 3), y(0), y(1), y(2), y(3));
    lemma_row(y(1), x(1, 0), x(1, 1), x(1, 2), x(1, 3), y(0), y(1), y(2), y(3));
    lemma_row(y(2), x(2, 0), x(2, 1), x(2, 2), x(2, 3), y(0), y(1), y(2), y(3));
    lemma_row(y(3), x(3, 0), x(3, 1), x(3, 2), x(3, 3), y(0), y(1), y(2), y(3));
    assert(products_up_to(x, y, 16) == bilinear4(x, y));
}

} // verus!
