//! The determinant as the Leibniz sum over permutations.
//!
//! Whenever every entry of a 4×4 rational matrix equals x_ij / P for integers
//! x_ij and a common denominator P ≠ 0 (every rational matrix can be written so),
//! its determinant equals (Σ_σ sgn σ · x_{0σ0} x_{1σ1} x_{2σ2} x_{3σ3}) / P⁴.

use vstd::prelude::*;
use crate::exact::field::{
    QPair, qeq, qint, qmul, lemma_qeq_refl, lemma_over_mul, lemma_over_add, lemma_over_sub,
};
use crate::algebra::metric::{QMatrix, det3_spec, det4_spec, laplace_partial, minor_spec, cofactor_sign};

verus! {

/// The Leibniz determinant of a 4×4 integer matrix: the signed sum over all
/// 24 permutations σ of x(0, σ0)·x(1, σ1)·x(2, σ2)·x(3, σ3).
pub open spec fn leibniz4(x: spec_fn(int, int) -> int) -> int {
    x(0, 0) * x(1, 1) * x(2, 2) * x(3, 3)
    - x(0, 0) * x(1, 1) * x(2, 3) * x(3, 2)
    - x(0, 0) * x(1, 2) * x(2, 1) * x(3, 3)
    + x(0, 0) * x(1, 2) * x(2, 3) * x(3, 1)
    + x(0, 0) * x(1, 3) * x(2, 1) * x(3, 2)
    - x(0, 0) * x(1, 3) * x(2, 2) * x(3, 1)
    - x(0, 1) * x(1, 0) * x(2, 2) * x(3, 3)
    + x(0, 1) * x(1, 0) * x(2, 3) * x(3, 2)
    + x(0, 1) * x(1, 2) * x(2, 0) * x(3, 3)
    - x(0, 1) * x(1, 2) * x(2, 3) * x(3, 0)
    - x(0, 1) * x(1, 3) * x(2, 0) * x(3, 2)
    + x(0, 1) * x(1, 3) * x(2, 2) * x(3, 0)
    + x(0, 2) * x(1, 0) * x(2, 1) * x(3, 3)
    - x(0, 2) * x(1, 0) * x(2, 3) * x(3, 1)
    - x(0, 2) * x(1, 1) * x(2, 0) * x(3, 3)
    + x(0, 2) * x(1, 1) * x(2, 3) * x(3, 0)
    + x(0, 2) * x(1, 3) * x(2, 0) * x(3, 1)
    - x(0, 2) * x(1, 3) * x(2, 1) * x(3, 0)
    - x(0, 3) * x(1, 0) * x(2, 1) * x(3, 2)
    + x(0, 3) * x(1, 0) * x(2, 2) * x(3, 1)
    + x(0, 3) * x(1, 1) * x(2, 0) * x(3, 2)
    - x(0, 3) * x(1, 1) * x(2, 2) * x(3, 0)
    - x(0, 3) * x(1, 2) * x(2, 0) * x(3, 1)
    + x(0, 3) * x(1, 2) * x(2, 1) * x(3, 0)
}

/// Integer 3×3 determinant by the rule of Sarrus, used inside the proof.
spec fn sarrus(
    a: int, b: int, c: int,
    d: int, e: int, f: int,
    g: int, h: int, i: int,
) -> int {
    a * (e * i - f * h) - b * (d * i - f * g) + c * (d * h - e * g)
}

/// a·(f·(u·v − w·z)) = a·f·u·v − a·f·w·z.
proof fn lemma_expand2(a: int, f: int, u: int, v: int, w: int, z: int)
    ensures
        a * (f * (u * v - w * z)) == a * f * u * v - a * f * w * z,
{
    vstd::arithmetic::mul::lemma_mul_is_associative(a, f, u * v - w * z);
    vstd::arithmetic::mul::lemma_mul_is_distributive_sub(a * f, u * v, w * z);
    vstd::arithmetic::mul::lemma_mul_is_associative(a * f, u, v);
    vstd::arithmetic::mul::lemma_mul_is_associative(a * f, w, z);
}

/// a · sarrus(…) expands into its six signed products.
proof fn lemma_expand_sarrus(a: int, f: int, g: int, h: int, j: int, k: int, l: int, n: int, o: int, q: int)
    ensures
        a * sarrus(f, g, h, j, k, l, n, o, q)
            == a * f * k * q - a * f * l * o - a * g * j * q + a * g * l * n + a * h * j * o - a * h * k * n,
{
    let x = f * (k * q - l * o);
    let y = g * (j * q - l * n);
    let z = h * (j * o - k * n);
    assert(sarrus(f, g, h, j, k, l, n, o, q) == x - y + z);
    vstd::arithmetic::mul::lemma_mul_is_distributive_sub(a, x, y);
    vstd::arithmetic::mul::lemma_mul_is_distributive_add(a, x - y, z);
    lemma_expand2(a, f, k, q, l, o);
    lemma_expand2(a, g, j, q, l, n);
    lemma_expand2(a, h, j, o, k, n);
}

proof fn lemma_det3_over(mm: QMatrix, y: spec_fn(int, int) -> int, p: int)
    requires
        p != 0,
        forall|r: int, c: int| 0 <= r < 3 && 0 <= c < 3 ==> qeq(#[trigger] mm(r, c), (y(r, c), p)),
    ensures
        qeq(det3_spec(mm), (sarrus(y(0, 0), y(0, 1), y(0, 2), y(1, 0), y(1, 1), y(1, 2), y(2, 0), y(2, 1), y(2, 2)),
            p * (p * p))),
{
    assert(qeq(mm(0, 0), (y(0, 0), p)) && qeq(mm(0, 1), (y(0, 1), p)) && qeq(mm(0, 2), (y(0, 2), p)));
    assert(qeq(mm(1, 0), (y(1, 0), p)) && qeq(mm(1, 1), (y(1, 1), p)) && qeq(mm(1, 2), (y(1, 2), p)));
    assert(qeq(mm(2, 0), (y(2, 0), p)) && qeq(mm(2, 1), (y(2, 1), p)) && qeq(mm(2, 2), (y(2, 2), p)));
    let p2 = p * p;
    let p3 = p * p2;
    assert(p2 != 0 && p3 != 0) by (nonlinear_arith)
        requires
            p != 0,
            p2 == p * p,
            p3 == p * p2,
    ;
    let (a, b, c) = (y(0, 0), y(0, 1), y(0, 2));
    let (d, e, f) = (y(1, 0), y(1, 1), y(1, 2));
    let (g, h, i) = (y(2, 0), y(2, 1), y(2, 2));
    lemma_over_mul(mm(1, 1), mm(2, 2), e, p, i, p);
    lemma_over_mul(mm(1, 2), mm(2, 1), f, p, h, p);
    lemma_over_sub(qmul(mm(1, 1), mm(2, 2)), qmul(mm(1, 2), mm(2, 1)), e * i, f * h, p2);
    let s1 = crate::exact::field::qsub(qmul(mm(1, 1), mm(2, 2)), qmul(mm(1, 2), mm(2, 1)));
    lemma_over_mul(mm(1, 0), mm(2, 2), d, p, i, p);
    lemma_over_mul(mm(1, 2), mm(2, 0), f, p, g, p);
    lemma_over_sub(qmul(mm(1, 0), mm(2, 2)), qmul(mm(1, 2), mm(2, 0)), d * i, f * g, p2);
    let s2 = crate::exact::field::qsub(qmul(mm(1, 0), mm(2, 2)), qmul(mm(1, 2), mm(2, 0)));
    lemma_over_mul(mm(1, 0), mm(2, 1), d, p, h, p);
    lemma_over_mul(mm(1, 1), mm(2, 0), e, p, g, p);
    lemma_over_sub(qmul(mm(1, 0), mm(2, 1)), qmul(mm(1, 1), mm(2, 0)), d * h, e * g, p2);
    let s3 = crate::exact::field::qsub(qmul(mm(1, 0), mm(2, 1)), qmul(mm(1, 1), mm(2, 0)));
    lemma_over_mul(mm(0, 0), s1, a, p, e * i - f * h, p2);
    lemma_over_mul(mm(0, 1), s2, b, p, d * i - f * g, p2);
    lemma_over_mul(mm(0, 2), s3, c, p, d * h - e * g, p2);
    lemma_over_sub(qmul(mm(0, 0), s1), qmul(mm(0, 1), s2), a * (e * i - f * h), b * (d * i - f * g), p3);
    lemma_over_add(
        crate::exact::field::qsub(qmul(mm(0, 0), s1), qmul(mm(0, 1), s2)),
        qmul(mm(0, 2), s3),
        a * (e * i - f * h) - b * (d * i - f * g),
        c * (d * h - e * g),
        p3,
    );
}

/// One step of the Laplace expansion over a common denominator.
proof fn lemma_laplace_over_step(m: QMatrix, x: spec_fn(int, int) -> int, p: int, n: nat, acc: int, s: int)
    requires
        p != 0,
        n < 4,
        forall|i: int, j: int| 0 <= i < 4 && 0 <= j < 4 ==> qeq(#[trigger] m(i, j), (x(i, j), p)),
        qeq(laplace_partial(m, n), (acc, 1 * p * (p * (p * p)))),
        cofactor_sign(n as int) == qint(s),
    ensures
        qeq(laplace_partial(m, n + 1), (acc + s * x(0, n as int) * sarrus(
            x(1, minor_spec_col(0, n as int)), x(1, minor_spec_col(1, n as int)), x(1, minor_spec_col(2, n as int)),
            x(2, minor_spec_col(0, n as int)), x(2, minor_spec_col(1, n as int)), x(2, minor_spec_col(2, n as int)),
            x(3, minor_spec_col(0, n as int)), x(3, minor_spec_col(1, n as int)), x(3, minor_spec_col(2, n as int)),
        ), 1 * p * (p * (p * p)))),
{
    let j = n as int;
    let mm = minor_spec(m, j);
    let y = |r: int, c: int| x(r + 1, minor_spec_col(c, j));
    assert forall|r: int, c: int| 0 <= r < 3 && 0 <= c < 3 implies qeq(#[trigger] mm(r, c), (y(r, c), p)) by {
        assert(qeq(m(r + 1, minor_spec_col(c, j)), (x(r + 1, minor_spec_col(c, j)), p)));
    }
    lemma_det3_over(mm, y, p);
    let d3 = sarrus(y(0, 0), y(0, 1), y(0, 2), y(1, 0), y(1, 1), y(1, 2), y(2, 0), y(2, 1), y(2, 2));
    lemma_qeq_refl(qint(s));
    assert(qeq(m(0, j), (x(0, j), p)));
    lemma_over_mul(cofactor_sign(j), m(0, j), s, 1, x(0, j), p);
    lemma_over_mul(qmul(cofactor_sign(j), m(0, j)), det3_spec(mm), s * x(0, j), 1 * p, d3, p * (p * p));
    let p4 = 1 * p * (p * (p * p));
    assert(p4 != 0) by (nonlinear_arith)
        requires
            p != 0,
            p4 == 1 * p * (p * (p * p)),
    ;
    lemma_over_add(
        laplace_partial(m, n),
        qmul(qmul(cofactor_sign(j), m(0, j)), det3_spec(mm)),
        acc,
        s * x(0, j) * d3,
        p4,
    );
    assert(laplace_partial(m, n + 1) == crate::exact::field::qadd(
        laplace_partial(m, n),
        qmul(qmul(cofactor_sign(j), m(0, j)), det3_spec(mm)),
    ));
}

/// The `c`-th of the three columns other than `j`, in increasing order.
spec fn minor_spec_col(c: int, j: int) -> int {
    if c < j { c } else { c + 1 }
}

/// The determinant is the Leibniz sum: whenever every entry of `m` equals
/// x(i, j) / p for integers x(i, j) and a common denominator p ≠ 0, the
/// determinant equals leibniz4(x) / p⁴. Every rational matrix has such a form,
/// so this fixes the determinant of every matrix.
pub proof fn lemma_det4_leibniz(m: QMatrix, x: spec_fn(int, int) -> int, p: int)
    requires
        p != 0,
        forall|i: int, j: int| 0 <= i < 4 && 0 <= j < 4 ==> qeq(#[trigger] m(i, j), (x(i, j), p)),
    ensures
        qeq(det4_spec(m), (leibniz4(x), p * p * p * p)),
{
    reveal_with_fuel(laplace_partial, 5);
    let p4 = 1 * p * (p * (p * p));
    assert(laplace_partial(m, 0) == qint(0));
    assert(qeq(qint(0), (0, p4)));
    assert(cofactor_sign(0) == qint(1));
    assert(cofactor_sign(1) == qint(-1));
    assert(cofactor_sign(2) == qint(1));
    assert(cofactor_sign(3) == qint(-1));
    let (a, b, c, d) = (x(0, 0), x(0, 1), x(0, 2), x(0, 3));
    let (e, f, g, h) = (x(1, 0), x(1, 1), x(1, 2), x(1, 3));
    let (i, j, k, l) = (x(2, 0), x(2, 1), x(2, 2), x(2, 3));
    let (mm, n, o, q) = (x(3, 0), x(3, 1), x(3, 2), x(3, 3));
    let s0 = sarrus(f, g, h, j, k, l, n, o, q);
    let s1 = sarrus(e, g, h, i, k, l, mm, o, q);
    let s2 = sarrus(e, f, h, i, j, l, mm, n, q);
    let s3 = sarrus(e, f, g, i, j, k, mm, n, o);
    lemma_laplace_over_step(m, x, p, 0, 0, 1);
    let a1 = 0 + 1 * a * s0;
    lemma_laplace_over_step(m, x, p, 1, a1, -1);
    let a2 = a1 + -1 * b * s1;
    lemma_laplace_over_step(m, x, p, 2, a2, 1);
    let a3 = a2 + 1 * c * s2;
    lemma_laplace_over_step(m, x, p, 3, a3, -1);
    let a4 = a3 + -1 * d * s3;
    assert(qeq(det4_spec(m), (a4, p4)));
    assert(a4 == leibniz4(x)) by {
        assert(a4 == a * s0 - b * s1 + c * s2 - d * s3) by (nonlinear_arith)
            requires
                a4 == 0 + 1 * a * s0 + -1 * b * s1 + 1 * c * s2 + -1 * d * s3,
        ;
        lemma_expand_sarrus(a, f, g, h, j, k, l, n, o, q);
        lemma_expand_sarrus(b, e, g, h, i, k, l, mm, o, q);
        lemma_expand_sarrus(c, e, f, h, i, j, l, mm, n, q);
        lemma_expand_sarrus(d, e, f, g, i, j, k, mm, n, o);
    }
    assert(p4 == p * p * p * p) by (nonlinear_arith)
        requires
            p4 == 1 * p * (p * (p * p)),
    ;
}

} // verus!
