//! The determinant of the equatorial slice: it factors through the (t, φ) block,
//! and the slice has Lorentzian sign wherever the metric is regular.

use vstd::prelude::*;
use crate::exact::field::{
    QPair, qeq, qint, qadd, qsub, qmul, qdiv, qneg, qwf, qneg_value,
    lemma_qeq_refl, lemma_qeq_symm, lemma_qeq_negative, lemma_qeq_trans, lemma_qwf_mul, lemma_qadd_cong,
    lemma_qsub_cong, lemma_qmul_cong, lemma_qneg_cong, lemma_qmul_zero, lemma_qmul_distrib, lemma_qzero_neutral,
};
use crate::algebra::metric::{
    MetricRational, QMatrix, det3_spec, minor_spec, minor_col, laplace_partial, det4_spec, cofactor_sign,
    metric_values, slice_spec, is_equatorial_slice, e2phi_linear, r2_sin2_spec,
};
use crate::exact::rational::lemma_rational_den_pos;

verus! {

broadcast use lemma_rational_den_pos;

/// The entries of `m` outside the diagonal and the (t, φ) corner are zero.
pub open spec fn block_sparse(m: QMatrix) -> bool {
    &&& m(0, 1).0 == 0 && m(0, 2).0 == 0
    &&& m(1, 0).0 == 0 && m(1, 2).0 == 0 && m(1, 3).0 == 0
    &&& m(2, 0).0 == 0 && m(2, 1).0 == 0 && m(2, 3).0 == 0
    &&& m(3, 1).0 == 0 && m(3, 2).0 == 0
}

/// Every entry of the 4×4 matrix has a non-zero denominator.
pub open spec fn matrix_wf(m: QMatrix) -> bool {
    forall|i: int, j: int| 0 <= i < 4 && 0 <= j < 4 ==> qwf(#[trigger] m(i, j))
}

proof fn lemma_minor0(m: QMatrix)
    requires
        matrix_wf(m),
        block_sparse(m),
    ensures
        qeq(det3_spec(minor_spec(m, 0)), qmul(m(1, 1), qmul(m(2, 2), m(3, 3)))),
        qwf(det3_spec(minor_spec(m, 0))),
{
    let mm = minor_spec(m, 0);
    assert(mm(0, 0) == m(1, 1) && mm(0, 1) == m(1, 2) && mm(0, 2) == m(1, 3));
    assert(mm(1, 0) == m(2, 1) && mm(1, 1) == m(2, 2) && mm(1, 2) == m(2, 3));
    assert(mm(2, 0) == m(3, 1) && mm(2, 1) == m(3, 2) && mm(2, 2) == m(3, 3));
    assert(qwf(m(1, 1)) && qwf(m(1, 2)) && qwf(m(1, 3)) && qwf(m(2, 1)) && qwf(m(2, 2)));
    assert(qwf(m(2, 3)) && qwf(m(3, 1)) && qwf(m(3, 2)) && qwf(m(3, 3)));
    let p = qmul(m(2, 2), m(3, 3));
    let q = qmul(m(2, 3), m(3, 2));
    lemma_qmul_zero(m(3, 2), m(2, 3));
    lemma_qwf_mul(m(2, 2), m(3, 3));
    lemma_qwf_mul(m(2, 3), m(3, 2));
    lemma_qzero_neutral(p, q);
    let a = qsub(p, q);
    lemma_qwf_mul(p, q);
    lemma_qeq_refl(m(1, 1));
    lemma_qmul_cong(m(1, 1), m(1, 1), a, p);
    let b = qmul(m(1, 1), a);
    lemma_qwf_mul(m(1, 1), a);
    let x = qsub(qmul(mm(1, 0), mm(2, 2)), qmul(mm(1, 2), mm(2, 0)));
    let c = qmul(m(1, 2), x);
    lemma_qmul_zero(x, m(1, 2));
    lemma_qwf_mul(mm(1, 0), mm(2, 2));
    lemma_qwf_mul(mm(1, 2), mm(2, 0));
    lemma_qwf_mul(qmul(mm(1, 0), mm(2, 2)), qmul(mm(1, 2), mm(2, 0)));
    lemma_qwf_mul(m(1, 2), x);
    lemma_qzero_neutral(b, c);
    let e = qsub(b, c);
    lemma_qwf_mul(b, c);
    lemma_qwf_mul(m(1, 1), p);
    lemma_qeq_trans(e, b, qmul(m(1, 1), p));
    let y = qsub(qmul(mm(1, 0), mm(2, 1)), qmul(mm(1, 1), mm(2, 0)));
    let f = qmul(m(1, 3), y);
    lemma_qmul_zero(y, m(1, 3));
    lemma_qwf_mul(mm(1, 0), mm(2, 1));
    lemma_qwf_mul(mm(1, 1), mm(2, 0));
    lemma_qwf_mul(qmul(mm(1, 0), mm(2, 1)), qmul(mm(1, 1), mm(2, 0)));
    lemma_qwf_mul(m(1, 3), y);
    lemma_qzero_neutral(e, f);
    lemma_qwf_mul(e, f);
    lemma_qeq_trans(qadd(e, f), e, qmul(m(1, 1), p));
    assert(det3_spec(mm) == qadd(e, f));
}

proof fn lemma_minor3(m: QMatrix)
    requires
        matrix_wf(m),
        block_sparse(m),
    ensures
        qeq(det3_spec(minor_spec(m, 3)), qmul(m(1, 1), qmul(m(2, 2), m(3, 0)))),
        qwf(det3_spec(minor_spec(m, 3))),
{
    let mm = minor_spec(m, 3);
    assert(mm(0, 0) == m(1, 0) && mm(0, 1) == m(1, 1) && mm(0, 2) == m(1, 2));
    assert(mm(1, 0) == m(2, 0) && mm(1, 1) == m(2, 1) && mm(1, 2) == m(2, 2));
    assert(mm(2, 0) == m(3, 0) && mm(2, 1) == m(3, 1) && mm(2, 2) == m(3, 2));
    assert(qwf(m(1, 0)) && qwf(m(1, 1)) && qwf(m(1, 2)) && qwf(m(2, 0)) && qwf(m(2, 1)));
    assert(qwf(m(2, 2)) && qwf(m(3, 0)) && qwf(m(3, 1)) && qwf(m(3, 2)));
    // First term: m10 (m21 m32 − m22 m31) has a zero numerator.
    let x = qsub(qmul(m(2, 1), m(3, 2)), qmul(m(2, 2), m(3, 1)));
    lemma_qwf_mul(m(2, 1), m(3, 2));
    lemma_qwf_mul(m(2, 2), m(3, 1));
    lemma_qwf_mul(qmul(m(2, 1), m(3, 2)), qmul(m(2, 2), m(3, 1)));
    let t1 = qmul(m(1, 0), x);
    lemma_qmul_zero(x, m(1, 0));
    lemma_qwf_mul(m(1, 0), x);
    // Middle term: m11 (m20 m32 − m22 m30) with m20 m32 zero.
    let p = qmul(m(2, 0), m(3, 2));
    let q = qmul(m(2, 2), m(3, 0));
    lemma_qmul_zero(m(3, 2), m(2, 0));
    lemma_qwf_mul(m(2, 0), m(3, 2));
    lemma_qwf_mul(m(2, 2), m(3, 0));
    lemma_qzero_neutral(q, p);
    let w = qsub(p, q);
    lemma_qwf_mul(p, q);
    lemma_qeq_refl(m(1, 1));
    lemma_qmul_cong(m(1, 1), m(1, 1), w, qneg(q));
    let t2 = qmul(m(1, 1), w);
    lemma_qwf_mul(m(1, 1), w);
    lemma_qwf_mul(m(1, 1), qneg(q));
    // Last term: m12 (…) has a zero numerator.
    let y = qsub(qmul(m(2, 0), m(3, 1)), qmul(m(2, 1), m(3, 0)));
    lemma_qwf_mul(m(2, 0), m(3, 1));
    lemma_qwf_mul(m(2, 1), m(3, 0));
    lemma_qwf_mul(qmul(m(2, 0), m(3, 1)), qmul(m(2, 1), m(3, 0)));
    let t3 = qmul(m(1, 2), y);
    lemma_qmul_zero(y, m(1, 2));
    lemma_qwf_mul(m(1, 2), y);
    // (t1 − t2) + t3 ≈ −t2 ≈ m11 (m22 m30).
    lemma_qzero_neutral(t2, t1);
    let u = qsub(t1, t2);
    lemma_qwf_mul(t1, t2);
    lemma_qzero_neutral(u, t3);
    lemma_qwf_mul(u, t3);
    lemma_qeq_trans(qadd(u, t3), u, qneg(t2));
    let target = qmul(m(1, 1), q);
    assert(qeq(qneg(t2), target)) by {
        lemma_qneg_cong(t2, qmul(m(1, 1), qneg(q)));
        assert(qneg(qmul(m(1, 1), qneg(q))).0 == qmul(m(1, 1), q).0) by (nonlinear_arith);
        assert(qneg(qmul(m(1, 1), qneg(q))).1 == qmul(m(1, 1), q).1);
        lemma_qeq_trans(qneg(t2), qneg(qmul(m(1, 1), qneg(q))), target);
    }
    lemma_qwf_mul(t2, t2);
    lemma_qeq_trans(qadd(u, t3), qneg(t2), target);
    assert(det3_spec(mm) == qadd(u, t3));
}

proof fn lemma_det3_wf(mm: QMatrix)
    requires
        forall|i: int, j: int| 0 <= i < 3 && 0 <= j < 3 ==> qwf(#[trigger] mm(i, j)),
    ensures
        qwf(det3_spec(mm)),
{
    assert(qwf(mm(0, 0)) && qwf(mm(0, 1)) && qwf(mm(0, 2)));
    assert(qwf(mm(1, 0)) && qwf(mm(1, 1)) && qwf(mm(1, 2)));
    assert(qwf(mm(2, 0)) && qwf(mm(2, 1)) && qwf(mm(2, 2)));
    let a = qsub(qmul(mm(1, 1), mm(2, 2)), qmul(mm(1, 2), mm(2, 1)));
    let b = qsub(qmul(mm(1, 0), mm(2, 2)), qmul(mm(1, 2), mm(2, 0)));
    let c = qsub(qmul(mm(1, 0), mm(2, 1)), qmul(mm(1, 1), mm(2, 0)));
    lemma_qwf_mul(mm(1, 1), mm(2, 2));
    lemma_qwf_mul(mm(1, 2), mm(2, 1));
    lemma_qwf_mul(mm(1, 0), mm(2, 2));
    lemma_qwf_mul(mm(1, 2), mm(2, 0));
    lemma_qwf_mul(mm(1, 0), mm(2, 1));
    lemma_qwf_mul(mm(1, 1), mm(2, 0));
    lemma_qwf_mul(qmul(mm(1, 1), mm(2, 2)), qmul(mm(1, 2), mm(2, 1)));
    lemma_qwf_mul(qmul(mm(1, 0), mm(2, 2)), qmul(mm(1, 2), mm(2, 0)));
    lemma_qwf_mul(qmul(mm(1, 0), mm(2, 1)), qmul(mm(1, 1), mm(2, 0)));
    lemma_qwf_mul(mm(0, 0), a);
    lemma_qwf_mul(mm(0, 1), b);
    lemma_qwf_mul(mm(0, 2), c);
    lemma_qwf_mul(qmul(mm(0, 0), a), qmul(mm(0, 1), b));
    lemma_qwf_mul(qsub(qmul(mm(0, 0), a), qmul(mm(0, 1), b)), qmul(mm(0, 2), c));
}

/// Determinant of a block-sparse matrix: only the diagonal and the (t, φ)
/// corner contribute, det = g_rr · g_θθ · (g_tt g_φφ − g_tφ g_φt).
pub proof fn lemma_det4_block(m: QMatrix)
    requires
        matrix_wf(m),
        block_sparse(m),
    ensures
        qeq(det4_spec(m), qmul(qmul(m(1, 1), m(2, 2)), qsub(qmul(m(0, 0), m(3, 3)), qmul(m(0, 3), m(3, 0))))),
{
    assert(qwf(m(0, 0)) && qwf(m(0, 1)) && qwf(m(0, 2)) && qwf(m(0, 3)));
    assert(qwf(m(1, 1)) && qwf(m(2, 2)) && qwf(m(3, 3)) && qwf(m(3, 0)));
    lemma_minor0(m);
    lemma_minor3(m);
    assert forall|i: int, j: int| 0 <= i < 3 && 0 <= j < 3 implies qwf(#[trigger] minor_spec(m, 1)(i, j)) by {
        assert(qwf(m(i + 1, minor_col(j, 1))));
    }
    assert forall|i: int, j: int| 0 <= i < 3 && 0 <= j < 3 implies qwf(#[trigger] minor_spec(m, 2)(i, j)) by {
        assert(qwf(m(i + 1, minor_col(j, 2))));
    }
    lemma_det3_wf(minor_spec(m, 1));
    lemma_det3_wf(minor_spec(m, 2));
    let d0 = det3_spec(minor_spec(m, 0));
    let d1 = det3_spec(minor_spec(m, 1));
    let d2 = det3_spec(minor_spec(m, 2));
    let d3 = det3_spec(minor_spec(m, 3));
    let t0 = qmul(qmul(cofactor_sign(0), m(0, 0)), d0);
    let t1 = qmul(qmul(cofactor_sign(1), m(0, 1)), d1);
    let t2 = qmul(qmul(cofactor_sign(2), m(0, 2)), d2);
    let t3 = qmul(qmul(cofactor_sign(3), m(0, 3)), d3);
    let z = qint(0);
    let l1 = qadd(z, t0);
    let l2 = qadd(l1, t1);
    let l3 = qadd(l2, t2);
    let l4 = qadd(l3, t3);
    reveal_with_fuel(laplace_partial, 5);
    assert(laplace_partial(m, 1) == l1);
    assert(laplace_partial(m, 2) == l2);
    assert(laplace_partial(m, 3) == l3);
    assert(laplace_partial(m, 4) == l4);
    // Signed entries.
    assert(cofactor_sign(0) == qint(1));
    assert(cofactor_sign(3) == qint(-1));
    assert(qmul(cofactor_sign(0), m(0, 0)) == m(0, 0)) by {
        let a = m(0, 0);
        assert(1 * a.0 == a.0 && 1 * a.1 == a.1) by (nonlinear_arith);
    }
    assert(qmul(cofactor_sign(3), m(0, 3)) == qneg(m(0, 3))) by {
        let a = m(0, 3);
        assert((-1) * a.0 == -a.0 && 1 * a.1 == a.1) by (nonlinear_arith);
    }
    lemma_qmul_zero(cofactor_sign(1), m(0, 1));
    lemma_qmul_zero(cofactor_sign(2), m(0, 2));
    lemma_qmul_zero(d1, qmul(cofactor_sign(1), m(0, 1)));
    lemma_qmul_zero(d2, qmul(cofactor_sign(2), m(0, 2)));
    lemma_qwf_mul(m(0, 0), d0);
    lemma_qwf_mul(qneg(m(0, 3)), d3);
    lemma_qwf_mul(m(0, 3), m(0, 3));
    assert(cofactor_sign(1) == qint(-1));
    assert(cofactor_sign(2) == qint(1));
    lemma_qwf_mul(cofactor_sign(1), m(0, 1));
    lemma_qwf_mul(cofactor_sign(2), m(0, 2));
    lemma_qwf_mul(qmul(cofactor_sign(1), m(0, 1)), d1);
    lemma_qwf_mul(qmul(cofactor_sign(2), m(0, 2)), d2);
    // Drop the vanishing terms: l3 ≈ t0.
    lemma_qzero_neutral(t0, z);
    lemma_qwf_mul(z, t0);
    lemma_qzero_neutral(l1, t1);
    lemma_qwf_mul(l1, t1);
    lemma_qeq_trans(l2, l1, t0);
    lemma_qzero_neutral(l2, t2);
    lemma_qwf_mul(l2, t2);
    lemma_qeq_trans(l3, l2, t0);
    lemma_qeq_refl(t3);
    lemma_qadd_cong(l3, t0, t3, t3);
    // t0 ≈ m00 · (m11 m22 m33), t3 ≈ −(m03 · (m11 m22 m30)).
    let pa = qmul(m(1, 1), qmul(m(2, 2), m(3, 3)));
    let pb = qmul(m(1, 1), qmul(m(2, 2), m(3, 0)));
    lemma_qeq_refl(m(0, 0));
    lemma_qmul_cong(m(0, 0), m(0, 0), d0, pa);
    lemma_qeq_refl(qneg(m(0, 3)));
    lemma_qmul_cong(qneg(m(0, 3)), qneg(m(0, 3)), d3, pb);
    assert(qmul(qneg(m(0, 3)), pb) == qneg(qmul(m(0, 3), pb))) by {
        let (e, b) = (m(0, 3).0, pb.0);
        assert((-e) * b == -(e * b)) by (nonlinear_arith);
    }
    lemma_qadd_cong(t0, qmul(m(0, 0), pa), t3, qneg(qmul(m(0, 3), pb)));
    let s = qadd(qmul(m(0, 0), pa), qneg(qmul(m(0, 3), pb)));
    lemma_qwf_mul(l3, t3);
    lemma_qwf_mul(t0, t3);
    lemma_qeq_trans(l4, qadd(t0, t3), s);
    // Factor out g_rr g_θθ.
    let bc = qmul(m(1, 1), m(2, 2));
    let x = qmul(m(0, 0), m(3, 3));
    let y = qmul(m(0, 3), m(3, 0));
    assert(qmul(m(0, 0), pa) == qmul(bc, x)) by {
        let (a, b, c, d) = (m(0, 0), m(1, 1), m(2, 2), m(3, 3));
        assert(a.0 * (b.0 * (c.0 * d.0)) == (b.0 * c.0) * (a.0 * d.0)) by (nonlinear_arith);
        assert(a.1 * (b.1 * (c.1 * d.1)) == (b.1 * c.1) * (a.1 * d.1)) by (nonlinear_arith);
    }
    assert(qneg(qmul(m(0, 3), pb)) == qmul(bc, qneg(y))) by {
        let (e, b, c, f) = (m(0, 3), m(1, 1), m(2, 2), m(3, 0));
        assert(-(e.0 * (b.0 * (c.0 * f.0))) == (b.0 * c.0) * (-(e.0 * f.0))) by (nonlinear_arith);
        assert(e.1 * (b.1 * (c.1 * f.1)) == (b.1 * c.1) * (e.1 * f.1)) by (nonlinear_arith);
    }
    lemma_qwf_mul(m(1, 1), m(2, 2));
    lemma_qmul_distrib(bc, x, qneg(y));
    lemma_qeq_symm(qmul(bc, qadd(x, qneg(y))), qadd(qmul(bc, x), qmul(bc, qneg(y))));
    lemma_qwf_mul(m(2, 2), m(3, 3));
    lemma_qwf_mul(m(2, 2), m(3, 0));
    lemma_qwf_mul(m(1, 1), qmul(m(2, 2), m(3, 3)));
    lemma_qwf_mul(m(1, 1), qmul(m(2, 2), m(3, 0)));
    lemma_qwf_mul(m(0, 0), pa);
    lemma_qwf_mul(m(0, 3), pb);
    lemma_qwf_mul(qmul(m(0, 0), pa), qneg(qmul(m(0, 3), pb)));
    lemma_qeq_trans(l4, s, qmul(bc, qsub(x, y)));
}

proof fn lemma_add_sub_cancel(x: QPair, y: QPair)
    requires
        qwf(x),
        qwf(y),
    ensures
        qeq(qsub(qadd(x, y), y), x),
{
    let (x0, x1, y0, y1) = (x.0, x.1, y.0, y.1);
    assert(((x0 * y1 + y0 * x1) * y1 + (-y0) * (x1 * y1)) * x1 == x0 * ((x1 * y1) * y1))
        by (nonlinear_arith);
}

/// The (t, φ) corner of the slice: g_tt g_φφ − g_tφ g_φt = −e · R for
/// g_tt = −e + R ω², g_φφ = R and g_tφ = g_φt = −R ω.
proof fn lemma_slice_corner(e: QPair, rr: QPair, w: QPair)
    requires
        qwf(e),
        qwf(rr),
        qwf(w),
    ensures
        qeq(
            qsub(qmul(qadd(qneg(e), qmul(qmul(rr, w), w)), rr), qmul(qmul(qneg(rr), w), qmul(qneg(rr), w))),
            qneg(qmul(e, rr)),
        ),
{
    let a = qmul(qmul(rr, w), w);
    let g00 = qadd(qneg(e), a);
    let b = qmul(qneg(rr), w);
    let x = qmul(rr, qneg(e));
    let y = qmul(rr, a);
    assert(qmul(g00, rr) == qmul(rr, g00)) by {
        assert(g00.0 * rr.0 == rr.0 * g00.0 && g00.1 * rr.1 == rr.1 * g00.1) by (nonlinear_arith);
    }
    assert(qmul(b, b) == y) by {
        assert((-rr.0 * w.0) * (-rr.0 * w.0) == rr.0 * ((rr.0 * w.0) * w.0)) by (nonlinear_arith);
        assert((rr.1 * w.1) * (rr.1 * w.1) == rr.1 * ((rr.1 * w.1) * w.1)) by (nonlinear_arith);
    }
    assert(x == qneg(qmul(e, rr))) by {
        assert(rr.0 * (-e.0) == -(e.0 * rr.0) && rr.1 * e.1 == e.1 * rr.1) by (nonlinear_arith);
    }
    lemma_qmul_distrib(rr, qneg(e), a);
    lemma_qeq_refl(y);
    lemma_qsub_cong(qmul(rr, g00), qadd(x, y), y, y);
    lemma_qwf_mul(rr, w);
    lemma_qwf_mul(qmul(rr, w), w);
    lemma_qwf_mul(rr, qneg(e));
    lemma_qwf_mul(rr, a);
    lemma_qwf_mul(x, y);
    lemma_add_sub_cancel(x, y);
    lemma_qwf_mul(qadd(x, y), y);
    lemma_qeq_trans(qsub(qmul(rr, g00), y), qsub(qadd(x, y), y), x);
}

proof fn lemma_laplace_step_wf(m: QMatrix, n: nat)
    requires
        matrix_wf(m),
        n < 4,
        qwf(laplace_partial(m, n)),
    ensures
        qwf(laplace_partial(m, n + 1)),
{
    let k = n as int;
    assert forall|r: int, c: int| 0 <= r < 3 && 0 <= c < 3 implies qwf(#[trigger] minor_spec(m, k)(r, c)) by {
        assert(qwf(m(r + 1, minor_col(c, k))));
    }
    lemma_det3_wf(minor_spec(m, k));
    assert(qwf(m(0, k)));
    assert(qwf(cofactor_sign(k)));
    lemma_qwf_mul(cofactor_sign(k), m(0, k));
    lemma_qwf_mul(qmul(cofactor_sign(k), m(0, k)), det3_spec(minor_spec(m, k)));
    lemma_qwf_mul(laplace_partial(m, n), qmul(qmul(cofactor_sign(k), m(0, k)), det3_spec(minor_spec(m, k))));
}

/// A 4×4 matrix of well-formed values has a well-formed determinant.
proof fn lemma_det4_wf(m: QMatrix)
    requires
        matrix_wf(m),
    ensures
        qwf(det4_spec(m)),
{
    lemma_laplace_step_wf(m, 0);
    lemma_laplace_step_wf(m, 1);
    lemma_laplace_step_wf(m, 2);
    lemma_laplace_step_wf(m, 3);
}

/// The closed form of the slice determinant:
/// det g = g_rr · r² · (−(1 + 2Φ) · r² sin²θ), with g_rr = 1/(1 − b/r).
pub open spec fn slice_det_formula(r: QPair, b_over_r: QPair, phi: QPair, sin_theta: QPair) -> QPair {
    qmul(
        qmul(qdiv(qint(1), qsub(qint(1), b_over_r)), qmul(r, r)),
        qneg(qmul(e2phi_linear(phi), r2_sin2_spec(r, sin_theta))),
    )
}

/// Determinant of the equatorial slice: for every matrix that
/// `evaluate_metric_slice` returns, the determinant that `metric_determinant`
/// computes equals g_rr · r² · (−(1 + 2Φ) · r² sin²θ); the frame-dragging ω
/// drops out.
pub proof fn lemma_slice_determinant(
    g: MetricRational,
    r: QPair,
    b_over_r: QPair,
    phi: QPair,
    omega: QPair,
    sin_theta: QPair,
)
    requires
        qwf(r),
        qwf(b_over_r),
        qwf(phi),
        qwf(omega),
        qwf(sin_theta),
        !qeq(b_over_r, qint(1)),
        is_equatorial_slice(g, r, b_over_r, phi, omega, sin_theta),
    ensures
        qeq(det4_spec(metric_values(g)), slice_det_formula(r, b_over_r, phi, sin_theta)),
        qwf(det4_spec(metric_values(g))),
{
    let mv = metric_values(g);
    let ms = slice_spec(r, b_over_r, phi, omega, sin_theta);
    assert forall|i: int, j: int| 0 <= i < 4 && 0 <= j < 4 implies qwf(#[trigger] mv(i, j)) by {
        assert(g[i][j]@.1 > 0);
    }
    assert(block_sparse(mv)) by {
        assert(g[0][1]@ == qint(0) && g[0][2]@ == qint(0));
        assert(g[1][0]@ == qint(0) && g[1][2]@ == qint(0) && g[1][3]@ == qint(0));
        assert(g[2][0]@ == qint(0) && g[2][1]@ == qint(0) && g[2][3]@ == qint(0));
        assert(g[3][1]@ == qint(0) && g[3][2]@ == qint(0));
    }
    lemma_det4_block(mv);
    lemma_det4_wf(mv);
    let (g00, g11, g22, g33, g03, g30) = (mv(0, 0), mv(1, 1), mv(2, 2), mv(3, 3), mv(0, 3), mv(3, 0));
    let (s00, s11, s22, s33, s03, s30) = (ms(0, 0), ms(1, 1), ms(2, 2), ms(3, 3), ms(0, 3), ms(3, 0));
    assert(qeq(g00, s00) && qeq(g11, s11) && qeq(g22, s22) && qeq(g33, s33) && qeq(g03, s03) && qeq(g30, s30));
    assert(qwf(g00) && qwf(g11) && qwf(g22) && qwf(g33) && qwf(g03) && qwf(g30));
    let xe = qmul(qmul(g11, g22), qsub(qmul(g00, g33), qmul(g03, g30)));
    let xs = qmul(qmul(s11, s22), qsub(qmul(s00, s33), qmul(s03, s30)));
    lemma_qmul_cong(g11, s11, g22, s22);
    lemma_qmul_cong(g00, s00, g33, s33);
    lemma_qmul_cong(g03, s03, g30, s30);
    lemma_qsub_cong(qmul(g00, g33), qmul(s00, s33), qmul(g03, g30), qmul(s03, s30));
    lemma_qmul_cong(qmul(g11, g22), qmul(s11, s22), qsub(qmul(g00, g33), qmul(g03, g30)), qsub(qmul(s00, s33), qmul(s03, s30)));
    lemma_qwf_mul(g11, g22);
    lemma_qwf_mul(g00, g33);
    lemma_qwf_mul(g03, g30);
    lemma_qwf_mul(qmul(g00, g33), qmul(g03, g30));
    lemma_qwf_mul(qmul(g11, g22), qsub(qmul(g00, g33), qmul(g03, g30)));
    lemma_qeq_trans(det4_spec(mv), xe, xs);
    // The corner collapses to −e · R.
    let e = e2phi_linear(phi);
    let rr = r2_sin2_spec(r, sin_theta);
    lemma_qwf_mul(qint(2), phi);
    lemma_qwf_mul(qint(1), qmul(qint(2), phi));
    lemma_qwf_mul(r, r);
    lemma_qwf_mul(qmul(r, r), sin_theta);
    lemma_qwf_mul(qmul(qmul(r, r), sin_theta), sin_theta);
    lemma_slice_corner(e, rr, omega);
    lemma_qeq_refl(qmul(s11, s22));
    lemma_qmul_cong(qmul(s11, s22), qmul(s11, s22), qsub(qmul(s00, s33), qmul(s03, s30)), qneg(qmul(e, rr)));
    // g_rr is well formed because b/r ≠ 1.
    assert(qsub(qint(1), b_over_r).0 != 0);
    assert(qwf(s11)) by {
        assert(s11.1 == 1 * qsub(qint(1), b_over_r).0);
    }
    lemma_qwf_mul(s11, s22);
    lemma_qwf_mul(e, rr);
    lemma_qwf_mul(rr, omega);
    lemma_qwf_mul(qmul(rr, omega), omega);
    lemma_qwf_mul(qneg(e), qmul(qmul(rr, omega), omega));
    lemma_qwf_mul(qneg(rr), omega);
    lemma_qwf_mul(s00, s33);
    lemma_qwf_mul(s03, s30);
    lemma_qwf_mul(qmul(s00, s33), qmul(s03, s30));
    lemma_qwf_mul(qmul(s11, s22), qsub(qmul(s00, s33), qmul(s03, s30)));
    lemma_qeq_trans(det4_spec(mv), xs, slice_det_formula(r, b_over_r, phi, sin_theta));
}

/// Lorentzian signature of the equatorial slice: where r ≠ 0, sin θ ≠ 0,
/// b/r < 1 and 1 + 2Φ > 0, the determinant of the slice metric is negative.
pub proof fn lemma_slice_lorentzian(
    g: MetricRational,
    r: QPair,
    b_over_r: QPair,
    phi: QPair,
    omega: QPair,
    sin_theta: QPair,
    det: QPair,
)
    requires
        r.1 > 0,
        b_over_r.1 > 0,
        phi.1 > 0,
        omega.1 > 0,
        sin_theta.1 > 0,
        r.0 != 0,
        sin_theta.0 != 0,
        b_over_r.0 < b_over_r.1,
        phi.1 + 2 * phi.0 > 0,
        is_equatorial_slice(g, r, b_over_r, phi, omega, sin_theta),
        qeq(det, det4_spec(metric_values(g))),
        det.1 > 0,
    ensures
        det.0 < 0,
{
    lemma_slice_determinant(g, r, b_over_r, phi, omega, sin_theta);
    let f = slice_det_formula(r, b_over_r, phi, sin_theta);
    lemma_qeq_trans(det, det4_spec(metric_values(g)), f);
    let e = e2phi_linear(phi);
    let rr = r2_sin2_spec(r, sin_theta);
    let grr = qdiv(qint(1), qsub(qint(1), b_over_r));
    let r2 = qmul(r, r);
    assert(e.0 == 1 * phi.1 + (2 * phi.0) * 1 && e.1 == 1 * phi.1);
    assert(e.0 > 0 && e.1 > 0) by (nonlinear_arith)
        requires
            e.0 == 1 * phi.1 + (2 * phi.0) * 1,
            e.1 == 1 * phi.1,
            phi.1 + 2 * phi.0 > 0,
            phi.1 > 0,
    ;
    assert(grr.0 > 0 && grr.1 > 0) by (nonlinear_arith)
        requires
            grr.0 == 1 * (1 * b_over_r.1),
            grr.1 == 1 * (1 * b_over_r.1 + (-b_over_r.0) * 1),
            b_over_r.0 < b_over_r.1,
            b_over_r.1 > 0,
    ;
    assert(r2.0 > 0 && r2.1 > 0) by (nonlinear_arith)
        requires
            r2.0 == r.0 * r.0,
            r2.1 == r.1 * r.1,
            r.0 != 0,
            r.1 > 0,
    ;
    let rs = qmul(r2, sin_theta);
    assert(rr.0 > 0 && rr.1 > 0) by (nonlinear_arith)
        requires
            rr.0 == (r2.0 * sin_theta.0) * sin_theta.0,
            rr.1 == (r2.1 * sin_theta.1) * sin_theta.1,
            r2.0 > 0,
            r2.1 > 0,
            sin_theta.0 != 0,
            sin_theta.1 > 0,
    ;
    assert(f.0 < 0 && f.1 > 0) by (nonlinear_arith)
        requires
            f.0 == (grr.0 * r2.0) * (-(e.0 * rr.0)),
            f.1 == (grr.1 * r2.1) * (e.1 * rr.1),
            grr.0 > 0,
            grr.1 > 0,
            r2.0 > 0,
            r2.1 > 0,
            e.0 > 0,
            e.1 > 0,
            rr.0 > 0,
            rr.1 > 0,
    ;
    lemma_qeq_negative(det, f);
}

} // verus!
