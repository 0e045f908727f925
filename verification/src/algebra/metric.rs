//! Generalized Morris–Thorne–like metric with azimuthal frame-dragging.
//!
//! Line element (signature −+++):
//! ds² = −e^{2Φ(r)} dt² + dr²/(1−b(r)/r) + r² dθ² + r² sin²θ [dφ − ω(r) dt]².
//! The shift ω(r) generates frame dragging.

use vstd::prelude::*;
use crate::exact::field::{
    QPair, qeq, qint, lowest_terms, qadd, qsub, qmul, qdiv, qneg, qwf,
    lemma_qeq_refl, lemma_qeq_nonzero, lemma_lowest_terms_int, lemma_step_add, lemma_step_sub, lemma_step_mul, lemma_step_div, lemma_step_neg,
};
use crate::exact::rational::{Rational, lemma_rational_den_pos};

verus! {

broadcast use lemma_rational_den_pos;

/// Coordinate labels: (t, r, θ, φ) ↔ (0, 1, 2, 3).
pub const DIM: usize = 4;

/// Exact rational 4×4 matrix (row-major) in (−+++) signature.
pub type MetricRational = [[Rational; DIM]; DIM];

/// A matrix of exact values, indexed by (row, column).
pub type QMatrix = spec_fn(int, int) -> QPair;

/// The values of a rational matrix.
pub open spec fn metric_values(g: MetricRational) -> QMatrix {
    |i: int, j: int| g[i][j]@
}

/// Determinant of the 3×3 matrix held in rows and columns 0..3 of `m`
/// (expansion along the first row).
pub open spec fn det3_spec(m: QMatrix) -> QPair {
    qadd(
        qsub(
            qmul(m(0, 0), qsub(qmul(m(1, 1), m(2, 2)), qmul(m(1, 2), m(2, 1)))),
            qmul(m(0, 1), qsub(qmul(m(1, 0), m(2, 2)), qmul(m(1, 2), m(2, 0)))),
        ),
        qmul(m(0, 2), qsub(qmul(m(1, 0), m(2, 1)), qmul(m(1, 1), m(2, 0)))),
    )
}

/// Column `c` of the first-row minor that drops column `j`.
pub open spec fn minor_col(c: int, j: int) -> int {
    if c < j { c } else { c + 1 }
}

/// The minor of a 4×4 matrix obtained by deleting row 0 and column `j`.
pub open spec fn minor_spec(m: QMatrix, j: int) -> QMatrix {
    |r: int, c: int| m(r + 1, minor_col(c, j))
}

/// The cofactor sign (−1)^j.
pub open spec fn cofactor_sign(j: int) -> QPair {
    if j % 2 == 0 { qint(1) } else { qint(-1) }
}

/// The first `n` terms of the Laplace expansion along row 0.
pub open spec fn laplace_partial(m: QMatrix, n: nat) -> QPair
    decreases n,
{
    if n == 0 {
        qint(0)
    } else {
        let j = n - 1;
        qadd(
            laplace_partial(m, (n - 1) as nat),
            qmul(qmul(cofactor_sign(j), m(0, j)), det3_spec(minor_spec(m, j))),
        )
    }
}

/// Determinant of a 4×4 matrix: Laplace expansion along the first row.
pub open spec fn det4_spec(m: QMatrix) -> QPair {
    laplace_partial(m, 4)
}

/// 3×3 determinant of the rows of `m`.
fn det3(m: &Vec<Vec<Rational>>) -> (d: Rational)
    requires
        m@.len() == 3,
        forall|i: int| 0 <= i < 3 ==> (#[trigger] m@[i])@.len() == 3,
    ensures
        qeq(d@, det3_spec(|i: int, j: int| m@[i]@[j]@)),
{
    let ghost mv: QMatrix = |i: int, j: int| m@[i]@[j]@;
    let a1 = m[1][1].mul(&m[2][2]);
    let b1 = m[1][2].mul(&m[2][1]);
    let c1 = a1.sub(&b1);
    let t1 = m[0][0].mul(&c1);
    let a2 = m[1][0].mul(&m[2][2]);
    let b2 = m[1][2].mul(&m[2][0]);
    let c2 = a2.sub(&b2);
    let t2 = m[0][1].mul(&c2);
    let a3 = m[1][0].mul(&m[2][1]);
    let b3 = m[1][1].mul(&m[2][0]);
    let c3 = a3.sub(&b3);
    let t3 = m[0][2].mul(&c3);
    let u = t1.sub(&t2);
    let d = u.add(&t3);
    proof {
        let s1 = qsub(qmul(mv(1, 1), mv(2, 2)), qmul(mv(1, 2), mv(2, 1)));
        let s2 = qsub(qmul(mv(1, 0), mv(2, 2)), qmul(mv(1, 2), mv(2, 0)));
        let s3 = qsub(qmul(mv(1, 0), mv(2, 1)), qmul(mv(1, 1), mv(2, 0)));
        lemma_step_sub(c1@, a1@, b1@, qmul(mv(1, 1), mv(2, 2)), qmul(mv(1, 2), mv(2, 1)));
        lemma_step_sub(c2@, a2@, b2@, qmul(mv(1, 0), mv(2, 2)), qmul(mv(1, 2), mv(2, 0)));
        lemma_step_sub(c3@, a3@, b3@, qmul(mv(1, 0), mv(2, 1)), qmul(mv(1, 1), mv(2, 0)));
        lemma_qeq_refl(mv(0, 0));
        lemma_qeq_refl(mv(0, 1));
        lemma_qeq_refl(mv(0, 2));
        lemma_step_mul(t1@, mv(0, 0), c1@, mv(0, 0), s1);
        lemma_step_mul(t2@, mv(0, 1), c2@, mv(0, 1), s2);
        lemma_step_mul(t3@, mv(0, 2), c3@, mv(0, 2), s3);
        lemma_step_sub(u@, t1@, t2@, qmul(mv(0, 0), s1), qmul(mv(0, 1), s2));
        lemma_step_add(d@, u@, t3@, qsub(qmul(mv(0, 0), s1), qmul(mv(0, 1), s2)), qmul(mv(0, 2), s3));
    }
    d
}

/// 4×4 determinant via Laplace expansion along the first row (exact rationals).
pub fn metric_determinant(g: &MetricRational) -> (det: Rational)
    ensures
        qeq(det@, det4_spec(metric_values(*g))),
        lowest_terms(det@),
{
    let ghost gv = metric_values(*g);
    let mut acc = Rational::zero();
    proof {
        lemma_lowest_terms_int(0);
    }
    let mut j: usize = 0;
    while j < DIM
        invariant
            j <= DIM,
            gv == metric_values(*g),
            qeq(acc@, laplace_partial(gv, j as nat)),
            lowest_terms(acc@),
        decreases DIM - j,
    {
        let mut minor: Vec<Vec<Rational>> = Vec::new();
        let mut i: usize = 1;
        while i < DIM
            invariant
                1 <= i <= DIM,
                j < DIM,
                gv == metric_values(*g),
                minor@.len() == i - 1,
                forall|r: int| 0 <= r < i - 1 ==> (#[trigger] minor@[r])@.len() == 3,
                forall|r: int, c: int|
                    0 <= r < i - 1 && 0 <= c < 3 ==> (#[trigger] minor@[r]@[c])@ == minor_spec(gv, j as int)(r, c),
            decreases DIM - i,
        {
            let mut row: Vec<Rational> = Vec::new();
            let mut k: usize = 0;
            while k < DIM
                invariant
                    1 <= i < DIM,
                    j < DIM,
                    k <= DIM,
                    gv == metric_values(*g),
                    row@.len() == if k <= j { k as int } else { k - 1 },
                    forall|c: int| 0 <= c < row@.len() ==> (#[trigger] row@[c])@ == gv(i as int, minor_col(c, j as int)),
                decreases DIM - k,
            {
                if k != j {
                    let e = g[i][k].copy();
                    row.push(e);
                }
                k = k + 1;
            }
            minor.push(row);
            i = i + 1;
        }
        let sign = if j % 2 == 0 { Rational::one() } else { Rational::one().neg() };
        let d3 = det3(&minor);
        let signed = sign.mul(&g[0][j]);
        let term = signed.mul(&d3);
        let next = acc.add(&term);
        proof {
            let ghost mv: QMatrix = |r: int, c: int| minor@[r]@[c]@;
            let ms = minor_spec(gv, j as int);
            assert(det3_spec(mv) == det3_spec(ms));
            assert(sign@ == cofactor_sign(j as int));
            lemma_qeq_refl(sign@);
            lemma_qeq_refl(gv(0, j as int));
            lemma_step_mul(signed@, sign@, g[0][j as int]@, cofactor_sign(j as int), gv(0, j as int));
            lemma_step_mul(term@, signed@, d3@, qmul(cofactor_sign(j as int), gv(0, j as int)), det3_spec(ms));
            lemma_step_add(next@, acc@, term@, laplace_partial(gv, j as nat),
                qmul(qmul(cofactor_sign(j as int), gv(0, j as int)), det3_spec(ms)));
        }
        acc = next;
        j = j + 1;
    }
    acc
}

/// The approximation e^{2Φ} ≈ 1 + 2Φ used on the exact slice.
pub open spec fn e2phi_linear(phi: QPair) -> QPair {
    qadd(qint(1), qmul(qint(2), phi))
}

/// r² sin²θ.
pub open spec fn r2_sin2_spec(r: QPair, sin_theta: QPair) -> QPair {
    qmul(qmul(qmul(r, r), sin_theta), sin_theta)
}

/// The equatorial-slice metric: g_tt = −(1 + 2Φ) + r² sin²θ ω², g_rr = 1/(1 − b/r),
/// g_θθ = r², g_φφ = r² sin²θ, g_tφ = g_φt = −r² sin²θ ω, all other entries zero.
pub open spec fn slice_spec(r: QPair, b_over_r: QPair, phi: QPair, omega: QPair, sin_theta: QPair) -> QMatrix {
    let r2s2 = r2_sin2_spec(r, sin_theta);
    |i: int, j: int|
        if i == 0 && j == 0 {
            qadd(qneg(e2phi_linear(phi)), qmul(qmul(r2s2, omega), omega))
        } else if i == 1 && j == 1 {
            qdiv(qint(1), qsub(qint(1), b_over_r))
        } else if i == 2 && j == 2 {
            qmul(r, r)
        } else if i == 3 && j == 3 {
            r2s2
        } else if (i == 0 && j == 3) || (i == 3 && j == 0) {
            qmul(qneg(r2s2), omega)
        } else {
            qint(0)
        }
}

/// `g` holds the equatorial-slice metric of the given parameters: every entry
/// has the value of `slice_spec`, the entries outside the diagonal and the
/// (t, φ) corner are exactly zero, and g_tφ = g_φt.
pub open spec fn is_equatorial_slice(
    g: MetricRational,
    r: QPair,
    b_over_r: QPair,
    phi: QPair,
    omega: QPair,
    sin_theta: QPair,
) -> bool {
    &&& forall|i: int, j: int| 0 <= i < 4 && 0 <= j < 4 ==>
        qeq(#[trigger] g[i][j]@, slice_spec(r, b_over_r, phi, omega, sin_theta)(i, j))
    &&& forall|i: int, j: int| 0 <= i < 4 && 0 <= j < 4 && i != j && !(i + j == 3 && (i == 0 || j == 0)) ==>
        #[trigger] g[i][j]@ == qint(0)
    &&& g[0][3]@ == g[3][0]@
}

/// Evaluation of a static, equatorial slice of the frame-dragging metric
/// (geometric units): `r` radial coordinate, `b_over_r` the ratio b(r)/r,
/// `phi` the redshift Φ(r) (with e^{2Φ} taken as 1 + 2Φ), `omega` the
/// frame-dragging ω(r), `sin_theta` sin θ (1 on the equator).
pub fn evaluate_metric_slice(
    r: Rational,
    b_over_r: Rational,
    phi: Rational,
    omega: Rational,
    sin_theta: Rational,
) -> (g: MetricRational)
    requires
        !qeq(b_over_r@, qint(1)),
    ensures
        is_equatorial_slice(g, r@, b_over_r@, phi@, omega@, sin_theta@),
        forall|i: int, j: int| 0 <= i < 4 && 0 <= j < 4 ==> lowest_terms(#[trigger] g[i][j]@),
{
    let r2 = r.mul(&r);
    let r2_s = r2.mul(&sin_theta);
    let r2_sin2 = r2_s.mul(&sin_theta);
    let two_phi = Rational::from_integer(2).mul(&phi);
    let e2phi = Rational::one().add(&two_phi);
    let neg_e2phi = e2phi.neg();
    let r2s2_w = r2_sin2.mul(&omega);
    let r2s2_w2 = r2s2_w.mul(&omega);
    let g_tt = neg_e2phi.add(&r2s2_w2);
    let one_minus_b = Rational::one().sub(&b_over_r);
    proof {
        lemma_qeq_nonzero(one_minus_b@, qsub(qint(1), b_over_r@));
    }
    let g_rr = Rational::one().div(&one_minus_b);
    let neg_r2s2 = r2_sin2.neg();
    let g_tphi = neg_r2s2.mul(&omega);
    proof {
        let rv = r@;
        let sv = sin_theta@;
        let wv = omega@;
        let r2v = qmul(rv, rv);
        let r2s2 = r2_sin2_spec(rv, sv);
        lemma_qeq_refl(sv);
        lemma_qeq_refl(wv);
        lemma_qeq_refl(phi@);
        lemma_qeq_refl(b_over_r@);
        lemma_qeq_refl(qint(1));
        lemma_qeq_refl(qint(2));
        lemma_step_mul(r2_s@, r2@, sv, r2v, sv);
        lemma_step_mul(r2_sin2@, r2_s@, sv, qmul(r2v, sv), sv);
        lemma_step_mul(two_phi@, qint(2), phi@, qint(2), phi@);
        lemma_step_add(e2phi@, qint(1), two_phi@, qint(1), qmul(qint(2), phi@));
        lemma_step_neg(neg_e2phi@, e2phi@, e2phi_linear(phi@));
        lemma_step_mul(r2s2_w@, r2_sin2@, wv, r2s2, wv);
        lemma_step_mul(r2s2_w2@, r2s2_w@, wv, qmul(r2s2, wv), wv);
        lemma_step_add(g_tt@, neg_e2phi@, r2s2_w2@, qneg(e2phi_linear(phi@)), qmul(qmul(r2s2, wv), wv));
        lemma_step_sub(one_minus_b@, qint(1), b_over_r@, qint(1), b_over_r@);
        lemma_step_div(g_rr@, qint(1), one_minus_b@, qint(1), qsub(qint(1), b_over_r@));
        lemma_step_neg(neg_r2s2@, r2_sin2@, r2s2);
        lemma_step_mul(g_tphi@, neg_r2s2@, wv, qneg(r2s2), wv);
        lemma_qeq_refl(r2v);
        lemma_qeq_refl(qint(0));
        lemma_lowest_terms_int(0);
    }
    let g_phph = r2_sin2.copy();
    let g_tphi2 = g_tphi.copy();
    [
        [g_tt, Rational::zero(), Rational::zero(), g_tphi],
        [Rational::zero(), g_rr, Rational::zero(), Rational::zero()],
        [Rational::zero(), Rational::zero(), r2, Rational::zero()],
        [g_tphi2, Rational::zero(), Rational::zero(), g_phph],
    ]
}

} // verus!
