use vstd::prelude::*;

verus! {

/// A rational number as a (numerator, denominator) pair; the value is
/// `p.0 / p.1` and is meaningful when `p.1 != 0`.
pub type QPair = (int, int);

/// Equality of values: cross-multiplication.
pub open spec fn qeq(a: QPair, b: QPair) -> bool {
    a.0 * b.1 == b.0 * a.1
}

pub open spec fn qint(n: int) -> QPair {
    (n, 1)
}

pub open spec fn qadd(a: QPair, b: QPair) -> QPair {
    (a.0 * b.1 + b.0 * a.1, a.1 * b.1)
}

pub open spec fn qneg(a: QPair) -> QPair {
    (-a.0, a.1)
}

pub open spec fn qsub(a: QPair, b: QPair) -> QPair {
    qadd(a, qneg(b))
}

pub open spec fn qmul(a: QPair, b: QPair) -> QPair {
    (a.0 * b.0, a.1 * b.1)
}

/// Quotient `a / b`; meaningful when `b.0 != 0`.
pub open spec fn qdiv(a: QPair, b: QPair) -> QPair {
    (a.0 * b.1, a.1 * b.0)
}

/// The pair is a well-formed value (non-zero denominator).
pub open spec fn qwf(a: QPair) -> bool {
    a.1 != 0
}

/// Strictly negative value.
pub open spec fn qneg_value(a: QPair) -> bool {
    (a.0 < 0 && a.1 > 0) || (a.0 > 0 && a.1 < 0)
}

/// `a >= b` for pairs with positive denominators.
pub open spec fn qge(a: QPair, b: QPair) -> bool {
    a.0 * b.1 >= b.0 * a.1
}

/// No integer greater than one divides both parts.
pub open spec fn lowest_terms(a: QPair) -> bool {
    forall|k: int| #![trigger a.0 % k] 1 < k ==> !(a.0 % k == 0 && a.1 % k == 0)
}

pub proof fn lemma_qeq_refl(a: QPair)
    ensures
        qeq(a, a),
{
}

pub proof fn lemma_qeq_symm(a: QPair, b: QPair)
    requires
        qeq(a, b),
    ensures
        qeq(b, a),
{
}

pub proof fn lemma_qeq_trans(a: QPair, b: QPair, c: QPair)
    requires
        qeq(a, b),
        qeq(b, c),
        qwf(b),
    ensures
        qeq(a, c),
{
    assert((a.0 * c.1 - c.0 * a.1) * b.1 == 0) by (nonlinear_arith)
        requires
            a.0 * b.1 == b.0 * a.1,
            b.0 * c.1 == c.0 * b.1,
    ;
    assert(a.0 * c.1 - c.0 * a.1 == 0) by (nonlinear_arith)
        requires
            (a.0 * c.1 - c.0 * a.1) * b.1 == 0,
            b.1 != 0,
    ;
}

pub proof fn lemma_qwf_mul(a: QPair, b: QPair)
    requires
        qwf(a),
        qwf(b),
    ensures
        qwf(qadd(a, b)),
        qwf(qmul(a, b)),
        qwf(qsub(a, b)),
        qwf(qneg(a)),
{
    assert(a.1 * b.1 != 0) by (nonlinear_arith)
        requires
            a.1 != 0,
            b.1 != 0,
    ;
}

pub proof fn lemma_qadd_cong(a: QPair, a2: QPair, b: QPair, b2: QPair)
    requires
        qeq(a, a2),
        qeq(b, b2),
    ensures
        qeq(qadd(a, b), qadd(a2, b2)),
{
    let (x, y, u, v) = (a.0, a.1, a2.0, a2.1);
    let (p, q, s, t) = (b.0, b.1, b2.0, b2.1);
    assert((x * q) * (v * t) == (u * t) * (y * q)) by (nonlinear_arith)
        requires
            x * v == u * y,
    ;
    assert((p * y) * (v * t) == (s * v) * (y * q)) by (nonlinear_arith)
        requires
            p * t == s * q,
    ;
    assert((x * q + p * y) * (v * t) == (x * q) * (v * t) + (p * y) * (v * t)) by (nonlinear_arith);
    assert((u * t + s * v) * (y * q) == (u * t) * (y * q) + (s * v) * (y * q)) by (nonlinear_arith);
}

pub proof fn lemma_qneg_cong(a: QPair, a2: QPair)
    requires
        qeq(a, a2),
    ensures
        qeq(qneg(a), qneg(a2)),
{
    assert((-a.0) * a2.1 == (-a2.0) * a.1) by (nonlinear_arith)
        requires
            a.0 * a2.1 == a2.0 * a.1,
    ;
}

pub proof fn lemma_qsub_cong(a: QPair, a2: QPair, b: QPair, b2: QPair)
    requires
        qeq(a, a2),
        qeq(b, b2),
    ensures
        qeq(qsub(a, b), qsub(a2, b2)),
{
    lemma_qneg_cong(b, b2);
    lemma_qadd_cong(a, a2, qneg(b), qneg(b2));
}

pub proof fn lemma_qmul_cong(a: QPair, a2: QPair, b: QPair, b2: QPair)
    requires
        qeq(a, a2),
        qeq(b, b2),
    ensures
        qeq(qmul(a, b), qmul(a2, b2)),
{
    assert((a.0 * b.0) * (a2.1 * b2.1) == (a2.0 * b2.0) * (a.1 * b.1)) by (nonlinear_arith)
        requires
            a.0 * a2.1 == a2.0 * a.1,
            b.0 * b2.1 == b2.0 * b.1,
    ;
}

pub proof fn lemma_qdiv_cong(a: QPair, a2: QPair, b: QPair, b2: QPair)
    requires
        qeq(a, a2),
        qeq(b, b2),
    ensures
        qeq(qdiv(a, b), qdiv(a2, b2)),
{
    assert((a.0 * b.1) * (a2.1 * b2.0) == (a2.0 * b2.1) * (a.1 * b.0)) by (nonlinear_arith)
        requires
            a.0 * a2.1 == a2.0 * a.1,
            b.0 * b2.1 == b2.0 * b.1,
    ;
}

/// One exact step of a computation: `r` equals `x + y`, and `x`, `y` equal
/// `sx`, `sy`; then `r` equals `sx + sy`.
pub proof fn lemma_step_add(r: QPair, x: QPair, y: QPair, sx: QPair, sy: QPair)
    requires
        qeq(r, qadd(x, y)),
        qeq(x, sx),
        qeq(y, sy),
        qwf(x),
        qwf(y),
    ensures
        qeq(r, qadd(sx, sy)),
{
    lemma_qwf_mul(x, y);
    lemma_qadd_cong(x, sx, y, sy);
    lemma_qeq_trans(r, qadd(x, y), qadd(sx, sy));
}

pub proof fn lemma_step_sub(r: QPair, x: QPair, y: QPair, sx: QPair, sy: QPair)
    requires
        qeq(r, qsub(x, y)),
        qeq(x, sx),
        qeq(y, sy),
        qwf(x),
        qwf(y),
    ensures
        qeq(r, qsub(sx, sy)),
{
    lemma_qwf_mul(x, y);
    lemma_qsub_cong(x, sx, y, sy);
    lemma_qeq_trans(r, qsub(x, y), qsub(sx, sy));
}

pub proof fn lemma_step_mul(r: QPair, x: QPair, y: QPair, sx: QPair, sy: QPair)
    requires
        qeq(r, qmul(x, y)),
        qeq(x, sx),
        qeq(y, sy),
        qwf(x),
        qwf(y),
    ensures
        qeq(r, qmul(sx, sy)),
{
    lemma_qwf_mul(x, y);
    lemma_qmul_cong(x, sx, y, sy);
    lemma_qeq_trans(r, qmul(x, y), qmul(sx, sy));
}

pub proof fn lemma_step_div(r: QPair, x: QPair, y: QPair, sx: QPair, sy: QPair)
    requires
        qeq(r, qdiv(x, y)),
        qeq(x, sx),
        qeq(y, sy),
        qwf(x),
        y.0 != 0,
    ensures
        qeq(r, qdiv(sx, sy)),
{
    assert(x.1 * y.0 != 0) by (nonlinear_arith)
        requires
            x.1 != 0,
            y.0 != 0,
    ;
    lemma_qdiv_cong(x, sx, y, sy);
    lemma_qeq_trans(r, qdiv(x, y), qdiv(sx, sy));
}

pub proof fn lemma_step_neg(r: QPair, x: QPair, sx: QPair)
    requires
        qeq(r, qneg(x)),
        qeq(x, sx),
        qwf(x),
    ensures
        qeq(r, qneg(sx)),
{
    lemma_qneg_cong(x, sx);
    lemma_qeq_trans(r, qneg(x), qneg(sx));
}

/// Equal values share being non-zero.
pub proof fn lemma_qeq_nonzero(x: QPair, s: QPair)
    requires
        qeq(x, s),
        s.0 != 0,
        x.1 != 0,
        s.1 != 0,
    ensures
        x.0 != 0,
{
    assert(x.0 != 0) by (nonlinear_arith)
        requires
            x.0 * s.1 == s.0 * x.1,
            s.0 != 0,
            x.1 != 0,
    ;
}

/// A product with a zero-numerator factor has a zero numerator.
pub proof fn lemma_qmul_zero(x: QPair, z: QPair)
    requires
        z.0 == 0,
    ensures
        qmul(x, z).0 == 0,
        qmul(z, x).0 == 0,
{
    assert(x.0 * z.0 == 0 && z.0 * x.0 == 0) by (nonlinear_arith)
        requires
            z.0 == 0,
    ;
}

/// Adding or subtracting a zero leaves the value unchanged; subtracting from
/// zero negates.
pub proof fn lemma_qzero_neutral(x: QPair, z: QPair)
    requires
        z.0 == 0,
        qwf(x),
        qwf(z),
    ensures
        qeq(qadd(x, z), x),
        qeq(qadd(z, x), x),
        qeq(qsub(x, z), x),
        qeq(qsub(z, x), qneg(x)),
{
    let (a, b, d) = (x.0, x.1, z.1);
    assert((a * d + 0 * b) * b == a * (b * d)) by (nonlinear_arith);
    assert((0 * b + a * d) * b == a * (d * b)) by (nonlinear_arith);
    assert((a * d + (-0int) * b) * b == a * (b * d)) by (nonlinear_arith);
    assert((0 * b + (-a) * d) * b == (-a) * (d * b)) by (nonlinear_arith);
}

/// Multiplication distributes over addition.
pub proof fn lemma_qmul_distrib(p: QPair, x: QPair, y: QPair)
    requires
        qwf(p),
    ensures
        qeq(qmul(p, qadd(x, y)), qadd(qmul(p, x), qmul(p, y))),
{
    let (p0, p1, x0, x1, y0, y1) = (p.0, p.1, x.0, x.1, y.0, y.1);
    let l0 = p0 * (x0 * y1 + y0 * x1);
    let l1 = p1 * (x1 * y1);
    let r0 = (p0 * x0) * (p1 * y1) + (p0 * y0) * (p1 * x1);
    let r1 = (p1 * x1) * (p1 * y1);
    assert((p0 * x0) * (p1 * y1) == p1 * (p0 * (x0 * y1))) by (nonlinear_arith);
    assert((p0 * y0) * (p1 * x1) == p1 * (p0 * (y0 * x1))) by (nonlinear_arith);
    assert(p0 * (x0 * y1 + y0 * x1) == p0 * (x0 * y1) + p0 * (y0 * x1)) by (nonlinear_arith);
    assert(p1 * (p0 * (x0 * y1) + p0 * (y0 * x1)) == p1 * (p0 * (x0 * y1)) + p1 * (p0 * (y0 * x1)))
        by (nonlinear_arith);
    assert(r0 == p1 * l0);
    assert(r1 == p1 * l1) by (nonlinear_arith)
        requires
            l1 == p1 * (x1 * y1),
            r1 == (p1 * x1) * (p1 * y1),
    ;
    assert(l0 * (p1 * l1) == (p1 * l0) * l1) by (nonlinear_arith);
}

/// A value equal to a negative one is negative (positive denominator).
pub proof fn lemma_qeq_negative(d: QPair, x: QPair)
    requires
        qeq(d, x),
        qneg_value(x),
        d.1 > 0,
    ensures
        d.0 < 0,
{
    if x.0 < 0 {
        assert(d.0 < 0) by (nonlinear_arith)
            requires
                d.0 * x.1 == x.0 * d.1,
                x.0 < 0,
                x.1 > 0,
                d.1 > 0,
        ;
    } else {
        assert(d.0 < 0) by (nonlinear_arith)
            requires
                d.0 * x.1 == x.0 * d.1,
                x.0 > 0,
                x.1 < 0,
                d.1 > 0,
        ;
    }
}

/// An integer over one is in lowest terms.
pub proof fn lemma_lowest_terms_int(n: int)
    ensures
        lowest_terms(qint(n)),
{
    assert forall|k: int| 1 < k implies !(#[trigger] (qint(n).0 % k) == 0 && qint(n).1 % k == 0) by {
        assert(1int % k == 1) by (nonlinear_arith)
            requires
                1 < k,
        ;
    }
}

/// Lowest terms are unique: a value with positive denominator in lowest terms
/// that equals `c` is `c` itself, when `c` has a positive denominator and its
/// parts are coprime (witnessed by `c.0 * x + c.1 * y == 1`).
pub proof fn lemma_lowest_terms_unique(d: QPair, c: QPair, x: int, y: int)
    requires
        qeq(d, c),
        lowest_terms(d),
        d.1 > 0,
        c.1 > 0,
        c.0 * x + c.1 * y == 1,
    ensures
        d == c,
{
    let k = y * d.1 + x * d.0;
    assert(d.1 == c.1 * k) by (nonlinear_arith)
        requires
            d.0 * c.1 == c.0 * d.1,
            c.0 * x + c.1 * y == 1,
            k == y * d.1 + x * d.0,
    ;
    assert(d.0 == c.0 * k) by (nonlinear_arith)
        requires
            d.0 * c.1 == c.0 * d.1,
            c.0 * x + c.1 * y == 1,
            k == y * d.1 + x * d.0,
    ;
    assert(k > 0) by (nonlinear_arith)
        requires
            d.1 == c.1 * k,
            d.1 > 0,
            c.1 > 0,
    ;
    if k > 1 {
        vstd::arithmetic::div_mod::lemma_mod_multiples_basic(c.0, k);
        vstd::arithmetic::div_mod::lemma_mod_multiples_basic(c.1, k);
        assert(d.0 % k == 0 && d.1 % k == 0);
        assert(false);
    }
    assert(c.0 * 1 == c.0 && c.1 * 1 == c.1);
}

/// Products over denominators: if `x = a/p` and `y = b/q` then `x · y = (a·b)/(p·q)`.
pub proof fn lemma_over_mul(x: QPair, y: QPair, a: int, p: int, b: int, q: int)
    requires
        qeq(x, (a, p)),
        qeq(y, (b, q)),
    ensures
        qeq(qmul(x, y), (a * b, p * q)),
{
    lemma_qmul_cong(x, (a, p), y, (b, q));
}

/// Sums over a common denominator: if `x = a/p` and `y = b/p` then `x + y = (a + b)/p`.
pub proof fn lemma_over_add(x: QPair, y: QPair, a: int, b: int, p: int)
    requires
        qeq(x, (a, p)),
        qeq(y, (b, p)),
        p != 0,
    ensures
        qeq(qadd(x, y), (a + b, p)),
{
    lemma_qadd_cong(x, (a, p), y, (b, p));
    assert((a * p + b * p) * p == (a + b) * (p * p)) by (nonlinear_arith);
    assert(p * p != 0) by (nonlinear_arith)
        requires
            p != 0,
    ;
    lemma_qeq_trans(qadd(x, y), (a * p + b * p, p * p), (a + b, p));
}

/// Differences over a common denominator: if `x = a/p` and `y = b/p` then `x − y = (a − b)/p`.
pub proof fn lemma_over_sub(x: QPair, y: QPair, a: int, b: int, p: int)
    requires
        qeq(x, (a, p)),
        qeq(y, (b, p)),
        p != 0,
    ensures
        qeq(qsub(x, y), (a - b, p)),
{
    lemma_qneg_cong(y, (b, p));
    lemma_over_add(x, qneg(y), a, -b, p);
}

} // verus!
