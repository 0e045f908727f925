use vstd::prelude::*;
use num_bigint::BigInt;
use num_rational::BigRational;
use num_traits::Signed;
use crate::exact::field::{QPair, qeq, qint, qadd, qsub, qmul, qdiv, qneg, qge, lowest_terms};

verus! {

/// Value of a little-endian base-256 digit string.
pub open spec fn uint_le(s: Seq<u8>) -> nat
    decreases s.len(),
{
    if s.len() == 0 {
        0
    } else {
        s[0] as nat + 256 * uint_le(s.drop_first())
    }
}

pub open spec fn pow256(n: nat) -> nat
    decreases n,
{
    if n == 0 {
        1
    } else {
        256 * pow256((n - 1) as nat)
    }
}

/// Value of a little-endian two's-complement byte string (the empty string is 0).
pub open spec fn int_le(s: Seq<u8>) -> int {
    if s.len() > 0 && s.last() >= 128 {
        uint_le(s) - pow256(s.len())
    } else {
        uint_le(s) as int
    }
}

/// Decimal digits of a natural number.
pub open spec fn nat_text(n: nat) -> Seq<char>
    decreases n,
{
    if n < 10 {
        seq![digit_char(n)]
    } else {
        nat_text(n / 10).push(digit_char(n % 10))
    }
}

pub open spec fn digit_char(d: nat) -> char {
    if d == 0 { '0' }
    else if d == 1 { '1' }
    else if d == 2 { '2' }
    else if d == 3 { '3' }
    else if d == 4 { '4' }
    else if d == 5 { '5' }
    else if d == 6 { '6' }
    else if d == 7 { '7' }
    else if d == 8 { '8' }
    else { '9' }
}

/// Decimal text of an integer, with a leading `-` when negative.
pub open spec fn int_text(n: int) -> Seq<char> {
    if n < 0 {
        seq!['-'] + nat_text((-n) as nat)
    } else {
        nat_text(n as nat)
    }
}

/// Text of a rational: the numerator alone when the denominator is one,
/// otherwise `numerator/denominator`.
pub open spec fn rat_text(q: QPair) -> Seq<char> {
    if q.1 == 1 {
        int_text(q.0)
    } else {
        int_text(q.0) + seq!['/'] + int_text(q.1)
    }
}

/// An exact, arbitrary-precision rational number, kept in lowest terms with a
/// positive denominator. Numerator and denominator are stored as little-endian
/// two's-complement bytes; arithmetic is carried out by `num-rational`.
pub struct Rational {
    num: Vec<u8>,
    den: Vec<u8>,
}

impl Rational {
    #[verifier::type_invariant]
    closed spec fn positive_denominator(self) -> bool {
        int_le(self.den@) > 0
    }
}

impl View for Rational {
    type V = QPair;

    /// (numerator, denominator); the denominator is the stored one, which the
    /// type invariant keeps positive.
    closed spec fn view(&self) -> QPair {
        let d = int_le(self.den@);
        (int_le(self.num@), if d > 0 { d } else { 1 })
    }
}

/// The denominator of every rational is positive.
pub broadcast proof fn lemma_rational_den_pos(q: Rational)
    ensures
        (#[trigger] q@).1 > 0,
{
}

impl Rational {
    /// `BigRational::from_integer`: the integer `n` over one.
    #[verifier::external_body]
    pub fn from_integer(n: i64) -> (r: Rational)
        ensures
            r@ == qint(n as int),
    {
        let q = BigRational::from_integer(BigInt::from(n));
        Rational { num: q.numer().to_signed_bytes_le(), den: q.denom().to_signed_bytes_le() }
    }

    /// `BigRational::new`: the fraction `numer / denom`, reduced to lowest terms
    /// with a positive denominator (the crate panics on a zero denominator).
    #[verifier::external_body]
    pub fn new(numer: i64, denom: i64) -> (r: Rational)
        requires
            denom != 0,
        ensures
            qeq(r@, (numer as int, denom as int)),
            lowest_terms(r@),
    {
        let q = BigRational::new(BigInt::from(numer), BigInt::from(denom));
        Rational { num: q.numer().to_signed_bytes_le(), den: q.denom().to_signed_bytes_le() }
    }

    /// `Add` on `BigRational`: the exact sum in lowest terms.
    #[verifier::external_body]
    pub fn add(&self, other: &Rational) -> (r: Rational)
        ensures
            qeq(r@, qadd(self@, other@)),
            lowest_terms(r@),
    {
        let q = BigRational::new_raw(BigInt::from_signed_bytes_le(&self.num), BigInt::from_signed_bytes_le(&self.den))
            + BigRational::new_raw(BigInt::from_signed_bytes_le(&other.num), BigInt::from_signed_bytes_le(&other.den));
        Rational { num: q.numer().to_signed_bytes_le(), den: q.denom().to_signed_bytes_le() }
    }

    /// `Sub` on `BigRational`: the exact difference in lowest terms.
    #[verifier::external_body]
    pub fn sub(&self, other: &Rational) -> (r: Rational)
        ensures
            qeq(r@, qsub(self@, other@)),
            lowest_terms(r@),
    {
        let q = BigRational::new_raw(BigInt::from_signed_bytes_le(&self.num), BigInt::from_signed_bytes_le(&self.den))
            - BigRational::new_raw(BigInt::from_signed_bytes_le(&other.num), BigInt::from_signed_bytes_le(&other.den));
        Rational { num: q.numer().to_signed_bytes_le(), den: q.denom().to_signed_bytes_le() }
    }

    /// `Mul` on `BigRational`: the exact product in lowest terms.
    #[verifier::external_body]
    pub fn mul(&self, other: &Rational) -> (r: Rational)
        ensures
            qeq(r@, qmul(self@, other@)),
            lowest_terms(r@),
    {
        let q = BigRational::new_raw(BigInt::from_signed_bytes_le(&self.num), BigInt::from_signed_bytes_le(&self.den))
            * BigRational::new_raw(BigInt::from_signed_bytes_le(&other.num), BigInt::from_signed_bytes_le(&other.den));
        Rational { num: q.numer().to_signed_bytes_le(), den: q.denom().to_signed_bytes_le() }
    }

    /// `Div` on `BigRational`: the exact quotient in lowest terms (the crate
    /// panics when the divisor is zero).
    #[verifier::external_body]
    pub fn div(&self, other: &Rational) -> (r: Rational)
        requires
            other@.0 != 0,
        ensures
            qeq(r@, qdiv(self@, other@)),
            lowest_terms(r@),
    {
        let q = BigRational::new_raw(BigInt::from_signed_bytes_le(&self.num), BigInt::from_signed_bytes_le(&self.den))
            / BigRational::new_raw(BigInt::from_signed_bytes_le(&other.num), BigInt::from_signed_bytes_le(&other.den));
        Rational { num: q.numer().to_signed_bytes_le(), den: q.denom().to_signed_bytes_le() }
    }

    /// `Neg` on `BigRational`: the numerator negated, the denominator kept.
    #[verifier::external_body]
    pub fn neg(&self) -> (r: Rational)
        ensures
            r@ == qneg(self@),
    {
        let q = -BigRational::new_raw(BigInt::from_signed_bytes_le(&self.num), BigInt::from_signed_bytes_le(&self.den));
        Rational { num: q.numer().to_signed_bytes_le(), den: q.denom().to_signed_bytes_le() }
    }

    /// `Signed::is_negative` on `BigRational`: the value is below zero.
    #[verifier::external_body]
    pub fn is_negative(&self) -> (b: bool)
        ensures
            b == (self@.0 < 0),
    {
        BigRational::new_raw(BigInt::from_signed_bytes_le(&self.num), BigInt::from_signed_bytes_le(&self.den)).is_negative()
    }

    /// `>=` on `BigRational`: the value is at least that of `other`.
    #[verifier::external_body]
    pub fn ge(&self, other: &Rational) -> (b: bool)
        ensures
            b == qge(self@, other@),
    {
        BigRational::new_raw(BigInt::from_signed_bytes_le(&self.num), BigInt::from_signed_bytes_le(&self.den))
            >= BigRational::new_raw(BigInt::from_signed_bytes_le(&other.num), BigInt::from_signed_bytes_le(&other.den))
    }

    /// `Display` on `BigRational`: the numerator, followed by `/` and the
    /// denominator unless the denominator is one.
    #[verifier::external_body]
    pub fn to_text(&self) -> (s: String)
        ensures
            s@ == rat_text(self@),
    {
        BigRational::new_raw(BigInt::from_signed_bytes_le(&self.num), BigInt::from_signed_bytes_le(&self.den)).to_string()
    }

    /// A copy of this value.
    pub fn copy(&self) -> (r: Rational)
        ensures
            r@ == self@,
    {
        proof { use_type_invariant(self); }
        let r = Rational { num: self.num.clone(), den: self.den.clone() };
        assert(r.num@ =~= self.num@);
        assert(r.den@ =~= self.den@);
        r
    }

    /// Zero, `0/1`.
    pub fn zero() -> (r: Rational)
        ensures
            r@ == qint(0),
    {
        Rational::from_integer(0)
    }

    /// One, `1/1`.
    pub fn one() -> (r: Rational)
        ensures
            r@ == qint(1),
    {
        Rational::from_integer(1)
    }

    /// Little-endian two's-complement bytes of the numerator.
    pub fn numer_bytes(&self) -> (b: Vec<u8>)
        ensures
            int_le(b@) == self@.0,
    {
        let b = self.num.clone();
        assert(b@ =~= self.num@);
        b
    }

    /// Little-endian two's-complement bytes of the (positive) denominator.
    pub fn denom_bytes(&self) -> (b: Vec<u8>)
        ensures
            int_le(b@) == self@.1,
    {
        proof { use_type_invariant(self); }
        let b = self.den.clone();
        assert(b@ =~= self.den@);
        b
    }
}

} // verus!
