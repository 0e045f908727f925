use ctc_research_framework::exact::rational::Rational;

#[test]
fn rational_arithmetic_is_exact_and_reduced() {
    let a = Rational::new(1, 3);
    let b = Rational::new(-1, 6);
    assert_eq!(a.add(&b).to_text(), "1/6");
    assert_eq!(a.sub(&b).to_text(), "1/2");
    assert_eq!(a.mul(&b).to_text(), "-1/18");
    assert_eq!(a.div(&b).to_text(), "-2");
    assert_eq!(b.neg().to_text(), "1/6");
    assert_eq!(Rational::new(6, -4).to_text(), "-3/2");
    assert_eq!(Rational::new(0, -7).to_text(), "0");
    assert_eq!(Rational::from_integer(-12).to_text(), "-12");
}

#[test]
fn rational_sign_and_order() {
    let a = Rational::new(2, 7);
    let b = Rational::new(1, 4);
    assert!(a.ge(&b));
    assert!(!b.ge(&a));
    assert!(a.ge(&a));
    assert!(Rational::new(-1, 1000000000000).is_negative());
    assert!(!Rational::zero().is_negative());
}

#[test]
fn rational_copies_and_parts() {
    let a = Rational::new(-300, 7);
    let c = a.copy();
    assert_eq!(c.to_text(), "-300/7");
    // Two's-complement little-endian: −300 = 0xFED4, 7 = 0x07.
    assert_eq!(a.numer_bytes(), vec![0xD4, 0xFE]);
    assert_eq!(a.denom_bytes(), vec![0x07]);
    let big = Rational::new(1, 1000000000000).mul(&Rational::new(1, 1000000000000));
    assert_eq!(big.to_text(), "1/1000000000000000000000000");
}
