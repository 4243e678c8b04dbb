use investments::cash::Cash;
use investments::decimal::Decimal;

#[test]
fn decimal_text() {
    assert_eq!(Decimal::new(12345, 2).to_text(), "123.45");
    assert_eq!(Decimal::new(-5, 2).to_text(), "-0.05");
    assert_eq!(Decimal::new(100, 2).to_text(), "1.00");
    assert_eq!(Decimal::new(0, 0).to_text(), "0");
    assert_eq!(Decimal::new(0, 3).to_text(), "0.000");
    assert_eq!(Decimal::new(-42, 0).to_text(), "-42");
    assert_eq!(Decimal::new(i64::MIN, 0).to_text(), "-9223372036854775808");
    assert_eq!(Decimal::from_parts(79228162514264337593543950335, 28).unwrap().to_text(), "7.9228162514264337593543950335");
}

#[test]
fn decimal_arithmetic() {
    let d = Decimal::new(-5, 2);
    assert_eq!(d.neg().to_text(), "0.05");
    assert_eq!(d.neg().neg().to_text(), "-0.05");
    assert!(d.is_negative() && !d.is_positive() && !d.is_zero());
    assert!(Decimal::zero().is_zero());
    let p = Decimal::new(29595, 1).checked_mul(&Decimal::new(35, 0)).unwrap();
    assert_eq!(p.to_text(), "103582.5");
    assert_eq!((p.mantissa(), p.scale()), (1035825, 1));
    assert!(Decimal::new(1, 20).checked_mul(&Decimal::new(1, 9)).is_none());
    let big = Decimal::from_parts(79228162514264337593543950335, 0).unwrap();
    assert!(big.checked_mul(&Decimal::new(2, 0)).is_none());
    assert!(Decimal::from_parts(79228162514264337593543950336, 0).is_none());
    assert!(Decimal::from_parts(1, 29).is_none());
}

#[test]
fn cash_text() {
    let c = Cash::new("USD", Decimal::new(-1250, 2));
    assert_eq!(c.to_text(), "-12.50 USD");
    assert_eq!(c.neg().to_text(), "12.50 USD");
    assert!(c.is_negative());
    assert_eq!(c.clone().to_text(), "-12.50 USD");
}
