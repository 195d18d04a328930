use cypher_cli::fixed_point::Fixed;
use fixed::types::I80F48;

fn fx(v: &str) -> Fixed {
    Fixed::from_bits(v.parse::<I80F48>().unwrap().to_bits())
}

#[test]
fn parse_gives_the_raw_bits() {
    let x = Fixed::parse("2.5").unwrap();
    assert_eq!(x.bits, 5i128 << 47);
    let y = Fixed::parse("-3").unwrap();
    assert_eq!(y.bits, -(3i128 << 48));
}

#[test]
fn parse_reports_the_error_text() {
    assert_eq!(Fixed::parse("1.x").unwrap_err(), "invalid digit found in string");
    assert_eq!(Fixed::parse("").unwrap_err(), "string has no digits");
}

#[test]
fn checked_arithmetic_matches_the_raw_formulas() {
    let a = fx("2.5");
    let b = fx("4");
    assert_eq!(a.checked_add(b).unwrap().bits, fx("6.5").bits);
    assert_eq!(a.checked_sub(b).unwrap().bits, fx("-1.5").bits);
    assert_eq!(a.checked_mul(b).unwrap().bits, fx("10").bits);
    // 1.6 * 2^48 = 450359962737049.6, rounded towards zero
    assert_eq!(b.checked_div(a).unwrap().bits, 450359962737049);
    assert!(b.checked_div(Fixed::zero()).is_none());
    let big = Fixed::from_bits(i128::MAX);
    assert!(big.checked_add(Fixed::one()).is_none());
    assert!(big.checked_mul(b).is_none());
}

#[test]
fn conversions_shift_by_48_bits() {
    assert_eq!(Fixed::from_u64(7).bits, 7i128 << 48);
    assert_eq!(Fixed::from_usize(3).bits, 3i128 << 48);
    assert_eq!(fx("7.9").checked_to_u64(), Some(7));
    assert_eq!(fx("-0.5").checked_to_u64(), None);
}

#[test]
fn comparisons_and_abs() {
    let a = fx("-2.25");
    assert!(a.is_negative());
    assert!(!a.is_positive());
    assert_eq!(a.abs().bits, fx("2.25").bits);
    assert_eq!(a.min(Fixed::zero()).bits, a.bits);
    assert!(a.lt(Fixed::zero()));
    assert!(a.le(a));
    assert!(Fixed::zero().is_zero());
}
