use gnc_carry::fixed::{Fixed, FixedError};
use gnc_carry::text::IntErrorKind;

#[test]
fn add_with_equal_denominators() {
    let r = Fixed(150, 100).add(Fixed(50, 100)).unwrap();
    assert_eq!((r.0, r.1), (200, 100));
    assert_eq!(r, Fixed(200, 100));
}

#[test]
fn add_scales_the_smaller_denominator() {
    let r = Fixed(1, 100).add(Fixed(1, 10)).unwrap();
    assert_eq!((r.0, r.1), (11, 100));
    let r = Fixed(1, 10).add(Fixed(1, 100)).unwrap();
    assert_eq!((r.0, r.1), (11, 100));
}

#[test]
fn add_rejects_incommensurable_denominators() {
    assert!(matches!(Fixed(1, 3).add(Fixed(1, 2)), Err(FixedError::IncommensurableDenominators)));
    assert!(matches!(Fixed(1, 0).add(Fixed(1, 2)), Err(FixedError::IncommensurableDenominators)));
}

#[test]
fn add_reports_overflow() {
    assert!(matches!(Fixed(i32::MAX, 1).add(Fixed(1, 1)), Err(FixedError::Overflow)));
    assert!(matches!(Fixed(i32::MAX, 1).add(Fixed(0, 10)), Err(FixedError::Overflow)));
}

#[test]
fn sub_on_common_denominator() {
    let r = Fixed(5, 10).sub(Fixed(3, 100)).unwrap();
    assert_eq!((r.0, r.1), (47, 100));
    assert!(matches!(Fixed(i32::MIN, 1).sub(Fixed(1, 1)), Err(FixedError::Overflow)));
}

#[test]
fn neg_turns_the_sign() {
    let r = Fixed(-345, 100).neg();
    assert_eq!((r.0, r.1), (345, 100));
}

#[test]
fn assign_forms_update_in_place() {
    let mut a = Fixed(30, 100);
    a.add_assign(Fixed(1, 10)).unwrap();
    assert_eq!((a.0, a.1), (40, 100));
    a.sub_assign(Fixed(5, 100)).unwrap();
    assert_eq!((a.0, a.1), (35, 100));
    assert!(a.add_assign(Fixed(1, 3)).is_err());
    assert_eq!((a.0, a.1), (35, 100));
}

#[test]
fn zero_detection() {
    assert!(Fixed(0, 100).is_zero());
    assert!(Fixed(0, 1).is_zero());
    assert!(!Fixed(5, 100).is_zero());
}

#[test]
fn equality_compares_values() {
    assert_eq!(Fixed(1, 10), Fixed(10, 100));
    assert_eq!(Fixed(0, 1), Fixed(0, 100));
    assert_ne!(Fixed(1, 10), Fixed(11, 100));
    assert!(matches!(Fixed(1, 10).equals(&Fixed(10, 100)), Ok(true)));
    assert!(matches!(Fixed(1, 10).equals(&Fixed(11, 100)), Ok(false)));
    assert!(matches!(Fixed(1, 3).equals(&Fixed(1, 2)), Err(FixedError::IncommensurableDenominators)));
}

#[test]
fn exact_text_form() {
    assert_eq!(Fixed(-345, 100).to_string_raw(), "-345/100");
    assert_eq!(Fixed(0, 1).to_string_raw(), "0/1");
    assert_eq!(Fixed(i32::MIN, 65535).to_string_raw(), "-2147483648/65535");
}

#[test]
fn parse_round_trip() {
    for f in [Fixed(-345, 100), Fixed(0, 1), Fixed(i32::MAX, 1), Fixed(i32::MIN, 65535), Fixed(7, 10)] {
        let back = Fixed::from_str(&f.to_string_raw()).unwrap();
        assert_eq!((back.0, back.1), (f.0, f.1));
    }
}

#[test]
fn parse_accepts_signs() {
    let f = Fixed::from_str("+12/100").unwrap();
    assert_eq!((f.0, f.1), (12, 100));
    let f = Fixed::from_str("-0/1").unwrap();
    assert_eq!((f.0, f.1), (0, 1));
}

#[test]
fn parse_failure_modes() {
    assert!(matches!(Fixed::from_str("100"), Err(FixedError::MalformedSource(s)) if s == "100"));
    assert!(matches!(
        Fixed::from_str("ab/100"),
        Err(FixedError::ParseNumeratorError(IntErrorKind::InvalidDigit))
    ));
    assert!(matches!(
        Fixed::from_str("100/cd"),
        Err(FixedError::ParseDenominatorError(IntErrorKind::InvalidDigit))
    ));
    assert!(matches!(Fixed::from_str("/100"), Err(FixedError::ParseNumeratorError(IntErrorKind::Empty))));
    assert!(matches!(Fixed::from_str("1/0"), Err(FixedError::ZeroDenominator)));
    assert!(matches!(
        Fixed::from_str("1/-5"),
        Err(FixedError::ParseDenominatorError(IntErrorKind::InvalidDigit))
    ));
    assert!(matches!(
        Fixed::from_str("1/70000"),
        Err(FixedError::ParseDenominatorError(IntErrorKind::PosOverflow))
    ));
    assert!(matches!(
        Fixed::from_str("-2147483649/1"),
        Err(FixedError::ParseNumeratorError(IntErrorKind::NegOverflow))
    ));
    assert!(matches!(Fixed::from_str("1/2/3"), Err(FixedError::ParseDenominatorError(IntErrorKind::InvalidDigit))));
}

#[test]
fn sum_starts_from_zero() {
    let r = Fixed::sum(&vec![Fixed(30, 100), Fixed(-10, 100), Fixed(5, 100)]).unwrap();
    assert_eq!((r.0, r.1), (25, 100));
    let r = Fixed::sum(&vec![]).unwrap();
    assert_eq!((r.0, r.1), (0, 1));
    assert!(Fixed::sum(&vec![Fixed(1, 3), Fixed(1, 2)]).is_err());
}

#[test]
fn default_is_zero_over_one() {
    let d = Fixed::default();
    assert_eq!((d.0, d.1), (0, 1));
}

#[test]
fn equalize_brings_to_larger_denominator() {
    let (a, b) = Fixed::equalize_fractions(Fixed(3, 10), Fixed(7, 1000)).unwrap();
    assert_eq!((a.0, a.1, b.0, b.1), (300, 1000, 7, 1000));
    assert!(matches!(Fixed::equalize_fractions(Fixed(3, 4), Fixed(7, 6)), Err(FixedError::IncommensurableDenominators)));
}

#[test]
fn add_needs_only_the_sum_to_fit() {
    let r = Fixed(300_000_000, 1).add(Fixed(-2_000_000_000, 10)).unwrap();
    assert_eq!((r.0, r.1), (1_000_000_000, 10));
    let r = Fixed(300_000_000, 1).sub(Fixed(2_000_000_000, 10)).unwrap();
    assert_eq!((r.0, r.1), (1_000_000_000, 10));
}
