use ebi::fraction::Fraction;
use ebi::importable::validate;

#[test]
fn fraction_exact() {
    let zero = Fraction::one().one_minus();

    assert!(zero.is_zero());
}

#[test]
fn fraction_constructors() {
    assert_eq!(Fraction::zero(), Fraction { num: 0, den: 1 });
    assert_eq!(Fraction::one(), Fraction { num: 1, den: 1 });
    assert_eq!(Fraction::new(2, 5), Fraction { num: 2, den: 5 });
    assert!(Fraction::new(3, 3).is_one());
    assert!(!Fraction::new(2, 5).is_one());
    assert!(!Fraction::new(2, 5).is_zero());
}

#[test]
fn fraction_one_minus_proper() {
    let f = Fraction::new(2, 5).one_minus();
    assert_eq!(f, Fraction { num: 3, den: 5 });
}

#[test]
fn fraction_parse_plain() {
    assert_eq!(Fraction::parse(b"0"), Some(Fraction { num: 0, den: 1 }));
    assert_eq!(Fraction::parse(b"17"), Some(Fraction { num: 17, den: 1 }));
}

#[test]
fn fraction_parse_ratio() {
    assert_eq!(Fraction::parse(b"2/5"), Some(Fraction { num: 2, den: 5 }));
    assert_eq!(Fraction::parse(b"1/5"), Some(Fraction { num: 1, den: 5 }));
    assert_eq!(Fraction::parse(b"0/7"), Some(Fraction { num: 0, den: 7 }));
}

#[test]
fn fraction_parse_rejects() {
    assert_eq!(Fraction::parse(b""), None);
    assert_eq!(Fraction::parse(b"/"), None);
    assert_eq!(Fraction::parse(b"2/"), None);
    assert_eq!(Fraction::parse(b"/5"), None);
    assert_eq!(Fraction::parse(b"a/5"), None);
    assert_eq!(Fraction::parse(b"2/b"), None);
    assert_eq!(Fraction::parse(b"2/5/3"), None);
    assert_eq!(Fraction::parse(b"2.5"), None);
    assert_eq!(Fraction::parse(b"2/0"), None);
    assert_eq!(Fraction::parse(b"-1/5"), None);
}

#[test]
fn fraction_parse_digit_limit() {
    // nineteen digits fit; a twentieth is rejected
    assert_eq!(
        Fraction::parse(b"9999999999999999999"),
        Some(Fraction { num: 9999999999999999999, den: 1 })
    );
    assert_eq!(Fraction::parse(b"99999999999999999999"), None);
}

#[test]
fn validate_fraction_bytes() {
    assert!(validate::<Fraction>(b"2/5").is_ok());
    let e = validate::<Fraction>(b"no fraction").unwrap_err();
    assert_eq!(e, "Invalid fraction.");
}
