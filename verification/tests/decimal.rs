use margin_trade::Decimal;

fn canonical(text: &str) -> Option<String> {
    Decimal::parse(text).map(|amount| amount.as_str().to_string())
}

#[test]
fn canonical_texts_are_kept() {
    for text in
        ["0", "1", "1.5", "20000", "100", "0.001", "-1", "-0.25", "-0", "1234567890.0987654321"]
    {
        assert_eq!(canonical(text), Some(text.to_string()));
    }
}

#[test]
fn leading_zeros_are_dropped() {
    assert_eq!(canonical("007"), Some("7".to_string()));
    assert_eq!(canonical("000"), Some("0".to_string()));
    assert_eq!(canonical("00.5"), Some("0.5".to_string()));
    assert_eq!(canonical("-010"), Some("-10".to_string()));
}

#[test]
fn trailing_zeros_are_dropped() {
    assert_eq!(canonical("1.50"), Some("1.5".to_string()));
    assert_eq!(canonical("20000.0"), Some("20000".to_string()));
    assert_eq!(canonical("4000.00000000"), Some("4000".to_string()));
    assert_eq!(canonical("0.00000000"), Some("0".to_string()));
    assert_eq!(canonical("-0.000"), Some("-0".to_string()));
    assert_eq!(canonical("10.0100"), Some("10.01".to_string()));
}

#[test]
fn what_is_no_decimal_text_is_refused() {
    for text in [
        "", "-", ".", "-.", ".5", "5.", "-.5", "1..2", "1.2.3", "1e5", "1E5", "+1", "--1", "1-",
        " 1", "1 ", "1,5", "abc", "NaN", "inf", "-inf", "0x10", "१२", "1.٥", "1.5€",
    ] {
        assert!(Decimal::parse(text).is_none(), "{text:?} was accepted");
    }
}

#[test]
fn zero_is_told_whatever_its_sign_and_digits() {
    for text in ["0", "-0", "0.0", "000.000", "-0.00"] {
        let amount = Decimal::parse(text).unwrap();
        assert!(amount.is_zero());
        assert!(!amount.is_positive());
    }
    for text in ["1", "0.1", "-0.001", "10", "0.000000001"] {
        assert!(!Decimal::parse(text).unwrap().is_zero());
    }
}

#[test]
fn sign_and_positivity() {
    let amount = Decimal::parse("1.5").unwrap();
    assert!(amount.is_positive());
    assert!(!amount.is_negative());
    let amount = Decimal::parse("-1.5").unwrap();
    assert!(!amount.is_positive());
    assert!(amount.is_negative());
    let amount = Decimal::parse("-0").unwrap();
    assert!(!amount.is_positive());
    assert!(amount.is_negative());
    let amount = Decimal::parse("0").unwrap();
    assert!(!amount.is_positive());
    assert!(!amount.is_negative());
}

#[test]
fn the_amount_zero() {
    let zero = Decimal::zero();
    assert_eq!(zero.as_str(), "0");
    assert!(zero.is_zero());
    assert!(!zero.is_negative());
    assert!(!zero.is_positive());
    assert_eq!(zero.into_text(), "0");
}

#[test]
fn a_clone_is_the_same_amount() {
    let amount = Decimal::parse("-12.340").unwrap();
    let copy = amount.clone();
    assert_eq!(copy.as_str(), "-12.34");
    assert_eq!(copy.is_negative(), amount.is_negative());
    assert_eq!(copy.is_zero(), amount.is_zero());
    assert_eq!(amount.into_text(), "-12.34");
}

#[test]
fn reading_the_canonical_text_gives_the_amount_back() {
    for text in ["3.1400", "-000.5", "42", "0.0"] {
        let amount = Decimal::parse(text).unwrap();
        let again = Decimal::parse(amount.as_str()).unwrap();
        assert_eq!(again.as_str(), amount.as_str());
    }
}

#[test]
fn the_text_of_a_finite_float_is_canonical() {
    let floats: [f64; 14] = [
        0.0,
        -0.0,
        1.5,
        20000.0,
        100.0,
        0.1,
        0.30000000000000004,
        -2.5,
        1e21,
        1e-7,
        123456789.125,
        f64::MAX,
        f64::MIN_POSITIVE,
        5e-324,
    ];
    for x in floats {
        let text = x.to_string();
        let amount = Decimal::parse(&text).unwrap();
        assert_eq!(amount.as_str(), text);
        assert_eq!(amount.is_zero(), x == 0.0);
        assert_eq!(amount.is_positive(), x > 0.0);
    }
}

#[test]
fn the_text_of_a_float_that_is_no_number_is_refused() {
    assert!(Decimal::parse(&f64::NAN.to_string()).is_none());
    assert!(Decimal::parse(&f64::INFINITY.to_string()).is_none());
    assert!(Decimal::parse(&f64::NEG_INFINITY.to_string()).is_none());
}
