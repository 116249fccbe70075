use bybit_feed::decimal::{parse_i128, parse_i64, Decimal128, DecimalParseError};

#[test]
fn parses_simple_decimal() {
    let d = Decimal128::from_str("1.5").unwrap();
    assert_eq!(d.units, 1_500_000_000_000_000_000i128);
}

#[test]
fn parses_integer_string() {
    let d = Decimal128::from_str("100").unwrap();
    assert_eq!(d.units, 100_000_000_000_000_000_000i128);
}

#[test]
fn parses_zero_as_canonical_zero() {
    let d = Decimal128::from_str("0").unwrap();
    assert_eq!(d.units, 0);
    assert!(d.is_zero());
    assert_eq!(d, Decimal128::zero());
}

#[test]
fn parses_negative_fraction() {
    let d = Decimal128::from_str("-0.001").unwrap();
    assert_eq!(d.units, -1_000_000_000_000_000i128);
}

#[test]
fn parses_plus_sign() {
    assert_eq!(
        Decimal128::from_str("+1.5").unwrap(),
        Decimal128::from_str("1.5").unwrap()
    );
}

#[test]
fn parses_eighteen_fractional_digits() {
    let d = Decimal128::from_str("0.000000000000000001").unwrap();
    assert_eq!(d.units, 1);
}

#[test]
fn rejects_nineteen_fractional_digits() {
    assert_eq!(
        Decimal128::from_str("12.1234567890123456789"),
        Err(DecimalParseError::Malformed)
    );
}

#[test]
fn rejects_malformed_strings() {
    for s in ["", "abc", "1.2.3", "1.", ".5", "-", "+", "1e5", " 1", "1 "] {
        assert_eq!(
            Decimal128::from_str(s),
            Err(DecimalParseError::Malformed),
            "input {s:?}"
        );
    }
}

#[test]
fn rejects_overflow() {
    assert_eq!(
        Decimal128::from_str("200000000000000000000"),
        Err(DecimalParseError::Overflow)
    );
}

#[test]
fn accepts_maximum_magnitudes() {
    // i128::MAX units == 170141183460469231731.687303715884105727
    let d = Decimal128::from_str("170141183460469231731.687303715884105727").unwrap();
    assert_eq!(d.units, i128::MAX);
    let d = Decimal128::from_str("-170141183460469231731.687303715884105728").unwrap();
    assert_eq!(d.units, i128::MIN);
    assert_eq!(
        Decimal128::from_str("170141183460469231731.687303715884105728"),
        Err(DecimalParseError::Overflow)
    );
}

#[test]
fn renders_canonical_forms() {
    assert_eq!(Decimal128::from_str("1.5").unwrap().to_decimal_string(), "1.5");
    assert_eq!(Decimal128::from_str("1.500").unwrap().to_decimal_string(), "1.5");
    assert_eq!(Decimal128::from_str("0").unwrap().to_decimal_string(), "0");
    assert_eq!(Decimal128::from_str("007").unwrap().to_decimal_string(), "7");
    assert_eq!(Decimal128::from_str("-0.001").unwrap().to_decimal_string(), "-0.001");
    assert_eq!(Decimal128::from_str("100").unwrap().to_decimal_string(), "100");
    assert_eq!(Decimal128::from_str("+2.25").unwrap().to_decimal_string(), "2.25");
}

#[test]
fn round_trip_is_idempotent_on_canonical_input() {
    for s in ["1.5", "0", "-0.001", "100", "50000.5", "0.000000000000000001"] {
        let once = Decimal128::from_str(s).unwrap();
        let rendered = once.to_decimal_string();
        assert_eq!(rendered, s, "canonical input must render to itself");
        let twice = Decimal128::from_str(&rendered).unwrap();
        assert_eq!(once, twice);
    }
}

#[test]
fn round_trip_from_value() {
    for units in [0i128, 1, -1, i128::MAX, i128::MIN, 1_500_000_000_000_000_000] {
        let d = Decimal128 { units };
        let back = Decimal128::from_str(&d.to_decimal_string()).unwrap();
        assert_eq!(back, d);
    }
}

#[test]
fn parses_plain_integers() {
    assert_eq!(parse_i128("1700000000000"), Some(1_700_000_000_000i128));
    assert_eq!(parse_i128("-5"), Some(-5));
    assert_eq!(parse_i128("+5"), Some(5));
    assert_eq!(parse_i128(""), None);
    assert_eq!(parse_i128("12a"), None);
    assert_eq!(parse_i128("1.0"), None);
    assert_eq!(parse_i128("170141183460469231731687303715884105727"), Some(i128::MAX));
    assert_eq!(parse_i128("170141183460469231731687303715884105728"), None);
    assert_eq!(parse_i64("9223372036854775807"), Some(i64::MAX));
    assert_eq!(parse_i64("9223372036854775808"), None);
    assert_eq!(parse_i64("-9223372036854775808"), Some(i64::MIN));
}
