use options_tracker::amount::parse_amount;

#[test]
fn parses_whole_and_fractional_amounts() {
    assert_eq!(parse_amount("150.5"), Some(150_500_000));
    assert_eq!(parse_amount("100"), Some(100_000_000));
    assert_eq!(parse_amount("0"), Some(0));
    assert_eq!(parse_amount("2.50"), Some(2_500_000));
    assert_eq!(parse_amount("0.000001"), Some(1));
}

#[test]
fn parses_signs_and_bare_points() {
    assert_eq!(parse_amount("-3"), Some(-3_000_000));
    assert_eq!(parse_amount("+7"), Some(7_000_000));
    assert_eq!(parse_amount(".25"), Some(250_000));
    assert_eq!(parse_amount("5."), Some(5_000_000));
}

#[test]
fn refuses_malformed_amounts() {
    assert_eq!(parse_amount(""), None);
    assert_eq!(parse_amount("abc"), None);
    assert_eq!(parse_amount("."), None);
    assert_eq!(parse_amount("-"), None);
    assert_eq!(parse_amount("1.2.3"), None);
    assert_eq!(parse_amount(" 1"), None);
    assert_eq!(parse_amount("1.1234567"), None);
    assert_eq!(parse_amount("1e"), None);
    assert_eq!(parse_amount("e5"), None);
    assert_eq!(parse_amount("1e5e2"), None);
    assert_eq!(parse_amount("1e+-2"), None);
    assert_eq!(parse_amount("inf"), None);
    assert_eq!(parse_amount("NaN"), None);
}

#[test]
fn amount_range_ends_at_i64_max() {
    assert_eq!(parse_amount("9223372036854.775807"), Some(i64::MAX));
    assert_eq!(parse_amount("9223372036854.775808"), None);
    assert_eq!(parse_amount("99999999999999"), None);
    assert_eq!(parse_amount("-9223372036854.775807"), Some(-i64::MAX));
}

#[test]
fn parses_exponent_form() {
    assert_eq!(parse_amount("1e5"), Some(100_000_000_000));
    assert_eq!(parse_amount("1.5E3"), Some(1_500_000_000));
    assert_eq!(parse_amount("2.5e-1"), Some(250_000));
    assert_eq!(parse_amount("-3e+2"), Some(-300_000_000));
    assert_eq!(parse_amount("1e-6"), Some(1));
    assert_eq!(parse_amount("1e-7"), None);
    assert_eq!(parse_amount("0e-9"), Some(0));
    assert_eq!(parse_amount("1234567e-7"), None);
    assert_eq!(parse_amount("12345670e-7"), None);
    assert_eq!(parse_amount("1234567e-6"), Some(1_234_567));
    assert_eq!(parse_amount("1e13"), None);
    assert_eq!(parse_amount("1e1000001"), None);
    assert_eq!(parse_amount(".5e1"), Some(5_000_000));
}
