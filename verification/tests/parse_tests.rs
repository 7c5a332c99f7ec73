use hygrocal::parse::{parse_number, parse_reading};
use hygrocal::state::RawReading;

fn bytes(s: &str) -> Vec<u8> {
    s.as_bytes().to_vec()
}

#[test]
fn plain_pair_parses() {
    let r = parse_reading(&bytes("52.5,25.0"));
    assert_eq!(
        r,
        Some(RawReading { humidity: 52_500_000_000, temperature: 25_000_000_000 })
    );
}

#[test]
fn surrounding_whitespace_is_trimmed() {
    let r = parse_reading(&bytes("  52.5,25.0\r\n"));
    assert_eq!(
        r,
        Some(RawReading { humidity: 52_500_000_000, temperature: 25_000_000_000 })
    );
}

#[test]
fn inner_whitespace_is_malformed() {
    // only the ends are trimmed, as the device protocol has it
    assert_eq!(parse_reading(&bytes("52.5, 25.0")), None);
}

#[test]
fn negative_values_parse() {
    let r = parse_reading(&bytes("-3.25,0.5"));
    assert_eq!(
        r,
        Some(RawReading { humidity: -3_250_000_000, temperature: 500_000_000 })
    );
}

#[test]
fn integer_and_trailing_dot_forms() {
    assert_eq!(
        parse_reading(&bytes("52,25")),
        Some(RawReading { humidity: 52_000_000_000, temperature: 25_000_000_000 })
    );
    assert_eq!(
        parse_reading(&bytes("52.,25.")),
        Some(RawReading { humidity: 52_000_000_000, temperature: 25_000_000_000 })
    );
}

#[test]
fn wrong_field_counts_are_malformed() {
    assert_eq!(parse_reading(&bytes("52.5")), None);
    assert_eq!(parse_reading(&bytes("1,2,3")), None);
    assert_eq!(parse_reading(&bytes("")), None);
    assert_eq!(parse_reading(&bytes(",")), None);
}

#[test]
fn non_numeric_fields_are_malformed() {
    assert_eq!(parse_reading(&bytes("abc,1")), None);
    assert_eq!(parse_reading(&bytes("1,abc")), None);
    assert_eq!(parse_reading(&bytes("1.2.3,4")), None);
    assert_eq!(parse_reading(&bytes(".5,1")), None);
    assert_eq!(parse_reading(&bytes("-,1")), None);
}

#[test]
fn fraction_truncates_after_nine_digits() {
    assert_eq!(parse_number(&bytes("1.1234567899")), Some(1_123_456_789));
    assert_eq!(parse_number(&bytes("0.000000001")), Some(1));
}

#[test]
fn oversized_integer_part_is_rejected() {
    assert_eq!(parse_number(&bytes("99999999999")), None);
    assert_eq!(parse_number(&bytes("9000000000")), Some(9_000_000_000_000_000_000));
    assert_eq!(parse_number(&bytes("9000000001")), None);
}

#[test]
fn leading_zeros_are_accepted() {
    assert_eq!(parse_number(&bytes("0052.50")), Some(52_500_000_000));
    assert_eq!(parse_number(&bytes("-0.005")), Some(-5_000_000));
}
