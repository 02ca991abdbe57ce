use teknify::decimal::{format_unsigned, parse_unsigned};

#[test]
fn parses_plain_digits() {
    assert_eq!(parse_unsigned("4"), Some(4));
    assert_eq!(parse_unsigned("0"), Some(0));
    assert_eq!(parse_unsigned("12345"), Some(12345));
}

#[test]
fn parses_a_leading_plus_sign() {
    assert_eq!(parse_unsigned("+4"), Some(4));
    assert_eq!(parse_unsigned("+0"), Some(0));
}

#[test]
fn parses_leading_zeros() {
    assert_eq!(parse_unsigned("007"), Some(7));
    assert_eq!(parse_unsigned("0000000000000000000000000000000000000001"), Some(1));
}

#[test]
fn refuses_text_without_digits() {
    assert_eq!(parse_unsigned(""), None);
    assert_eq!(parse_unsigned("+"), None);
    assert_eq!(parse_unsigned("-"), None);
    assert_eq!(parse_unsigned("abc"), None);
}

#[test]
fn refuses_signs_and_spaces_among_the_digits() {
    assert_eq!(parse_unsigned("-1"), None);
    assert_eq!(parse_unsigned("++1"), None);
    assert_eq!(parse_unsigned("1+"), None);
    assert_eq!(parse_unsigned(" 4"), None);
    assert_eq!(parse_unsigned("4 "), None);
    assert_eq!(parse_unsigned("4.0"), None);
    assert_eq!(parse_unsigned("1_000"), None);
    assert_eq!(parse_unsigned("0x10"), None);
}

#[test]
fn refuses_digits_outside_ascii() {
    assert_eq!(parse_unsigned("\u{0663}"), None);
    assert_eq!(parse_unsigned("\u{ff14}"), None);
    assert_eq!(parse_unsigned("4\u{e9}"), None);
}

#[test]
fn accepts_the_largest_value_and_refuses_the_next() {
    let largest = usize::MAX.to_string();
    assert_eq!(parse_unsigned(&largest), Some(usize::MAX));
    let mut beyond = largest.clone();
    beyond.push('0');
    assert_eq!(parse_unsigned(&beyond), None);
    assert_eq!(parse_unsigned("340282366920938463463374607431768211456"), None);
}

#[test]
fn refuses_the_successor_of_the_largest_value() {
    let successor = (usize::MAX as u128 + 1).to_string();
    assert_eq!(parse_unsigned(&successor), None);
}

#[test]
fn agrees_with_the_standard_parser() {
    let samples = [
        "", "+", "-", "0", "+0", "-0", "1", "+1", "-1", "09", "10", "99", "100", "4294967295",
        "4294967296", "18446744073709551615", "18446744073709551616", "1e3", "12a", "a12",
        " 12", "12 ", "+-1", "\u{0661}\u{0662}",
    ];
    for sample in samples {
        assert_eq!(parse_unsigned(sample), sample.parse::<usize>().ok(), "{:?}", sample);
    }
}

#[test]
fn formats_single_digits() {
    for (value, text) in [(0, "0"), (1, "1"), (5, "5"), (9, "9")] {
        assert_eq!(format_unsigned(value), text);
    }
}

#[test]
fn formats_several_digits() {
    assert_eq!(format_unsigned(10), "10");
    assert_eq!(format_unsigned(404), "404");
    assert_eq!(format_unsigned(1000), "1000");
    assert_eq!(format_unsigned(9876543210), "9876543210");
    assert_eq!(format_unsigned(usize::MAX), usize::MAX.to_string());
}

#[test]
fn parsing_undoes_formatting() {
    for value in [0, 1, 9, 10, 11, 99, 100, 101, 65535, 65536, usize::MAX - 1, usize::MAX] {
        assert_eq!(parse_unsigned(&format_unsigned(value)), Some(value));
    }
}
