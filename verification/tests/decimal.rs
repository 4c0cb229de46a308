use gui_logic::decimal::{format_int, format_nat, parse_i32, ParseError};

#[test]
fn parses_plain_digits() {
    assert_eq!(parse_i32("0"), Ok(0));
    assert_eq!(parse_i32("7"), Ok(7));
    assert_eq!(parse_i32("32"), Ok(32));
    assert_eq!(parse_i32("212"), Ok(212));
    assert_eq!(parse_i32("1000000"), Ok(1_000_000));
}

#[test]
fn parses_signs() {
    assert_eq!(parse_i32("-40"), Ok(-40));
    assert_eq!(parse_i32("+7"), Ok(7));
    assert_eq!(parse_i32("-0"), Ok(0));
    assert_eq!(parse_i32("+0"), Ok(0));
}

#[test]
fn parses_leading_zeros() {
    assert_eq!(parse_i32("007"), Ok(7));
    assert_eq!(parse_i32("-0012"), Ok(-12));
    assert_eq!(parse_i32("0000000000000000000001"), Ok(1));
}

#[test]
fn parses_the_ends_of_the_range() {
    assert_eq!(parse_i32("2147483647"), Ok(i32::MAX));
    assert_eq!(parse_i32("-2147483648"), Ok(i32::MIN));
    assert_eq!(parse_i32("+2147483647"), Ok(i32::MAX));
}

#[test]
fn empty_text_is_empty() {
    assert_eq!(parse_i32(""), Err(ParseError::Empty));
}

#[test]
fn lone_sign_is_an_invalid_digit() {
    assert_eq!(parse_i32("+"), Err(ParseError::InvalidDigit));
    assert_eq!(parse_i32("-"), Err(ParseError::InvalidDigit));
}

#[test]
fn stray_characters_are_invalid_digits() {
    assert_eq!(parse_i32("abc"), Err(ParseError::InvalidDigit));
    assert_eq!(parse_i32("12.5"), Err(ParseError::InvalidDigit));
    assert_eq!(parse_i32(" 1"), Err(ParseError::InvalidDigit));
    assert_eq!(parse_i32("1 "), Err(ParseError::InvalidDigit));
    assert_eq!(parse_i32("1e3"), Err(ParseError::InvalidDigit));
    assert_eq!(parse_i32("1_000"), Err(ParseError::InvalidDigit));
    assert_eq!(parse_i32("--1"), Err(ParseError::InvalidDigit));
    assert_eq!(parse_i32("+-1"), Err(ParseError::InvalidDigit));
    assert_eq!(parse_i32("1-"), Err(ParseError::InvalidDigit));
    assert_eq!(parse_i32("0x10"), Err(ParseError::InvalidDigit));
}

#[test]
fn digits_of_other_scripts_are_invalid_digits() {
    assert_eq!(parse_i32("\u{ff11}\u{ff12}"), Err(ParseError::InvalidDigit));
    assert_eq!(parse_i32("\u{0663}"), Err(ParseError::InvalidDigit));
    assert_eq!(parse_i32("1\u{00e9}"), Err(ParseError::InvalidDigit));
    assert_eq!(parse_i32("\u{2212}5"), Err(ParseError::InvalidDigit));
}

#[test]
fn too_large_is_a_positive_overflow() {
    assert_eq!(parse_i32("2147483648"), Err(ParseError::PosOverflow));
    assert_eq!(parse_i32("+2147483648"), Err(ParseError::PosOverflow));
    assert_eq!(parse_i32("99999999999"), Err(ParseError::PosOverflow));
    assert_eq!(
        parse_i32("100000000000000000000000000000000000000"),
        Err(ParseError::PosOverflow)
    );
}

#[test]
fn too_small_is_a_negative_overflow() {
    assert_eq!(parse_i32("-2147483649"), Err(ParseError::NegOverflow));
    assert_eq!(parse_i32("-99999999999"), Err(ParseError::NegOverflow));
    assert_eq!(
        parse_i32("-100000000000000000000000000000000000000"),
        Err(ParseError::NegOverflow)
    );
}

#[test]
fn the_first_obstacle_decides_the_error() {
    assert_eq!(parse_i32("99999999999x"), Err(ParseError::PosOverflow));
    assert_eq!(parse_i32("-99999999999x"), Err(ParseError::NegOverflow));
    assert_eq!(parse_i32("2147483647x"), Err(ParseError::InvalidDigit));
    assert_eq!(parse_i32("-2147483648x"), Err(ParseError::InvalidDigit));
    assert_eq!(parse_i32("2147483648x"), Err(ParseError::PosOverflow));
    assert_eq!(parse_i32("x99999999999"), Err(ParseError::InvalidDigit));
}

#[test]
fn parsing_agrees_with_the_standard_library() {
    let inputs = [
        "", "0", "-0", "+0", "1", "-1", "+1", "9", "10", "42", "-42", "007", "+", "-", "++1",
        "--1", "+-1", "-+1", "1+", "1-", " 1", "1 ", "\t1", "1\n", "abc", "12.5", "1e3", "0x1f",
        "1,000", "2147483646", "2147483647", "2147483648", "2147483649", "-2147483647",
        "-2147483648", "-2147483649", "21474836470", "-21474836480", "99999999999",
        "-99999999999", "99999999999x", "-99999999999x", "2147483647x", "2147483648x",
        "00000000002147483647", "00000000002147483648", "-00000000002147483648",
        "-00000000002147483649", "\u{ff11}", "1\u{00e9}", "\u{00e9}1", "NaN", "inf", "i32",
    ];
    for text in inputs {
        let expected = text.parse::<i32>();
        let actual = parse_i32(text);
        match (expected, actual) {
            (Ok(a), Ok(b)) => assert_eq!(a, b, "value of {:?}", text),
            (Err(a), Err(b)) => assert_eq!(a.to_string(), b.describe(), "error for {:?}", text),
            (a, b) => panic!("{:?}: expected {:?}, got {:?}", text, a, b),
        }
    }
}

#[test]
fn describes_each_error() {
    assert_eq!(ParseError::Empty.describe(), "cannot parse integer from empty string");
    assert_eq!(ParseError::InvalidDigit.describe(), "invalid digit found in string");
    assert_eq!(ParseError::PosOverflow.describe(), "number too large to fit in target type");
    assert_eq!(ParseError::NegOverflow.describe(), "number too small to fit in target type");
}

#[test]
fn formats_naturals() {
    assert_eq!(format_nat(0), "0");
    assert_eq!(format_nat(9), "9");
    assert_eq!(format_nat(10), "10");
    assert_eq!(format_nat(1234567890), "1234567890");
    assert_eq!(format_nat(u64::MAX), "18446744073709551615");
}

#[test]
fn formats_integers() {
    assert_eq!(format_int(0), "0");
    assert_eq!(format_int(5), "5");
    assert_eq!(format_int(-5), "-5");
    assert_eq!(format_int(100), "100");
    assert_eq!(format_int(-17), "-17");
    assert_eq!(format_int(3865470596), "3865470596");
    assert_eq!(format_int(i64::MAX), "9223372036854775807");
    assert_eq!(format_int(i64::MIN), "-9223372036854775808");
}

#[test]
fn formatting_agrees_with_the_standard_library() {
    for n in -2500i64..=2500 {
        assert_eq!(format_int(n), n.to_string());
    }
    for n in 0u64..=2500 {
        assert_eq!(format_nat(n), n.to_string());
    }
    let mut n: i64 = 1;
    while n < i64::MAX / 7 {
        assert_eq!(format_int(n), n.to_string());
        assert_eq!(format_int(-n), (-n).to_string());
        assert_eq!(format_nat(n as u64), n.to_string());
        n = n * 7 + 3;
    }
}

#[test]
fn written_text_reads_back() {
    let samples = [
        0, 1, -1, 9, 10, -10, 99, 100, 12345, -12345, 2147483646, i32::MAX, i32::MIN, -2147483647,
    ];
    for n in samples {
        assert_eq!(parse_i32(&format_int(n as i64)), Ok(n));
    }
    for n in -3000i32..=3000 {
        assert_eq!(parse_i32(&format_int(n as i64)), Ok(n));
    }
}

#[test]
fn written_text_out_of_range_does_not_read_back() {
    assert_eq!(parse_i32(&format_int(i32::MAX as i64 + 1)), Err(ParseError::PosOverflow));
    assert_eq!(parse_i32(&format_int(i32::MIN as i64 - 1)), Err(ParseError::NegOverflow));
}
