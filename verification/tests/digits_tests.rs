use tax_core::digits::{
    decimal_string, parse_i32, parse_u64, signed_decimal_string, thousands_string, ParseError,
};

#[test]
fn parse_u64_reads_digits() {
    assert_eq!(parse_u64("123"), Ok(123));
    assert_eq!(parse_u64("0"), Ok(0));
    assert_eq!(parse_u64("007"), Ok(7));
    assert_eq!(parse_u64("+5"), Ok(5));
    assert_eq!(parse_u64("18446744073709551615"), Ok(u64::MAX));
}

#[test]
fn parse_u64_errors() {
    assert_eq!(parse_u64(""), Err(ParseError::Empty));
    assert_eq!(parse_u64("+"), Err(ParseError::InvalidDigit));
    assert_eq!(parse_u64("-"), Err(ParseError::InvalidDigit));
    assert_eq!(parse_u64("-5"), Err(ParseError::InvalidDigit));
    assert_eq!(parse_u64("12a"), Err(ParseError::InvalidDigit));
    assert_eq!(parse_u64(" 12"), Err(ParseError::InvalidDigit));
    assert_eq!(parse_u64("1٢"), Err(ParseError::InvalidDigit));
    assert_eq!(parse_u64("18446744073709551616"), Err(ParseError::PosOverflow));
    assert_eq!(parse_u64("99999999999999999999a"), Err(ParseError::PosOverflow));
    assert_eq!(parse_u64("a99999999999999999999"), Err(ParseError::InvalidDigit));
}

#[test]
fn parse_u64_agrees_with_std() {
    for s in ["", "+", "-", "0", "42", "+42", "-42", "4x2", "18446744073709551615", "18446744073709551616", "99999999999999999999x"] {
        let ours = parse_u64(s);
        let std_result = s.parse::<u64>();
        match (ours, std_result) {
            (Ok(a), Ok(b)) => assert_eq!(a, b),
            (Err(e), Err(f)) => {
                let expected = match f.kind() {
                    std::num::IntErrorKind::Empty => ParseError::Empty,
                    std::num::IntErrorKind::PosOverflow => ParseError::PosOverflow,
                    _ => ParseError::InvalidDigit,
                };
                assert_eq!(e, expected, "input {:?}", s);
            }
            _ => panic!("disagreement on {:?}", s),
        }
    }
}

#[test]
fn parse_i32_reads_signed_numbers() {
    assert_eq!(parse_i32("42"), Some(42));
    assert_eq!(parse_i32("+7"), Some(7));
    assert_eq!(parse_i32("-13"), Some(-13));
    assert_eq!(parse_i32("-0"), Some(0));
    assert_eq!(parse_i32("2147483647"), Some(i32::MAX));
    assert_eq!(parse_i32("-2147483648"), Some(i32::MIN));
    assert_eq!(parse_i32("2147483648"), None);
    assert_eq!(parse_i32("-2147483649"), None);
    assert_eq!(parse_i32("99999999999999999999"), None);
    assert_eq!(parse_i32(""), None);
    assert_eq!(parse_i32("-"), None);
    assert_eq!(parse_i32("4 2"), None);
    assert_eq!(parse_i32("abc"), None);
}

#[test]
fn decimal_rendering() {
    assert_eq!(decimal_string(0), "0");
    assert_eq!(decimal_string(7), "7");
    assert_eq!(decimal_string(1234), "1234");
    assert_eq!(decimal_string(u64::MAX), u64::MAX.to_string());
    assert_eq!(signed_decimal_string(-42), "-42");
    assert_eq!(signed_decimal_string(i32::MIN), "-2147483648");
    assert_eq!(signed_decimal_string(i32::MAX), "2147483647");
    assert_eq!(signed_decimal_string(0), "0");
}

#[test]
fn thousands_grouping() {
    assert_eq!(thousands_string(0), "0");
    assert_eq!(thousands_string(999), "999");
    assert_eq!(thousands_string(1000), "1.000");
    assert_eq!(thousands_string(12345), "12.345");
    assert_eq!(thousands_string(123456), "123.456");
    assert_eq!(thousands_string(1234567), "1.234.567");
    assert_eq!(thousands_string(u64::MAX), "18.446.744.073.709.551.615");
}

#[test]
fn law_parse_reads_back_decimal() {
    for n in [0u64, 1, 9, 10, 12345, 1_000_000_007, u64::MAX] {
        assert_eq!(parse_u64(&decimal_string(n)), Ok(n));
    }
    for i in [0i32, 5, -5, 2024, i32::MIN, i32::MAX] {
        assert_eq!(parse_i32(&signed_decimal_string(i)), Some(i));
    }
}

#[test]
fn law_grouping_only_adds_dots() {
    for n in [0u64, 12, 999, 1000, 987654321, u64::MAX] {
        let grouped = thousands_string(n);
        let stripped: String = grouped.chars().filter(|c| *c != '.').collect();
        assert_eq!(stripped, decimal_string(n));
    }
}
