use tasklist::text::{i32_to_string, parse_i32, str_eq, u64_to_string, IntError};

#[test]
fn decimal_of_unsigned() {
    assert_eq!(u64_to_string(0), "0");
    assert_eq!(u64_to_string(7), "7");
    assert_eq!(u64_to_string(1234), "1234");
    assert_eq!(u64_to_string(u64::MAX), u64::MAX.to_string());
}

#[test]
fn decimal_of_signed() {
    assert_eq!(i32_to_string(0), "0");
    assert_eq!(i32_to_string(-42), "-42");
    assert_eq!(i32_to_string(i32::MAX), "2147483647");
    assert_eq!(i32_to_string(i32::MIN), "-2147483648");
}

#[test]
fn parse_accepts_signed_digits() {
    assert_eq!(parse_i32("42"), Ok(42));
    assert_eq!(parse_i32("+7"), Ok(7));
    assert_eq!(parse_i32("-13"), Ok(-13));
    assert_eq!(parse_i32("007"), Ok(7));
    assert_eq!(parse_i32("2147483647"), Ok(i32::MAX));
    assert_eq!(parse_i32("-2147483648"), Ok(i32::MIN));
}

#[test]
fn parse_refusals_match_std() {
    for s in ["", "+", "-", " 7", "7 ", "12a", "a12", "1_000", "99999999999x", "-99999999999", "2147483648", "-2147483649", "++1", "0x10"] {
        let expected = s.parse::<i32>().map_err(|e| e.to_string());
        let got = parse_i32(s).map_err(|e| e.message());
        assert_eq!(got, expected, "input {:?}", s);
    }
}

#[test]
fn parse_error_kinds() {
    assert_eq!(parse_i32(""), Err(IntError::Empty));
    assert_eq!(parse_i32("-"), Err(IntError::InvalidDigit));
    assert_eq!(parse_i32("12a"), Err(IntError::InvalidDigit));
    assert_eq!(parse_i32("2147483648"), Err(IntError::PosOverflow));
    assert_eq!(parse_i32("-2147483649"), Err(IntError::NegOverflow));
    assert_eq!(IntError::Empty.message(), "cannot parse integer from empty string");
    assert_eq!(IntError::InvalidDigit.message(), "invalid digit found in string");
    assert_eq!(IntError::PosOverflow.message(), "number too large to fit in target type");
    assert_eq!(IntError::NegOverflow.message(), "number too small to fit in target type");
}

#[test]
fn decimal_reads_back() {
    for n in [0, 1, -1, 9, 10, -10, 123456, -987654, i32::MAX, i32::MIN] {
        assert_eq!(parse_i32(&i32_to_string(n)), Ok(n));
    }
}

#[test]
fn string_equality() {
    assert!(str_eq("done", "done"));
    assert!(!str_eq("done", "don"));
    assert!(!str_eq("done", "Done"));
    assert!(str_eq("", ""));
}
