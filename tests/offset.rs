use tailr::decimal::parse_i64;
use tailr::offset::{parse_num, ConfigError};
use tailr::TakeValue::{PlusZero, TakeNum};

#[test]
fn test_parse_num() {
    // All integers should be interpreted as negative numbers
    let res = parse_num("3");
    assert!(res.is_ok());
    assert_eq!(res.unwrap(), TakeNum(-3));
    // A leading "+" should result in a positive number
    let res = parse_num("+3");
    assert!(res.is_ok());
    assert_eq!(res.unwrap(), TakeNum(3));
    // An explicit "-" value should result in a negative number
    let res = parse_num("-3");
    assert!(res.is_ok());
    assert_eq!(res.unwrap(), TakeNum(-3));
    let res = parse_num("0");
    assert!(res.is_ok());
    assert_eq!(res.unwrap(), TakeNum(0));
    // Plus zero is special
    let res = parse_num("+0");
    assert!(res.is_ok());
    assert_eq!(res.unwrap(), PlusZero);
    // Test boundaries
    let res = parse_num(&i64::MAX.to_string());
    assert!(res.is_ok());
    assert_eq!(res.unwrap(), TakeNum(i64::MIN + 1));
    let res = parse_num(&(i64::MIN + 1).to_string());
    assert!(res.is_ok());
    assert_eq!(res.unwrap(), TakeNum(i64::MIN + 1));
    let res = parse_num(&format!("+{}", i64::MAX));
    assert!(res.is_ok());
    assert_eq!(res.unwrap(), TakeNum(i64::MAX));
    let res = parse_num(&i64::MIN.to_string());
    assert!(res.is_ok());
    assert_eq!(res.unwrap(), TakeNum(i64::MIN));
    // A floating-point value is invalid
    let res = parse_num("3.14");
    assert!(res.is_err());
    assert_eq!(res.unwrap_err().to_string(), "3.14");
    // Any noninteger string is invalid
    let res = parse_num("foo");
    assert!(res.is_err());
    assert_eq!(res.unwrap_err().to_string(), "foo");
}

#[test]
fn malformed_tokens_carry_the_token() {
    for token in ["", "+", "-", "+-3", "--3", "3.14", "foo", " 3", "3 ", "1e3", "١٢", "+0x1"] {
        assert_eq!(
            parse_num(token),
            Err(ConfigError::InvalidOffset(token.to_string())),
            "token {:?}",
            token
        );
    }
}

#[test]
fn plus_zero_differs_from_zero() {
    assert_eq!(parse_num("+0"), Ok(PlusZero));
    assert_eq!(parse_num("0"), Ok(TakeNum(0)));
    assert_eq!(parse_num("-0"), Ok(TakeNum(0)));
    assert_eq!(parse_num("+00"), Ok(TakeNum(0)));
    assert_eq!(parse_num("007"), Ok(TakeNum(-7)));
}

#[test]
fn out_of_range_tokens_are_refused() {
    assert!(parse_num("9223372036854775808").is_err());
    assert!(parse_num("+9223372036854775808").is_err());
    assert!(parse_num("-9223372036854775809").is_err());
    assert!(parse_num("99999999999999999999999").is_err());
}

#[test]
fn parse_i64_reads_signed_decimals() {
    assert_eq!(parse_i64("42"), Some(42));
    assert_eq!(parse_i64("+42"), Some(42));
    assert_eq!(parse_i64("-42"), Some(-42));
    assert_eq!(parse_i64("-9223372036854775808"), Some(i64::MIN));
    assert_eq!(parse_i64("9223372036854775807"), Some(i64::MAX));
    assert_eq!(parse_i64("9223372036854775808"), None);
    assert_eq!(parse_i64("-"), None);
    assert_eq!(parse_i64("4-2"), None);
    assert_eq!(parse_i64(""), None);
}

#[test]
fn conflicting_units_message() {
    assert_eq!(
        ConfigError::ConflictingUnits.to_string(),
        "the line count and the byte count cannot be used together"
    );
}
