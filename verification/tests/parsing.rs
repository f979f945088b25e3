//! Parsing submitted text, and the error type's messages.

use cliclack::{is_option, CliError, CliFromStr};

#[test]
fn parse_string() {
    assert_eq!(String::try_parse("hello").unwrap(), "hello".to_string());
}

#[test]
fn parse_optional_string() {
    assert_eq!(Option::<String>::try_parse("").unwrap(), None);
    assert_eq!(
        Option::<String>::try_parse("hello").unwrap(),
        Some("hello".to_string())
    );
}

#[test]
fn parse_optional_integer() {
    assert_eq!(Option::<usize>::try_parse("").unwrap(), None);
    assert_eq!(Option::<usize>::try_parse("123").unwrap(), Some(123));
}

#[test]
fn test_is_option() {
    assert_eq!(is_option::<Option<i32>>(), true);
    assert_eq!(is_option::<i32>(), false);
}

#[test]
fn parse_unsigned_bounds() {
    assert_eq!(u8::try_parse("255").unwrap(), 255);
    assert!(matches!(u8::try_parse("256"), Err(CliError::Parse(m)) if m == "256"));
    assert_eq!(u64::try_parse("+42").unwrap(), 42);
    assert!(u32::try_parse("").is_err());
    assert!(u32::try_parse("12a").is_err());
    assert!(u32::try_parse("-1").is_err());
}

#[test]
fn parse_signed_bounds() {
    assert_eq!(i8::try_parse("-128").unwrap(), -128);
    assert!(i8::try_parse("-129").is_err());
    assert_eq!(i8::try_parse("127").unwrap(), 127);
    assert!(i8::try_parse("128").is_err());
    assert_eq!(i64::try_parse("-9223372036854775808").unwrap(), i64::MIN);
    assert_eq!(i32::try_parse("+7").unwrap(), 7);
    assert!(i32::try_parse("+").is_err());
    assert!(i32::try_parse("-").is_err());
}

#[test]
fn parse_bool_and_char() {
    assert_eq!(bool::try_parse("true").unwrap(), true);
    assert_eq!(bool::try_parse("false").unwrap(), false);
    assert!(bool::try_parse("TRUE").is_err());
    assert_eq!(char::try_parse("x").unwrap(), 'x');
    assert!(char::try_parse("xy").is_err());
    assert!(char::try_parse("").is_err());
}

#[test]
fn error_messages_name_their_kind() {
    assert_eq!(CliError::Io("boom".to_string()).message(), "i/o error: boom");
    assert_eq!(CliError::Parse("12a".to_string()).message(), "parse error: 12a");
    assert_eq!(
        CliError::Validate("too short".to_string()).message(),
        "validation error: too short"
    );
}
