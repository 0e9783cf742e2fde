use idl_parser::ErrorKind;
use idl_parser::Value;
use idl_parser::parse_identifier;
use idl_parser::parse_value;

#[test]
fn value_integer_simple() {
    assert_eq!(parse_value(b"42", 0), Ok((2, Value::Integer(42))));
}

#[test]
fn value_integer_negative() {
    assert_eq!(parse_value(b"-7", 0), Ok((2, Value::Integer(-7))));
}

#[test]
fn value_integer_extremes() {
    assert_eq!(
        parse_value(b"9223372036854775807", 0),
        Ok((19, Value::Integer(i64::MAX)))
    );
    assert_eq!(
        parse_value(b"-9223372036854775808", 0),
        Ok((20, Value::Integer(i64::MIN)))
    );
}

#[test]
fn value_integer_out_of_range() {
    let err = parse_value(b"9223372036854775808", 0).unwrap_err();
    assert_eq!(err.kind, ErrorKind::InvalidValue);
    assert!(!err.fatal);
    assert_eq!(err.offset, 0);
    let err = parse_value(b"99999999999999999999", 0).unwrap_err();
    assert_eq!(err.kind, ErrorKind::InvalidValue);
}

#[test]
fn value_integer_leading_zeros() {
    assert_eq!(parse_value(b"0042", 0), Ok((4, Value::Integer(42))));
    assert_eq!(parse_value(b"-0", 0), Ok((2, Value::Integer(0))));
}

#[test]
fn value_string_basic() {
    assert_eq!(
        parse_value(b"\"epic\"", 0),
        Ok((6, Value::String(b"epic".to_vec())))
    );
}

#[test]
fn value_string_empty() {
    assert_eq!(parse_value(b"\"\"", 0), Ok((2, Value::String(vec![]))));
}

#[test]
fn value_string_keeps_spaces() {
    assert_eq!(
        parse_value(b"\"a b\tc\"", 0),
        Ok((7, Value::String(b"a b\tc".to_vec())))
    );
}

#[test]
fn value_string_unterminated() {
    let err = parse_value(b"\"abc", 0).unwrap_err();
    assert!(err.fatal);
    assert_eq!(err.kind, ErrorKind::ExpectedChar(b'"'));
    assert_eq!(err.offset, 4);
}

#[test]
fn value_no_literal_matches() {
    let err = parse_value(b"x", 0).unwrap_err();
    assert!(!err.fatal);
    assert_eq!(err.kind, ErrorKind::InvalidValue);
    assert_eq!(err.offset, 0);
}

#[test]
fn identifier_basic() {
    assert_eq!(parse_identifier(b"_x1 rest", 0), Ok((3, b"_x1".to_vec())));
}

#[test]
fn identifier_rejects_digit_start() {
    let err = parse_identifier(b"1x", 0).unwrap_err();
    assert!(!err.fatal);
    assert_eq!(err.kind, ErrorKind::InvalidIdentifier);
    assert_eq!(err.offset, 0);
}
