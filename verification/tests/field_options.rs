use idl_parser::Ctx;
use idl_parser::ErrorKind;
use idl_parser::FieldOption;
use idl_parser::Value;
use idl_parser::parse_field_options;

#[test]
fn test_parse_field_options_0() {
    let contents = ["()", "( )", "(,)", "( ,)", "(, )"];
    for content in contents.iter() {
        assert_eq!(parse_field_options(content.as_bytes()), Ok((content.len(), vec![])));
    }
}

#[test]
fn test_parse_field_options_1() {
    let contents = ["(foo=42)", "(foo= 42)", "(foo=42 )", "( foo=42)", "(foo=42,)"];
    for content in contents.iter() {
        assert_eq!(
            parse_field_options(content.as_bytes()),
            Ok((
                content.len(),
                vec![FieldOption { name: b"foo".to_vec(), value: Value::Integer(42) }]
            ))
        );
    }
}

#[test]
fn test_parse_field_options_2() {
    let contents = [
        "(foo=42,bar=\"epic\")",
        "(foo= 42, bar= \"epic\")",
        "( foo=42,bar=\"epic\" )",
        "( foo= 42, bar= \"epic\" )",
        "( foo= 42, bar= \"epic\", )",
    ];
    for content in contents.iter() {
        assert_eq!(
            parse_field_options(content.as_bytes()),
            Ok((
                content.len(),
                vec![
                    FieldOption { name: b"foo".to_vec(), value: Value::Integer(42) },
                    FieldOption { name: b"bar".to_vec(), value: Value::String(b"epic".to_vec()) },
                ]
            ))
        );
    }
}

#[test]
fn options_commit_error() {
    // A missing value after `=` must fail fatally, in the option-list
    // context, with a position-pointing error - never as "expected `(`".
    let err = parse_field_options(b"(foo=)").unwrap_err();
    assert!(err.fatal);
    assert_eq!(err.context, Some(Ctx::Options));
    assert_eq!(err.kind, ErrorKind::ExpectedChar(b')'));
    assert_eq!(err.offset, 1);
    assert_eq!(err.line, 1);
    assert_eq!(err.column, 2);
}

#[test]
fn options_leading_whitespace() {
    assert_eq!(
        parse_field_options(b" \t (foo=42)"),
        Ok((11, vec![FieldOption { name: b"foo".to_vec(), value: Value::Integer(42) }]))
    );
}

#[test]
fn options_error_line_column() {
    let err = parse_field_options(b"(\nfoo)").unwrap_err();
    assert!(err.fatal);
    assert_eq!(err.context, Some(Ctx::Options));
    assert_eq!(err.kind, ErrorKind::ExpectedChar(b')'));
    assert_eq!(err.offset, 2);
    assert_eq!(err.line, 2);
    assert_eq!(err.column, 1);
}

#[test]
fn options_unterminated_string() {
    let err = parse_field_options(b"(foo=\"abc)").unwrap_err();
    assert!(err.fatal);
    assert_eq!(err.context, Some(Ctx::Options));
    assert_eq!(err.kind, ErrorKind::ExpectedChar(b'"'));
    assert_eq!(err.offset, 10);
}

#[test]
fn options_missing_paren() {
    let err = parse_field_options(b"foo").unwrap_err();
    assert!(!err.fatal);
    assert_eq!(err.context, Some(Ctx::Options));
    assert_eq!(err.kind, ErrorKind::ExpectedChar(b'('));
    assert_eq!(err.offset, 0);
}

#[test]
fn options_missing_equals() {
    let err = parse_field_options(b"(foo 42)").unwrap_err();
    assert!(err.fatal);
    assert_eq!(err.context, Some(Ctx::Options));
    assert_eq!(err.kind, ErrorKind::ExpectedChar(b')'));
    assert_eq!(err.offset, 1);
}

#[test]
fn options_unconsumed_remainder() {
    assert_eq!(
        parse_field_options(b"(a=1) tail"),
        Ok((5, vec![FieldOption { name: b"a".to_vec(), value: Value::Integer(1) }]))
    );
}
