use idl_parser::ErrorKind;
use idl_parser::Type;
use idl_parser::parse_type;

#[test]
fn type_plain_name() {
    assert_eq!(
        parse_type(b"Time", 0),
        Ok((4, Type::Named(b"Time".to_vec(), vec![])))
    );
}

#[test]
fn type_generic_two_arguments() {
    assert_eq!(
        parse_type(b"Result<None, SomeError>", 0),
        Ok((
            23,
            Type::Named(
                b"Result".to_vec(),
                vec![
                    Type::Named(b"None".to_vec(), vec![]),
                    Type::Named(b"SomeError".to_vec(), vec![]),
                ]
            )
        ))
    );
}

#[test]
fn type_nested_three_levels() {
    assert_eq!(
        parse_type(b"A<B<C<D>>>", 0),
        Ok((
            10,
            Type::Named(
                b"A".to_vec(),
                vec![Type::Named(
                    b"B".to_vec(),
                    vec![Type::Named(
                        b"C".to_vec(),
                        vec![Type::Named(b"D".to_vec(), vec![])]
                    )]
                )]
            )
        ))
    );
}

#[test]
fn type_trailing_comma_same_tree() {
    let with_comma = parse_type(b"Result<T,>", 0).unwrap();
    let without = parse_type(b"Result<T>", 0).unwrap();
    assert_eq!(with_comma.1, without.1);
    assert_eq!(with_comma.0, 10);
    assert_eq!(without.0, 9);
}

#[test]
fn type_whitespace_variants_same_tree() {
    let spaced = parse_type(b"Result < T , U >", 0).unwrap();
    let tight = parse_type(b"Result<T,U>", 0).unwrap();
    assert_eq!(spaced.1, tight.1);
}

#[test]
fn type_unclosed_generics_is_fatal() {
    let err = parse_type(b"A<", 0).unwrap_err();
    assert!(err.fatal);
    assert_eq!(err.kind, ErrorKind::InvalidIdentifier);
    assert_eq!(err.offset, 2);
}

#[test]
fn type_bad_separator_is_fatal() {
    let err = parse_type(b"A<B C>", 0).unwrap_err();
    assert!(err.fatal);
    assert_eq!(err.kind, ErrorKind::ExpectedChar(b'>'));
    assert_eq!(err.offset, 4);
}
