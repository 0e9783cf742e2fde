use idl_parser::ErrorKind;
use idl_parser::Method;
use idl_parser::Type;
use idl_parser::parse_method;

#[test]
fn test_parse_method_0() {
    let contents = [
        // normal whitespace
        "ping()", // whitespace variants
        "ping ()", "ping( )",
    ];
    for content in contents.iter() {
        assert_eq!(
            parse_method(content.as_bytes()),
            Ok((
                content.len(),
                Method { name: b"ping".to_vec(), input: None, output: None }
            ))
        );
    }
}

#[test]
fn test_parse_method_1() {
    let contents = [
        // normal whitespace
        "notify(Notification)",
        // whitespace variants
        "notify (Notification)",
        "notify( Notification)",
        "notify(Notification )",
    ];
    for content in contents.iter() {
        assert_eq!(
            parse_method(content.as_bytes()),
            Ok((
                content.len(),
                Method {
                    name: b"notify".to_vec(),
                    input: Some(Type::Named(b"Notification".to_vec(), vec![])),
                    output: None,
                }
            ))
        );
    }
}

#[test]
fn test_parse_method_2() {
    let contents = [
        // normal whitespace
        "get_time() -> Time",
        // whitespace variants
        "get_time()->Time",
        "get_time() ->Time",
        "get_time()-> Time",
    ];
    for content in contents.iter() {
        assert_eq!(
            parse_method(content.as_bytes()),
            Ok((
                content.len(),
                Method {
                    name: b"get_time".to_vec(),
                    input: None,
                    output: Some(Type::Named(b"Time".to_vec(), vec![])),
                }
            ))
        );
    }
}

#[test]
fn test_parse_method_3() {
    let contents = [
        // normal whitespace
        "no_response() -> Result<None, SomeError>",
        // whitespace variants
        "no_response() ->Result<None,SomeError>",
        "no_response()-> Result<None,SomeError>",
        "no_response()->Result <None,SomeError>",
        "no_response()->Result< None,SomeError>",
        "no_response()->Result<None ,SomeError>",
        "no_response()->Result<None, SomeError>",
        "no_response()->Result<None,SomeError >",
    ];
    for content in contents.iter() {
        assert_eq!(
            parse_method(content.as_bytes()),
            Ok((
                content.len(),
                Method {
                    name: b"no_response".to_vec(),
                    input: None,
                    output: Some(Type::Named(
                        b"Result".to_vec(),
                        vec![
                            Type::Named(b"None".to_vec(), vec![]),
                            Type::Named(b"SomeError".to_vec(), vec![]),
                        ],
                    )),
                }
            ))
        );
    }
}

#[test]
fn test_parse_method_4() {
    let contents = [
        // normal whitespace
        "hello(HelloRequest) -> Result<HelloResponse, HelloError>",
        // whitespace variants
        "hello(HelloRequest) ->Result<HelloResponse,HelloError>",
        "hello(HelloRequest)-> Result<HelloResponse,HelloError>",
        "hello(HelloRequest)->Result <HelloResponse,HelloError>",
        "hello(HelloRequest)->Result< HelloResponse,HelloError>",
        "hello(HelloRequest)->Result<HelloResponse ,HelloError>",
        "hello(HelloRequest)->Result<HelloResponse, HelloError>",
        "hello(HelloRequest)->Result<HelloResponse,HelloError >",
    ];
    for content in contents.iter() {
        assert_eq!(
            parse_method(content.as_bytes()),
            Ok((
                content.len(),
                Method {
                    name: b"hello".to_vec(),
                    input: Some(Type::Named(b"HelloRequest".to_vec(), vec![])),
                    output: Some(Type::Named(
                        b"Result".to_vec(),
                        vec![
                            Type::Named(b"HelloResponse".to_vec(), vec![]),
                            Type::Named(b"HelloError".to_vec(), vec![]),
                        ],
                    )),
                }
            ))
        );
    }
}

#[test]
fn method_whitespace_variants_identical() {
    // Idempotence of whitespace variants: both spellings must yield
    // byte-identical abstract syntax trees.
    let a = parse_method(b"hello(HelloRequest) -> Result<HelloResponse, HelloError>").unwrap();
    let b = parse_method(b"hello(HelloRequest)->Result< HelloResponse,HelloError>").unwrap();
    assert_eq!(a.1, b.1);
}

#[test]
fn method_unconsumed_remainder() {
    assert_eq!(
        parse_method(b"ping() extra"),
        Ok((6, Method { name: b"ping".to_vec(), input: None, output: None }))
    );
}

#[test]
fn method_missing_open_paren() {
    let err = parse_method(b"ping").unwrap_err();
    assert!(!err.fatal);
    assert_eq!(err.kind, ErrorKind::ExpectedChar(b'('));
    assert_eq!(err.offset, 0);
}

#[test]
fn method_missing_close_paren() {
    let err = parse_method(b"foo(Bar").unwrap_err();
    assert!(err.fatal);
    assert_eq!(err.kind, ErrorKind::ExpectedChar(b')'));
    assert_eq!(err.offset, 0);
}

#[test]
fn method_malformed_output_is_fatal() {
    let err = parse_method(b"foo() -> 1").unwrap_err();
    assert!(err.fatal);
    assert_eq!(err.kind, ErrorKind::InvalidIdentifier);
    assert_eq!(err.offset, 9);
}

#[test]
fn method_empty_input() {
    let err = parse_method(b"").unwrap_err();
    assert!(!err.fatal);
    assert_eq!(err.kind, ErrorKind::InvalidIdentifier);
    assert_eq!(err.offset, 0);
}
