use http_server::{Method, ParseError, Request, Value};

fn err_of(buf: &[u8]) -> ParseError {
    match Request::parse(buf) {
        Ok(_) => panic!("expected a parse error"),
        Err(e) => e,
    }
}

#[test]
fn parses_get_with_query() {
    let buf = b"GET /search?name=abc&sort=1 HTTP/1.1\r\nHost: localhost\r\n\r\n";
    let req = Request::parse(buf).unwrap();
    assert_eq!(*req.method(), Method::GET);
    assert_eq!(req.path(), "/search");
    let q = req.query_string().unwrap();
    assert_eq!(q.get("name"), Some(&Value::Single("abc".to_string())));
    assert_eq!(q.get("sort"), Some(&Value::Single("1".to_string())));
}

#[test]
fn parses_path_without_query() {
    let req = Request::parse(b"POST /upload HTTP/1.1\r\n").unwrap();
    assert_eq!(*req.method(), Method::POST);
    assert_eq!(req.path(), "/upload");
    assert!(req.query_string().is_none());
}

#[test]
fn fixed_buffer_with_trailing_zeros() {
    let mut buf = [0u8; 1024];
    let line = b"DELETE /item?id=7 HTTP/1.1\r\n";
    buf[..line.len()].copy_from_slice(line);
    let req = Request::parse(&buf).unwrap();
    assert_eq!(*req.method(), Method::DELETE);
    assert_eq!(req.path(), "/item");
    let q = req.query_string().unwrap();
    assert_eq!(q.get("id"), Some(&Value::Single("7".to_string())));
}

#[test]
fn all_methods_parse() {
    let names = ["GET", "POST", "DELETE", "PUT", "HEAD", "CONNECT", "OPTIONS", "TRACE", "PATCH"];
    let methods = [
        Method::GET,
        Method::POST,
        Method::DELETE,
        Method::PUT,
        Method::HEAD,
        Method::CONNECT,
        Method::OPTIONS,
        Method::TRACE,
        Method::PATCH,
    ];
    for (name, method) in names.iter().zip(methods.iter()) {
        let line = format!("{} / HTTP/1.1\r\n", name);
        let req = Request::parse(line.as_bytes()).unwrap();
        assert_eq!(req.method(), method);
    }
}

#[test]
fn old_protocol_is_rejected() {
    assert_eq!(err_of(b"GET / HTTP/1.0\r\n"), ParseError::InvalidProtocol);
}

#[test]
fn unknown_method_is_rejected() {
    assert_eq!(err_of(b"FETCH / HTTP/1.1\r\n"), ParseError::InvalidMethod);
}

#[test]
fn method_is_case_sensitive() {
    assert_eq!(err_of(b"get / HTTP/1.1\r\n"), ParseError::InvalidMethod);
}

#[test]
fn no_delimiters_is_invalid_request() {
    assert_eq!(err_of(b"GARBAGE"), ParseError::InvalidRequest);
    assert_eq!(err_of(b""), ParseError::InvalidRequest);
}

#[test]
fn missing_protocol_terminator_is_invalid_request() {
    assert_eq!(err_of(b"GET /index.html HTTP/1.1"), ParseError::InvalidRequest);
}

#[test]
fn invalid_utf8_is_invalid_encoding() {
    assert_eq!(err_of(&[b'G', b'E', b'T', b' ', 0xff, 0xfe, b' ']), ParseError::InvalidEncoding);
}

#[test]
fn protocol_checked_before_method() {
    assert_eq!(err_of(b"FETCH / HTTP/2\r\n"), ParseError::InvalidProtocol);
}

#[test]
fn parsing_twice_gives_equal_requests() {
    let buf = b"GET /a/b?x=1&x=2&y HTTP/1.1\r\n\r\n";
    let first = Request::parse(buf).unwrap();
    let second = Request::parse(buf).unwrap();
    assert_eq!(first.method(), second.method());
    assert_eq!(first.path(), second.path());
    let (q1, q2) = (first.query_string().unwrap(), second.query_string().unwrap());
    for key in ["x", "y", "z"] {
        assert_eq!(q1.get(key), q2.get(key));
    }
    assert_eq!(
        q1.get("x"),
        Some(&Value::Multiple(vec!["1".to_string(), "2".to_string()]))
    );
}

#[test]
fn question_mark_splits_at_first() {
    let req = Request::parse(b"GET /p?a=?b HTTP/1.1\r\n").unwrap();
    assert_eq!(req.path(), "/p");
    let q = req.query_string().unwrap();
    assert_eq!(q.get("a"), Some(&Value::Single("?b".to_string())));
}

#[test]
fn non_ascii_path_is_kept() {
    let req = Request::parse("GET /é?ü=1 HTTP/1.1\r\n".as_bytes()).unwrap();
    assert_eq!(req.path(), "/é");
    let q = req.query_string().unwrap();
    assert_eq!(q.get("ü"), Some(&Value::Single("1".to_string())));
}

#[test]
fn error_messages() {
    assert_eq!(ParseError::InvalidRequest.message(), "Invalid REquest");
    assert_eq!(ParseError::InvalidEncoding.message(), "Invalid Encoding");
    assert_eq!(ParseError::InvalidProtocol.message(), "Invalid Protocal");
    assert_eq!(ParseError::InvalidMethod.message(), "Invalid Method");
}
