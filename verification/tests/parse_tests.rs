use http_server::request::{parse_request_str, HTTPMethod, ParseError};

fn parse_ok(raw: &[u8]) -> http_server::request::HTTPRequest {
    parse_request_str(&raw.to_vec()).expect("request should parse")
}

#[test]
fn parse_simple_get() {
    let req = parse_ok(b"GET / HTTP/1.1\r\nHost: localhost\r\n\r\n");
    assert_eq!(req.method, HTTPMethod::GET);
    assert_eq!(req.path, b"/".to_vec());
    assert!(req.body.is_empty());
}

#[test]
fn parse_post() {
    let req = parse_ok(b"POST /files/a.txt HTTP/1.1\r\nHost: x\r\n\r\n");
    assert_eq!(req.method, HTTPMethod::POST);
    assert_eq!(req.path, b"/files/a.txt".to_vec());
}

#[test]
fn parse_header_line() {
    let req = parse_ok(b"GET /user-agent HTTP/1.1\r\nHost: x\r\nUser-Agent: test-agent\r\n\r\n");
    let ua = req.header(&b"User-Agent".to_vec());
    assert_eq!(ua, Some(b"test-agent".to_vec()));
}

#[test]
fn parse_missing_header_is_none() {
    let req = parse_ok(b"GET /user-agent HTTP/1.1\r\nHost: x\r\n\r\n");
    assert_eq!(req.header(&b"User-Agent".to_vec()), None);
}

#[test]
fn parse_duplicate_header_last_wins() {
    let req = parse_ok(b"GET / HTTP/1.1\r\nHost: x\r\nX-K: one\r\nX-K: two\r\n\r\n");
    assert_eq!(req.header(&b"X-K".to_vec()), Some(b"two".to_vec()));
}

#[test]
fn parse_malformed_header_line_is_skipped() {
    let req = parse_ok(b"GET / HTTP/1.1\r\nHost: x\r\nnocolonhere\r\nX-K: v\r\n\r\n");
    assert_eq!(req.header(&b"nocolonhere".to_vec()), None);
    assert_eq!(req.header(&b"X-K".to_vec()), Some(b"v".to_vec()));
}

#[test]
fn parse_body_after_blank_line() {
    let req = parse_ok(b"POST /files/a HTTP/1.1\r\nHost: x\r\nK: w\r\n\r\nhello");
    assert_eq!(req.body, b"hello".to_vec());
}

#[test]
fn parse_body_lines_concatenated() {
    let req = parse_ok(b"POST /files/a HTTP/1.1\r\nHost: x\r\nK: w\r\n\r\nab\r\ncd");
    assert_eq!(req.body, b"abcd".to_vec());
}

#[test]
fn parse_body_nul_padding_stripped() {
    let req = parse_ok(b"POST /files/a HTTP/1.1\r\nHost: x\r\nK: w\r\n\r\nhello\0\0\0");
    assert_eq!(req.body, b"hello".to_vec());
}

#[test]
fn parse_too_few_lines_is_malformed() {
    let r = parse_request_str(&b"GET / HTTP/1.1".to_vec());
    assert_eq!(r.err(), Some(ParseError::Malformed));
}

#[test]
fn parse_bad_start_line_is_malformed() {
    let r = parse_request_str(&b"GET /\r\nHost: x\r\n\r\n".to_vec());
    assert_eq!(r.err(), Some(ParseError::Malformed));
}

#[test]
fn parse_four_token_start_line_is_malformed() {
    let r = parse_request_str(&b"GET / HTTP/1.1 extra\r\n\r\n".to_vec());
    assert_eq!(r.err(), Some(ParseError::Malformed));
}

#[test]
fn parse_unknown_method() {
    let r = parse_request_str(&b"PUT / HTTP/1.1\r\nHost: x\r\n\r\n".to_vec());
    assert_eq!(r.err(), Some(ParseError::UnknownMethod));
}

#[test]
fn method_from_token() {
    assert_eq!(HTTPMethod::from_token(&b"GET".to_vec()), Ok(HTTPMethod::GET));
    assert_eq!(HTTPMethod::from_token(&b"POST".to_vec()), Ok(HTTPMethod::POST));
    assert_eq!(HTTPMethod::from_token(&b"get".to_vec()), Err(()));
    assert_eq!(HTTPMethod::from_token(&b"GETX".to_vec()), Err(()));
}
