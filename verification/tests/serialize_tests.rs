use http_server::response::{
    dec_digits, HTTPContentType, HTTPResponse, HTTPResponsePayload, HTTPResponseStatusCode,
};

#[test]
fn serialize_ok_with_text_payload() {
    let resp = HTTPResponse {
        status_code: HTTPResponseStatusCode::Okay,
        payload: Some(HTTPResponsePayload {
            content_type: HTTPContentType::PlainText,
            payload: b"abc".to_vec(),
        }),
    };
    assert_eq!(
        resp.serialize(),
        b"HTTP/1.1 200 OK\r\nContent-Type: text/plain\r\nContent-Length: 3\r\n\r\nabc".to_vec()
    );
}

#[test]
fn serialize_octet_stream_payload() {
    let resp = HTTPResponse {
        status_code: HTTPResponseStatusCode::Okay,
        payload: Some(HTTPResponsePayload {
            content_type: HTTPContentType::ApplicationOctetStream,
            payload: b"data".to_vec(),
        }),
    };
    assert_eq!(
        resp.serialize(),
        b"HTTP/1.1 200 OK\r\nContent-Type: application/octet-stream\r\nContent-Length: 4\r\n\r\ndata"
            .to_vec()
    );
}

#[test]
fn serialize_not_found_bare() {
    let resp = HTTPResponse { status_code: HTTPResponseStatusCode::NotFound, payload: None };
    assert_eq!(resp.serialize(), b"HTTP/1.1 404 Not Found\r\n\r\n".to_vec());
}

#[test]
fn serialize_created_bare() {
    let resp = HTTPResponse { status_code: HTTPResponseStatusCode::Created, payload: None };
    assert_eq!(resp.serialize(), b"HTTP/1.1 201 Created\r\n\r\n".to_vec());
}

#[test]
fn serialize_bad_request_bare() {
    let resp = HTTPResponse { status_code: HTTPResponseStatusCode::BadRequest, payload: None };
    assert_eq!(resp.serialize(), b"HTTP/1.1 400 Bad Request\r\n\r\n".to_vec());
}

#[test]
fn serialize_internal_error_bare() {
    let resp = HTTPResponse {
        status_code: HTTPResponseStatusCode::InternalServerError,
        payload: None,
    };
    assert_eq!(resp.serialize(), b"HTTP/1.1 500 Internal Server Error\r\n\r\n".to_vec());
}

#[test]
fn content_length_counts_bytes_not_characters() {
    // "é" is one character but two bytes; the length field must say 2.
    let body: Vec<u8> = vec![0xC3, 0xA9];
    let resp = HTTPResponse {
        status_code: HTTPResponseStatusCode::Okay,
        payload: Some(HTTPResponsePayload {
            content_type: HTTPContentType::PlainText,
            payload: body,
        }),
    };
    let wire = resp.serialize();
    let expected: Vec<u8> = [
        b"HTTP/1.1 200 OK\r\nContent-Type: text/plain\r\nContent-Length: 2\r\n\r\n".as_slice(),
        &[0xC3, 0xA9],
    ]
    .concat();
    assert_eq!(wire, expected);
}

#[test]
fn empty_payload_has_length_zero() {
    let resp = HTTPResponse {
        status_code: HTTPResponseStatusCode::Okay,
        payload: Some(HTTPResponsePayload {
            content_type: HTTPContentType::PlainText,
            payload: Vec::new(),
        }),
    };
    assert_eq!(
        resp.serialize(),
        b"HTTP/1.1 200 OK\r\nContent-Type: text/plain\r\nContent-Length: 0\r\n\r\n".to_vec()
    );
}

#[test]
fn decimal_digits_spellings() {
    assert_eq!(dec_digits(0), b"0".to_vec());
    assert_eq!(dec_digits(7), b"7".to_vec());
    assert_eq!(dec_digits(10), b"10".to_vec());
    assert_eq!(dec_digits(2048), b"2048".to_vec());
    assert_eq!(dec_digits(100000), b"100000".to_vec());
}
