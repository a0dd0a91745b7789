use http_server::request::parse_request_str;
use http_server::response::{HTTPContentType, HTTPResponse, HTTPResponseStatusCode};
use http_server::router::{
    file_read_response, file_write_response, get_context, handle_request, set_context,
    ExecutionContext, FileReadOutcome, HandlerAction, RequestHandler,
};

fn dispatch(raw: &[u8], directory: Option<&[u8]>) -> HandlerAction {
    let req = parse_request_str(&raw.to_vec()).expect("request should parse");
    let handlers = http_server::router::standard_handlers();
    let context = ExecutionContext { directory: directory.map(|d| d.to_vec()) };
    handle_request(&req, &handlers, &context)
}

fn expect_response(action: HandlerAction) -> HTTPResponse {
    match action {
        HandlerAction::Respond(resp) => resp,
        _ => panic!("expected an immediate response"),
    }
}

#[test]
fn echo_rejoins_segments_after_the_third() {
    let resp = expect_response(dispatch(b"GET /echo/foo/bar HTTP/1.1\r\nHost: x\r\n\r\n", None));
    assert_eq!(resp.status_code, HTTPResponseStatusCode::Okay);
    let payload = resp.payload.expect("echo carries a payload");
    assert_eq!(payload.content_type, HTTPContentType::PlainText);
    assert_eq!(payload.payload, b"foo/bar".to_vec());
}

#[test]
fn echo_single_segment() {
    let resp = expect_response(dispatch(b"GET /echo/abc HTTP/1.1\r\nHost: x\r\n\r\n", None));
    let payload = resp.payload.expect("echo carries a payload");
    assert_eq!(payload.payload, b"abc".to_vec());
}

#[test]
fn echo_bare_path_gives_empty_payload() {
    let resp = expect_response(dispatch(b"GET /echo HTTP/1.1\r\nHost: x\r\n\r\n", None));
    let payload = resp.payload.expect("echo carries a payload");
    assert_eq!(payload.payload, b"".to_vec());
}

#[test]
fn echo_precedes_the_catch_all_root() {
    // The echo route is registered before the root route, so /echo/x never
    // falls through to the root handler's bare 200.
    let resp = expect_response(dispatch(b"GET /echo/x HTTP/1.1\r\nHost: x\r\n\r\n", None));
    assert_eq!(resp.status_code, HTTPResponseStatusCode::Okay);
    let payload = resp.payload.expect("the echo handler answered, not root");
    assert_eq!(payload.payload, b"x".to_vec());
}

#[test]
fn root_path_gets_bare_ok() {
    let resp = expect_response(dispatch(b"GET / HTTP/1.1\r\nHost: x\r\n\r\n", None));
    assert_eq!(resp.status_code, HTTPResponseStatusCode::Okay);
    assert!(resp.payload.is_none());
}

#[test]
fn unknown_path_gets_bare_not_found() {
    let resp = expect_response(dispatch(b"GET /nope HTTP/1.1\r\nHost: x\r\n\r\n", None));
    assert_eq!(resp.status_code, HTTPResponseStatusCode::NotFound);
    assert!(resp.payload.is_none());
    // On the wire: status line, blank line, and nothing else.
    assert_eq!(resp.serialize(), b"HTTP/1.1 404 Not Found\r\n\r\n".to_vec());
}

#[test]
fn user_agent_reflects_the_header() {
    let resp = expect_response(dispatch(
        b"GET /user-agent HTTP/1.1\r\nHost: x\r\nUser-Agent: test-agent\r\n\r\n",
        None,
    ));
    assert_eq!(resp.status_code, HTTPResponseStatusCode::Okay);
    let payload = resp.payload.expect("user-agent carries a payload");
    assert_eq!(payload.content_type, HTTPContentType::PlainText);
    assert_eq!(payload.payload, b"test-agent".to_vec());
}

#[test]
fn user_agent_missing_header_is_bad_request() {
    let resp = expect_response(dispatch(b"GET /user-agent HTTP/1.1\r\nHost: x\r\n\r\n", None));
    assert_eq!(resp.status_code, HTTPResponseStatusCode::BadRequest);
    assert!(resp.payload.is_none());
}

#[test]
fn get_file_asks_for_the_composed_path() {
    let action = dispatch(b"GET /files/foo.txt HTTP/1.1\r\nHost: x\r\n\r\n", Some(b"/tmp/"));
    match action {
        HandlerAction::ReadFile { path } => assert_eq!(path, b"/tmp/foo.txt".to_vec()),
        _ => panic!("expected a file read"),
    }
}

#[test]
fn missing_file_is_bare_not_found() {
    let resp = file_read_response(FileReadOutcome::Missing);
    assert_eq!(resp.status_code, HTTPResponseStatusCode::NotFound);
    assert!(resp.payload.is_none());
}

#[test]
fn failed_read_is_internal_error() {
    let resp = file_read_response(FileReadOutcome::Failed);
    assert_eq!(resp.status_code, HTTPResponseStatusCode::InternalServerError);
    assert!(resp.payload.is_none());
}

#[test]
fn post_file_writes_the_body() {
    let action = dispatch(
        b"POST /files/new.txt HTTP/1.1\r\nHost: x\r\nContent-Length: 5\r\n\r\nhello",
        Some(b"/tmp/"),
    );
    match action {
        HandlerAction::WriteFile { path, contents } => {
            assert_eq!(path, b"/tmp/new.txt".to_vec());
            assert_eq!(contents, b"hello".to_vec());
        },
        _ => panic!("expected a file write"),
    }
}

#[test]
fn files_round_trip() {
    // A POST of body B followed by a GET of the same name addresses the same
    // file, and serving back the stored bytes answers exactly B.
    let post = dispatch(
        b"POST /files/rt.txt HTTP/1.1\r\nHost: x\r\n\r\npayload-bytes",
        Some(b"/srv/"),
    );
    let (written_path, written) = match post {
        HandlerAction::WriteFile { path, contents } => (path, contents),
        _ => panic!("expected a file write"),
    };
    let get = dispatch(b"GET /files/rt.txt HTTP/1.1\r\nHost: x\r\n\r\n", Some(b"/srv/"));
    let read_path = match get {
        HandlerAction::ReadFile { path } => path,
        _ => panic!("expected a file read"),
    };
    assert_eq!(written_path, read_path);
    let resp = file_read_response(FileReadOutcome::Found(written.clone()));
    assert_eq!(resp.status_code, HTTPResponseStatusCode::Okay);
    let payload = resp.payload.expect("found file carries a payload");
    assert_eq!(payload.content_type, HTTPContentType::ApplicationOctetStream);
    assert_eq!(payload.payload, written);
}

#[test]
fn files_path_without_a_name_is_bad_request() {
    let resp = expect_response(dispatch(b"GET /files HTTP/1.1\r\nHost: x\r\n\r\n", Some(b"/tmp/")));
    assert_eq!(resp.status_code, HTTPResponseStatusCode::BadRequest);
    assert!(resp.payload.is_none());
}

#[test]
fn files_without_a_directory_is_internal_error() {
    let resp = expect_response(dispatch(b"GET /files/foo HTTP/1.1\r\nHost: x\r\n\r\n", None));
    assert_eq!(resp.status_code, HTTPResponseStatusCode::InternalServerError);
    assert!(resp.payload.is_none());
}

#[test]
fn post_to_non_files_path_is_not_found() {
    let resp = expect_response(dispatch(b"POST /nope HTTP/1.1\r\nHost: x\r\n\r\n", None));
    assert_eq!(resp.status_code, HTTPResponseStatusCode::NotFound);
    assert!(resp.payload.is_none());
}

#[test]
fn file_write_outcomes() {
    let created = file_write_response(true);
    assert_eq!(created.status_code, HTTPResponseStatusCode::Created);
    assert!(created.payload.is_none());
    let failed = file_write_response(false);
    assert_eq!(failed.status_code, HTTPResponseStatusCode::InternalServerError);
    assert!(failed.payload.is_none());
}

#[test]
fn context_set_then_get() {
    let mut slot = ExecutionContext { directory: None };
    set_context(&mut slot, ExecutionContext { directory: Some(b"/srv/files/".to_vec()) });
    let seen = get_context(&slot);
    assert_eq!(seen.directory, Some(b"/srv/files/".to_vec()));
    set_context(&mut slot, ExecutionContext { directory: None });
    assert_eq!(get_context(&slot).directory, None);
}

#[test]
fn handler_predicates() {
    let req = parse_request_str(&b"GET /files/x HTTP/1.1\r\nHost: h\r\n\r\n".to_vec()).unwrap();
    assert!(RequestHandler::GetFile.matches(&req));
    assert!(!RequestHandler::PostFile.matches(&req));
    assert!(!RequestHandler::Root.matches(&req));
    assert!(!RequestHandler::Echo.matches(&req));
    assert!(!RequestHandler::UserAgent.matches(&req));
}
