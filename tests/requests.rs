use loony::error::{ConnectionError, HandlerError, ParseError, ServerError, ServiceError};
use loony::pattern::{build_routes, match_path, template_to_regex};
use loony::request::{parse_uri, HttpRequest};
use loony::wire::{find_headers_end, parse_content_length, read_step, ReadStep};

#[test]
fn parse_uri_splits_query() {
    let (p, q) = parse_uri("/p?a=1&b&");
    assert_eq!(p, "/p");
    assert_eq!(q, vec!["a=1".to_string(), "b".to_string(), String::new()]);
    let (p, q) = parse_uri("/p");
    assert_eq!(p, "/p");
    assert!(q.is_empty());
    let (p, q) = parse_uri("/p?x?y");
    assert_eq!(p, "/p");
    assert_eq!(q, vec!["x".to_string()]);
}

#[test]
fn parse_complete_request() {
    let buf = b"GET /a/b?x=1&y=2 HTTP/1.1\r\nHost: h\r\nX: caf\xc3\xa9\r\n\r\nBODY";
    let mut req = HttpRequest::new();
    let n = req.parse(buf).unwrap();
    assert_eq!(n, buf.len() - 4);
    assert_eq!(req.method.as_deref(), Some("GET"));
    assert_eq!(req.uri.as_deref(), Some("/a/b?x=1&y=2"));
    assert_eq!(req.version, Some(1));
    assert_eq!(req.params, vec!["x=1".to_string(), "y=2".to_string()]);
    assert_eq!(
        req.headers,
        vec![("Host".to_string(), "h".to_string()), ("X".to_string(), "café".to_string())]
    );
}

#[test]
fn parse_partial_and_invalid_request() {
    let mut req = HttpRequest::default();
    assert_eq!(req.parse(b"GET / HTTP/1.1\r\nHost"), Err("Incomplete HTTP request"));
    assert!(req.method.is_none());
    assert_eq!(req.parse(b"G\x01T / HTTP/1.1\r\n\r\n"), Err("Failed to parse HTTP request"));
    assert!(req.uri.is_none());
}

#[test]
fn headers_end() {
    assert_eq!(find_headers_end(b"ab\r\n\r\ncd\r\n\r\n"), Some(6));
    assert_eq!(find_headers_end(b"\r\n\r\n"), Some(4));
    assert_eq!(find_headers_end(b"abc"), None);
    assert_eq!(find_headers_end(b"a\r\n\rb\n"), None);
}

#[test]
fn content_length_header() {
    assert_eq!(parse_content_length(b"Host: x\r\nCONTENT-LENGTH:  42 \r\n\r\n"), Some(42));
    assert_eq!(parse_content_length(b"content-length:7"), Some(7));
    assert_eq!(parse_content_length(b"Content-Length: abc\r\nContent-Length: 5\r\n"), None);
    assert_eq!(parse_content_length(b"Host: x\r\n\r\n"), None);
    assert_eq!(parse_content_length(b"Content-Length: 5\xff"), None);
    assert_eq!(parse_content_length(b"Content-Length: +12:9"), Some(12));
    assert_eq!(parse_content_length("Content-Length:\u{3000}8\u{a0}".as_bytes()), Some(8));
}

#[test]
fn regex_of_templates() {
    let (re, names) = template_to_regex("/user/get/:user_id/:user_name");
    assert_eq!(re, "^/user/get/([^/]+)/([^/]+)$");
    assert_eq!(names, vec!["user_id".to_string(), "user_name".to_string()]);
    let (re, names) = template_to_regex("/");
    assert_eq!(re, "^/$");
    assert!(names.is_empty());
    let (re, _) = template_to_regex("/a.b/");
    assert_eq!(re, "^/a\\.b$");
    let (re, _) = template_to_regex("/a-b~c/d%e");
    assert_eq!(re, "^/a\\-b\\~c/d%e$");
    let (re, names) = template_to_regex("/x/::id");
    assert_eq!(re, "^/x/([^/]+)$");
    assert_eq!(names, vec!["id".to_string()]);
}

#[test]
fn regex_routes_match() {
    let templates: Vec<String> = ["/", "/user/all", "/user/get/:user_id", "/user/get/:user_id/:user_name"]
        .iter()
        .map(|s| s.to_string())
        .collect();
    let routes = build_routes(&templates).unwrap();
    let (t, p) = match_path(&routes, "/").unwrap();
    assert_eq!(t, "/");
    assert!(p.is_empty());
    let (t, p) = match_path(&routes, "/user/get/42").unwrap();
    assert_eq!(t, "/user/get/:user_id");
    assert_eq!(p.get("user_id").unwrap(), "42");
    let (t, p) = match_path(&routes, "/user/get/42/john-doe").unwrap();
    assert_eq!(t, "/user/get/:user_id/:user_name");
    assert_eq!(p.get("user_name").unwrap(), "john-doe");
    assert!(match_path(&routes, "/user/get").is_none());
    assert!(match_path(&routes, "/user/get/42/extra/segment").is_none());
}

#[test]
fn error_messages() {
    assert_eq!(
        ParseError::buffer_overflow(10, 4).message(),
        "Buffer overflow: tried to read 10 bytes into 4 byte buffer"
    );
    assert_eq!(ParseError::malformed_headers("bad").message(), "Malformed headers: bad");
    assert_eq!(
        ServerError::from(HandlerError::route_not_found("/x")).message(),
        "Handler error: Route not found: /x"
    );
    assert_eq!(ServerError::timeout("read").message(), "Timeout error: read took too long");
    assert_eq!(ServerError::not_found("db").message(), "Resource not found: db");
    assert_eq!(
        ServerError::service_init_error("no".to_string()).message(),
        "Service initialization failed: no"
    );
    assert_eq!(ServerError::from("cfg".to_string()).message(), "Configuration error: cfg");
    assert_eq!(
        ServerError::from(ConnectionError::Timeout).message(),
        "Connection error: Connection timeout"
    );
    assert_eq!(
        HandlerError::internal_error("db down".to_string()).message(),
        "Internal server error: db down"
    );
    assert_eq!(HandlerError::PayloadTooLarge { size: 12 }.message(), "Payload too large: 12 bytes");
    assert_eq!(
        ParseError::ContentLengthMismatch { expected: 3, actual: 2 }.message(),
        "Content length mismatch: expected 3, got 2"
    );
    assert_eq!(ServiceError::InitializationTimeout.message(), "Service initialization timeout");
}

#[test]
fn read_steps() {
    assert_eq!(read_step(b"GET / HTTP/1.1\r\nHost: x\r\n"), ReadStep::More);
    assert_eq!(read_step(b"GET / HTTP/1.1\r\n\r\n"), ReadStep::Done);
    assert_eq!(read_step(b"POST / HTTP/1.1\r\nContent-Length: 5\r\n\r\nab"), ReadStep::Body(3));
    assert_eq!(read_step(b"POST / HTTP/1.1\r\nContent-Length: 2\r\n\r\nabcd"), ReadStep::Done);
    assert_eq!(read_step(b"POST / HTTP/1.1\r\nContent-Length: 0\r\n\r\n"), ReadStep::Done);
    // a length in the body does not count
    assert_eq!(read_step(b"GET / HTTP/1.1\r\n\r\nContent-Length: 9\r\n"), ReadStep::Done);
}
