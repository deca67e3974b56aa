use loony::error::HandlerError;
use loony::responder::{Html, Redirect, Responder, Text};
use loony::response::{HttpResponse, HttpVersion, IntoStatusCode, InvalidStatusCode, StatusCode};
use loony::server::{dispatch, not_found_text, Dispatch, ServerConfig};
use loony::router::AllRouteServices;
use loony::text::decimal_string;

#[test]
fn status_codes_round_trip() {
    assert_eq!(StatusCode::from_u16(404), Ok(StatusCode::NotFound));
    assert_eq!(StatusCode::from_u16(200), Ok(StatusCode::OK));
    assert_eq!(StatusCode::from_u16(511), Ok(StatusCode::NetworkAuthenticationRequired));
    assert_eq!(StatusCode::from_u16(299), Err(InvalidStatusCode(299)));
    assert_eq!(StatusCode::from_u16(0), Err(InvalidStatusCode(0)));
    assert_eq!(StatusCode::ImATeapot.as_u16(), 418);
    assert_eq!(StatusCode::ImATeapot.reason_phrase(), "I'm a teapot");
    assert_eq!(StatusCode::not_found().to_string(), "404 Not Found");
    assert_eq!(InvalidStatusCode(7).message(), "Invalid status code: 7");
}

#[test]
fn status_classes() {
    assert!(StatusCode::Continue.is_informational());
    assert!(StatusCode::created().is_success());
    assert!(StatusCode::found().is_redirection());
    assert!(StatusCode::forbidden().is_client_error());
    assert!(StatusCode::bad_gateway().is_server_error());
    assert!(StatusCode::unauthorized().is_error());
    assert!(!StatusCode::ok().is_error());
    assert_eq!(StatusCode::permanent_redirect().as_u16(), 308);
}

#[test]
fn into_status_code() {
    assert_eq!(404u16.into_status_code(), StatusCode::NotFound);
    assert_eq!(999u16.into_status_code(), StatusCode::InternalServerError);
    assert_eq!(StatusCode::Gone.into_status_code(), StatusCode::Gone);
}

#[test]
fn build_text_response() {
    let r = HttpResponse::new().body("hi").build();
    assert_eq!(r, "HTTP/1.1 200 OK\r\nContent-Length: 2\r\n\r\nhi");
}

#[test]
fn content_length_counts_bytes() {
    let r = HttpResponse::with_body("héllo").build();
    assert_eq!(r, "HTTP/1.1 200 OK\r\nContent-Length: 6\r\n\r\nhéllo");
}

#[test]
fn build_without_body_or_headers() {
    assert_eq!(HttpResponse::new().build(), "HTTP/1.1 200 OK\r\n\r\n");
    assert_eq!(
        HttpResponse::no_content().version(HttpVersion::Http1_0).build(),
        "HTTP/1.0 204 No Content\r\nContent-Length: 0\r\n\r\n"
    );
}

#[test]
fn header_set_replaces_in_place() {
    let r = HttpResponse::not_found()
        .header("A", "1")
        .with_header("B", "2")
        .header("A", "3")
        .build();
    assert_eq!(r, "HTTP/1.1 404 Not Found\r\nA: 3\r\nB: 2\r\n\r\n");
}

#[test]
fn html_and_text_builders() {
    let r = HttpResponse::ok().html("<p>").build();
    assert_eq!(
        r,
        "HTTP/1.1 200 OK\r\nContent-Type: text/html; charset=utf-8\r\nContent-Length: 3\r\n\r\n<p>"
    );
    let r = HttpResponse::created().text("x").build();
    assert_eq!(
        r,
        "HTTP/1.1 201 Created\r\nContent-Type: text/plain; charset=utf-8\r\nContent-Length: 1\r\n\r\nx"
    );
    let r = HttpResponse::bad_request().content_type("a/b").status(StatusCode::Conflict).build();
    assert_eq!(r, "HTTP/1.1 409 Conflict\r\nContent-Type: a/b\r\n\r\n");
    assert_eq!(HttpResponse::internal_server_error().build(), "HTTP/1.1 500 Internal Server Error\r\n\r\n");
    assert_eq!(HttpResponse::default().with_status(StatusCode::Accepted).build(), "HTTP/1.1 202 Accepted\r\n\r\n");
}

#[test]
fn responders() {
    assert_eq!("hi".to_string().respond().0, "HTTP/1.1 200 OK\r\nContent-Type: text/plain; charset=utf-8\r\nContent-Length: 2\r\n\r\nhi");
    assert_eq!("hi".respond().0, "HTTP/1.1 200 OK\r\nContent-Type: text/plain; charset=utf-8\r\nContent-Length: 2\r\n\r\nhi");
    let ok: Result<String, String> = Ok("fine".to_string());
    assert_eq!(ok.respond().0, "HTTP/1.1 200 OK\r\nContent-Type: text/plain; charset=utf-8\r\nContent-Length: 4\r\n\r\nfine");
    let err: Result<String, String> = Err("boom".to_string());
    assert_eq!(err.respond().0, "HTTP/1.1 500 Internal Server Error\r\nContent-Type: text/plain; charset=utf-8\r\nContent-Length: 4\r\n\r\nboom");
    assert_eq!(().respond().0, "HTTP/1.1 200 OK\r\n\r\n");
    assert_eq!(
        (StatusCode::Created, "ok".to_string()).respond().0,
        "HTTP/1.1 201 Created\r\nContent-Length: 2\r\n\r\nok"
    );
    let headers = vec![("X-A".to_string(), "1".to_string()), ("Content-Length".to_string(), "9".to_string())];
    assert_eq!(
        (StatusCode::NotFound, headers, "body".to_string()).respond().0,
        "HTTP/1.1 404 Not Found\r\nContent-Length: 9\r\nX-A: 1\r\n\r\nbody"
    );
    assert_eq!(
        Redirect("/x".to_string()).respond().0,
        "HTTP/1.1 302 Found\r\nLocation: /x\r\n\r\nRedirecting to /x"
    );
    assert_eq!(
        Html("<p>".to_string()).respond().0,
        "HTTP/1.1 200 OK\r\nContent-Type: text/html; charset=utf-8\r\nContent-Length: 3\r\n\r\n<p>"
    );
    assert_eq!(
        Text("t".to_string()).respond().0,
        "HTTP/1.1 200 OK\r\nContent-Type: text/plain; charset=utf-8\r\nContent-Length: 1\r\n\r\nt"
    );
    let resp = HttpResponse::not_found();
    assert_eq!(resp.respond().0, "HTTP/1.1 404 Not Found\r\n\r\n");
}

#[test]
fn binary_responder_reads_bytes_lossily() {
    let bytes: Vec<u8> = vec![0x66, 0xff];
    assert_eq!(
        bytes.respond().0,
        "HTTP/1.1 200 OK\r\nContent-Type: application/octet-stream\r\nContent-Length: 4\r\n\r\nf\u{FFFD}"
    );
    let slice: &[u8] = b"ab";
    assert_eq!(
        slice.respond().0,
        "HTTP/1.1 200 OK\r\nContent-Type: application/octet-stream\r\nContent-Length: 2\r\n\r\nab"
    );
}

#[test]
fn decimal_numerals() {
    assert_eq!(decimal_string(0), "0");
    assert_eq!(decimal_string(7), "7");
    assert_eq!(decimal_string(1234567), "1234567");
    assert_eq!(decimal_string(usize::MAX), usize::MAX.to_string());
}

#[test]
fn dispatch_found_and_not_found() {
    let mut s: AllRouteServices<u32> = AllRouteServices::new();
    assert!(s.add_route("/user/:id", 7).is_ok());
    match dispatch(&s, "/user/5?x=1") {
        Dispatch::Call(svc, params) => {
            assert_eq!(*svc, 7);
            assert_eq!(params.get("id").unwrap(), "5");
        }
        Dispatch::Reply(_) => panic!("the route matches"),
    }
    match dispatch(&s, "/none") {
        Dispatch::Call(_, _) => panic!("no route matches"),
        Dispatch::Reply(text) => {
            assert_eq!(text, "HTTP/1.1 404 Not Found\r\nContent-Length: 9\r\n\r\nNot Found");
            assert_eq!(text, not_found_text());
        }
    }
}

#[test]
fn server_config_default() {
    let c = ServerConfig::default();
    assert_eq!(c.port, 3005);
    assert_eq!(c.max_connections, 1000);
    assert_eq!(c.read_timeout_secs, 30);
    assert_eq!(c.write_timeout_secs, 30);
}

#[test]
fn result_with_library_error_responds_500() {
    let err: Result<String, HandlerError> = Err(HandlerError::route_not_found("/x"));
    assert_eq!(
        err.respond().0,
        "HTTP/1.1 500 Internal Server Error\r\nContent-Type: text/plain; charset=utf-8\r\nContent-Length: 19\r\n\r\nRoute not found: /x"
    );
    let err: Result<String, InvalidStatusCode> = Err(InvalidStatusCode(9));
    assert!(err.respond().0.ends_with("\r\n\r\nInvalid status code: 9"));
}
