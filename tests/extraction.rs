use std::cell::Cell;

use loony::extract::{parse_i32, path_param, state_and_param, state_and_segments, Data, ExtractError, FromPathSegments, Path};
use loony::handler::{call_handler, extract_failure};
use loony::params::Params;

#[derive(Clone, Debug, PartialEq)]
struct AppState {
    name: String,
}

#[test]
fn state_and_int_param_parse_error() {
    let mut params = Params::new();
    params.insert("id".to_string(), "abc".to_string());
    let state = Some(AppState { name: "loony".to_string() });
    let r = state_and_param::<AppState, i32>(state, &params, "id");
    assert!(matches!(r, Err(ExtractError::ParamParseError)));
}

#[test]
fn state_and_int_param_ok() {
    let mut params = Params::new();
    params.insert("id".to_string(), "42".to_string());
    let state = Some(AppState { name: "loony".to_string() });
    let (data, path) = state_and_param::<AppState, i32>(state, &params, "id").ok().unwrap();
    assert_eq!(data.0.name, "loony");
    assert_eq!(path.0, 42);
}

#[test]
fn missing_state_comes_first() {
    let params = Params::new();
    let r = state_and_param::<AppState, i32>(None, &params, "id");
    assert!(matches!(r, Err(ExtractError::MissingState)));
}

#[test]
fn missing_param() {
    let params = Params::new();
    let r = path_param::<i32>(&params, "id");
    assert!(matches!(r, Err(ExtractError::ParamMissing)));
    let state = Some(AppState { name: String::new() });
    let r = state_and_param::<AppState, String>(state, &params, "id");
    assert!(matches!(r, Err(ExtractError::ParamMissing)));
}

#[test]
fn string_param() {
    let mut params = Params::new();
    params.insert("name".to_string(), "john-doe".to_string());
    let p: Path<String> = path_param(&params, "name").ok().unwrap();
    assert_eq!(p.0, "john-doe");
}

#[test]
fn parse_i32_like_std() {
    for s in ["0", "42", "-7", "+5", "007", "2147483647", "-2147483648", "", "-", "+", "2147483648",
        "-2147483649", "12a", " 1", "1 ", "99999999999999999999", "--1", "٣"]
    {
        assert_eq!(parse_i32(s), s.parse::<i32>().ok(), "text {:?}", s);
    }
}

#[test]
fn segments_read() {
    let segs: Vec<String> = vec!["42".to_string(), "john".to_string(), "x".to_string()];
    assert_eq!(<i32 as FromPathSegments>::from_segments(&segs), Some(42));
    assert_eq!(<(i32, String) as FromPathSegments>::from_segments(&segs), Some((42, "john".to_string())));
    assert_eq!(<(i32, i32) as FromPathSegments>::from_segments(&segs), None);
    assert_eq!(
        <(String, String) as FromPathSegments>::from_segments(&segs),
        Some(("42".to_string(), "john".to_string()))
    );
    assert_eq!(
        <(i32, String, String) as FromPathSegments>::from_segments(&segs),
        Some((42, "john".to_string(), "x".to_string()))
    );
    assert_eq!(<(i32, String, String) as FromPathSegments>::from_segments(&segs[..2]), None);
    assert_eq!(<i32 as FromPathSegments>::from_segments(&segs[..0]), None);
}

#[test]
fn handler_runs_on_extracted_arguments() {
    let r = call_handler(Ok(5), &|x: i32| format!("n={}", x));
    assert_eq!(r.0, "HTTP/1.1 200 OK\r\nContent-Type: text/plain; charset=utf-8\r\nContent-Length: 3\r\n\r\nn=5");
}

#[test]
fn failed_extraction_skips_handler() {
    let calls = Cell::new(0);
    let mut params = Params::new();
    params.insert("id".to_string(), "abc".to_string());
    let args = state_and_param::<AppState, i32>(Some(AppState { name: "a".to_string() }), &params, "id");
    let r = call_handler(args, &|(_, id): (Data<AppState>, Path<i32>)| {
        calls.set(calls.get() + 1);
        format!("{}", id.0)
    });
    assert_eq!(r.0, "HTTP/1.1 400 Bad Request\r\n\r\n");
    assert_eq!(calls.get(), 0);
    let r = call_handler::<i32, String, _>(Err(ExtractError::MissingState), &|x: i32| x.to_string());
    assert_eq!(r.0, "HTTP/1.1 500 Internal Server Error\r\n\r\n");
    assert_eq!(extract_failure(ExtractError::ParamMissing).0, "HTTP/1.1 400 Bad Request\r\n\r\n");
}

#[test]
fn state_and_segment_tuple() {
    let segs: Vec<String> = vec!["42".to_string(), "john".to_string()];
    let st = Some(AppState { name: "s".to_string() });
    let (data, path) = state_and_segments::<AppState, (i32, String)>(st.clone(), &segs).ok().unwrap();
    assert_eq!(data.0.name, "s");
    assert_eq!(path.0, (42, "john".to_string()));
    let bad: Vec<String> = vec!["abc".to_string(), "john".to_string()];
    assert!(matches!(
        state_and_segments::<AppState, (i32, String)>(st.clone(), &bad),
        Err(ExtractError::ParamParseError)
    ));
    assert!(matches!(
        state_and_segments::<AppState, (i32, i32)>(None, &segs),
        Err(ExtractError::MissingState)
    ));
    assert!(matches!(
        state_and_segments::<AppState, (i32, String, String)>(st, &segs),
        Err(ExtractError::ParamParseError)
    ));
}
