use vstd::prelude::*;

use crate::params::Params;
use crate::request::{parse_uri, uri_path};
use crate::response::{byte_count_text, empty_response, response_text, HttpResponse, ResponseView, StatusCode};
use crate::router::AllRouteServices;

verus! {

/// How a server is set up. Timeouts are in seconds.
pub struct ServerConfig {
    pub port: u16,
    pub max_connections: usize,
    pub read_timeout_secs: u64,
    pub write_timeout_secs: u64,
}

impl Default for ServerConfig {
    /// Port 3005, a thousand connections, thirty seconds to read and to write.
    fn default() -> (r: Self)
        ensures
            r.port == 3005,
            r.max_connections == 1000,
            r.read_timeout_secs == 30,
            r.write_timeout_secs == 30,
    {
        ServerConfig {
            port: 3005,
            max_connections: 1000,
            read_timeout_secs: 30,
            write_timeout_secs: 30,
        }
    }
}

/// The request methods that a route can be limited to.
#[derive(Clone, Copy, Debug, PartialEq, Eq, Structural)]
pub enum Method {
    GET,
    POST,
}

/// What the server does with a request.
pub enum Dispatch<'a, S> {
    /// Call the service, with the parameters that the path bound.
    Call(&'a S, Params),
    /// No route matches: send this response.
    Reply(String),
}

/// The response for a path that no route matches.
pub open spec fn not_found_view() -> ResponseView {
    ResponseView {
        status: StatusCode::NotFound,
        headers: seq![("Content-Length"@, byte_count_text("Not Found"@))],
        body: Some("Not Found"@),
        ..empty_response()
    }
}

/// The text of the response for a path that no route matches.
pub fn not_found_text() -> (r: String)
    ensures
        r@ == response_text(not_found_view()),
{
    let resp = HttpResponse::not_found().body("Not Found");
    proof {
        crate::radix::lemma_first_none(crate::response::pair_keys(Seq::empty()), "Content-Length"@);
        assert(Seq::<(Seq<char>, Seq<char>)>::empty().push(("Content-Length"@, byte_count_text("Not Found"@)))
            =~= seq![("Content-Length"@, byte_count_text("Not Found"@))]);
    }
    resp.build()
}

/// Decides what to do with a request for `uri`: its path, without the
/// query, is looked up; a match is called, and anything else gets the
/// not-found response without any service being called.
pub fn dispatch<'a, S>(services: &'a AllRouteServices<S>, uri: &str) -> (r: Dispatch<'a, S>)
    requires
        services.wf(),
    ensures
        match services.lookup(uri_path(uri@)) {
            Some(found) => r matches Dispatch::Call(s, p) && *s == found.0 && p@ == found.1 && p.wf(),
            None => r matches Dispatch::Reply(text) && text@ == response_text(not_found_view()),
        },
{
    let (path, _query) = parse_uri(uri);
    match services.find_route(path.as_str()) {
        Some((s, params)) => Dispatch::Call(s, params),
        None => Dispatch::Reply(not_found_text()),
    }
}

} // verus!
