//! The request-dispatch core of a small web server.
//!
//! - `radix`: the route table, a tree of path segments with parameter
//!   segments; lookup prefers literal segments and backtracks.
//! - `router`: route table plus the services that its routes lead to, and
//!   the builders that register routes, alone or under a common prefix.
//! - `server`: what to do with a request: call a service, or answer 404.
//! - `params`: the parameters that a lookup binds.
//! - `extract`: reading handler arguments from parameters and shared state.
//! - `handler`: running a handler on its arguments and making its response.
//! - `response`, `responder`: status codes, responses, and the values that
//!   handlers return.
//! - `request`, `wire`: reading request heads and message framing.
//! - `pattern`: routes compiled to regular expressions.
//! - `error`: failures and their messages.
//! - `path`, `text`: splitting paths, writing numbers.

pub mod error;
pub mod extract;
pub mod handler;
pub mod params;
pub mod path;
pub mod pattern;
pub mod radix;
pub mod request;
pub mod responder;
pub mod response;
pub mod router;
pub mod server;
pub mod text;
pub mod wire;
