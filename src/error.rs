use vstd::prelude::*;
use vstd::string::StringExecFns;

use crate::responder::ErrorText;
use crate::text::{append_decimal, concat_str, decimal};

verus! {

/// Failures of the server. A failure that came from elsewhere is carried as
/// its text.
#[allow(inconsistent_fields)]
pub enum ServerError {
    ServiceInitializationFailed { message: String },
    ListenerBuildError { source: String },
    IoError { source: String },
    ConnectionError { source: ConnectionError },
    ParseError { source: ParseError },
    HandlerError { source: HandlerError },
    ServiceError { source: String },
    ConfigError { message: String },
    TimeoutError { operation: String },
    ResourceNotFound { resource: String },
}

/// Failures of a connection.
pub enum ConnectionError {
    ReadError { source: String },
    WriteError { source: String },
    ConnectionClosed,
    Timeout,
    ProtocolError { message: String },
}

/// Failures to read a request.
pub enum ParseError {
    InvalidMethod { method: String },
    InvalidUri { uri: String },
    InvalidVersion { version: String },
    MalformedHeaders { reason: String },
    BufferOverflow { attempted: usize, capacity: usize },
    InvalidUtf8,
    ContentLengthMismatch { expected: usize, actual: usize },
}

/// Failures to handle a request.
pub enum HandlerError {
    MissingUri,
    RouteNotFound { route: String },
    MethodNotAllowed { route: String },
    ServiceUnavailable { reason: String },
    PayloadTooLarge { size: usize },
    UnsupportedMediaType { content_type: String },
    InternalError { source: String },
}

/// Failures to make a service.
pub enum ServiceError {
    CreationFailed { reason: String },
    InitializationTimeout,
    DependencyError { service: String },
}

pub open spec fn connection_text(e: ConnectionError) -> Seq<char> {
    match e {
        ConnectionError::ReadError { source } => "Failed to read from connection: "@ + source@,
        ConnectionError::WriteError { source } => "Failed to write to connection: "@ + source@,
        ConnectionError::ConnectionClosed => "Connection closed unexpectedly"@,
        ConnectionError::Timeout => "Connection timeout"@,
        ConnectionError::ProtocolError { message } => "Protocol error: "@ + message@,
    }
}

pub open spec fn parse_text(e: ParseError) -> Seq<char> {
    match e {
        ParseError::InvalidMethod { method } => "Invalid HTTP method: "@ + method@,
        ParseError::InvalidUri { uri } => "Invalid URI: "@ + uri@,
        ParseError::InvalidVersion { version } => "Invalid HTTP version: "@ + version@,
        ParseError::MalformedHeaders { reason } => "Malformed headers: "@ + reason@,
        ParseError::BufferOverflow { attempted, capacity } => "Buffer overflow: tried to read "@
            + decimal(attempted as nat) + " bytes into "@ + decimal(capacity as nat)
            + " byte buffer"@,
        ParseError::InvalidUtf8 => "Invalid UTF-8 sequence in request"@,
        ParseError::ContentLengthMismatch { expected, actual } => "Content length mismatch: expected "@
            + decimal(expected as nat) + ", got "@ + decimal(actual as nat),
    }
}

pub open spec fn handler_text(e: HandlerError) -> Seq<char> {
    match e {
        HandlerError::MissingUri => "Missing URI in request"@,
        HandlerError::RouteNotFound { route } => "Route not found: "@ + route@,
        HandlerError::MethodNotAllowed { route } => "Method not allowed for route: "@ + route@,
        HandlerError::ServiceUnavailable { reason } => "Service unavailable: "@ + reason@,
        HandlerError::PayloadTooLarge { size } => "Payload too large: "@ + decimal(size as nat)
            + " bytes"@,
        HandlerError::UnsupportedMediaType { content_type } => "Unsupported media type: "@
            + content_type@,
        HandlerError::InternalError { source } => "Internal server error: "@ + source@,
    }
}

pub open spec fn service_text(e: ServiceError) -> Seq<char> {
    match e {
        ServiceError::CreationFailed { reason } => "Service creation failed: "@ + reason@,
        ServiceError::InitializationTimeout => "Service initialization timeout"@,
        ServiceError::DependencyError { service } => "Service dependency error: "@ + service@,
    }
}

pub open spec fn server_text(e: ServerError) -> Seq<char> {
    match e {
        ServerError::ServiceInitializationFailed { message } => "Service initialization failed: "@
            + message@,
        ServerError::ListenerBuildError { source } => "Failed to build server listener: "@ + source@,
        ServerError::IoError { source } => "I/O error: "@ + source@,
        ServerError::ConnectionError { source } => "Connection error: "@ + connection_text(source),
        ServerError::ParseError { source } => "Parse error: "@ + parse_text(source),
        ServerError::HandlerError { source } => "Handler error: "@ + handler_text(source),
        ServerError::ServiceError { source } => "Service execution error: "@ + source@,
        ServerError::ConfigError { message } => "Configuration error: "@ + message@,
        ServerError::TimeoutError { operation } => "Timeout error: "@ + operation@
            + " took too long"@,
        ServerError::ResourceNotFound { resource } => "Resource not found: "@ + resource@,
    }
}

/// `prefix`, a number, and `suffix`.
fn with_number(prefix: &str, n: usize, suffix: &str) -> (r: String)
    ensures
        r@ == prefix@ + decimal(n as nat) + suffix@,
{
    let mut s = prefix.to_owned();
    append_decimal(&mut s, n);
    s.append(suffix);
    s
}

impl ConnectionError {
    /// The text of the failure.
    pub fn message(&self) -> (r: String)
        ensures
            r@ == connection_text(*self),
    {
        match self {
            ConnectionError::ReadError { source } => concat_str(
                "Failed to read from connection: ",
                source.as_str(),
            ),
            ConnectionError::WriteError { source } => concat_str(
                "Failed to write to connection: ",
                source.as_str(),
            ),
            ConnectionError::ConnectionClosed => "Connection closed unexpectedly".to_owned(),
            ConnectionError::Timeout => "Connection timeout".to_owned(),
            ConnectionError::ProtocolError { message } => concat_str(
                "Protocol error: ",
                message.as_str(),
            ),
        }
    }
}

impl ParseError {
    /// The text of the failure.
    pub fn message(&self) -> (r: String)
        ensures
            r@ == parse_text(*self),
    {
        match self {
            ParseError::InvalidMethod { method } => concat_str("Invalid HTTP method: ", method.as_str()),
            ParseError::InvalidUri { uri } => concat_str("Invalid URI: ", uri.as_str()),
            ParseError::InvalidVersion { version } => concat_str(
                "Invalid HTTP version: ",
                version.as_str(),
            ),
            ParseError::MalformedHeaders { reason } => concat_str(
                "Malformed headers: ",
                reason.as_str(),
            ),
            ParseError::BufferOverflow { attempted, capacity } => {
                let mut s = with_number("Buffer overflow: tried to read ", *attempted, " bytes into ");
                append_decimal(&mut s, *capacity);
                s.append(" byte buffer");
                s
            },
            ParseError::InvalidUtf8 => "Invalid UTF-8 sequence in request".to_owned(),
            ParseError::ContentLengthMismatch { expected, actual } => {
                let mut s = with_number("Content length mismatch: expected ", *expected, ", got ");
                append_decimal(&mut s, *actual);
                s
            },
        }
    }

    /// A read of `attempted` bytes that does not fit a buffer of `capacity` bytes.
    pub fn buffer_overflow(attempted: usize, capacity: usize) -> (r: Self)
        ensures
            r == (ParseError::BufferOverflow { attempted, capacity }),
    {
        ParseError::BufferOverflow { attempted, capacity }
    }

    /// Headers that cannot be read, and why.
    pub fn malformed_headers(reason: &str) -> (r: Self)
        ensures
            r matches ParseError::MalformedHeaders { reason: got } && got@ == reason@,
    {
        ParseError::MalformedHeaders { reason: reason.to_owned() }
    }
}

impl HandlerError {
    /// The text of the failure.
    pub fn message(&self) -> (r: String)
        ensures
            r@ == handler_text(*self),
    {
        match self {
            HandlerError::MissingUri => "Missing URI in request".to_owned(),
            HandlerError::RouteNotFound { route } => concat_str("Route not found: ", route.as_str()),
            HandlerError::MethodNotAllowed { route } => concat_str(
                "Method not allowed for route: ",
                route.as_str(),
            ),
            HandlerError::ServiceUnavailable { reason } => concat_str(
                "Service unavailable: ",
                reason.as_str(),
            ),
            HandlerError::PayloadTooLarge { size } => with_number("Payload too large: ", *size, " bytes"),
            HandlerError::UnsupportedMediaType { content_type } => concat_str(
                "Unsupported media type: ",
                content_type.as_str(),
            ),
            HandlerError::InternalError { source } => concat_str(
                "Internal server error: ",
                source.as_str(),
            ),
        }
    }

    /// A failure inside a handler, carried as its text.
    pub fn internal_error(source: String) -> (r: Self)
        ensures
            r == (HandlerError::InternalError { source }),
    {
        HandlerError::InternalError { source }
    }

    /// No route for the path.
    pub fn route_not_found(route: &str) -> (r: Self)
        ensures
            r matches HandlerError::RouteNotFound { route: got } && got@ == route@,
    {
        HandlerError::RouteNotFound { route: route.to_owned() }
    }
}

impl ServiceError {
    /// The text of the failure.
    pub fn message(&self) -> (r: String)
        ensures
            r@ == service_text(*self),
    {
        match self {
            ServiceError::CreationFailed { reason } => concat_str(
                "Service creation failed: ",
                reason.as_str(),
            ),
            ServiceError::InitializationTimeout => "Service initialization timeout".to_owned(),
            ServiceError::DependencyError { service } => concat_str(
                "Service dependency error: ",
                service.as_str(),
            ),
        }
    }
}

impl ServerError {
    /// The text of the failure.
    pub fn message(&self) -> (r: String)
        ensures
            r@ == server_text(*self),
    {
        match self {
            ServerError::ServiceInitializationFailed { message } => concat_str(
                "Service initialization failed: ",
                message.as_str(),
            ),
            ServerError::ListenerBuildError { source } => concat_str(
                "Failed to build server listener: ",
                source.as_str(),
            ),
            ServerError::IoError { source } => concat_str("I/O error: ", source.as_str()),
            ServerError::ConnectionError { source } => concat_str(
                "Connection error: ",
                source.message().as_str(),
            ),
            ServerError::ParseError { source } => concat_str(
                "Parse error: ",
                source.message().as_str(),
            ),
            ServerError::HandlerError { source } => concat_str(
                "Handler error: ",
                source.message().as_str(),
            ),
            ServerError::ServiceError { source } => concat_str(
                "Service execution error: ",
                source.as_str(),
            ),
            ServerError::ConfigError { message } => concat_str(
                "Configuration error: ",
                message.as_str(),
            ),
            ServerError::TimeoutError { operation } => {
                let mut s = concat_str("Timeout error: ", operation.as_str());
                s.append(" took too long");
                s
            },
            ServerError::ResourceNotFound { resource } => concat_str(
                "Resource not found: ",
                resource.as_str(),
            ),
        }
    }

    /// Services could not be started.
    pub fn service_init_error(msg: String) -> (r: Self)
        ensures
            r == (ServerError::ServiceInitializationFailed { message: msg }),
    {
        ServerError::ServiceInitializationFailed { message: msg }
    }

    /// An operation took too long.
    pub fn timeout(operation: &str) -> (r: Self)
        ensures
            r matches ServerError::TimeoutError { operation: got } && got@ == operation@,
    {
        ServerError::TimeoutError { operation: operation.to_owned() }
    }

    /// A resource is not there.
    pub fn not_found(resource: &str) -> (r: Self)
        ensures
            r matches ServerError::ResourceNotFound { resource: got } && got@ == resource@,
    {
        ServerError::ResourceNotFound { resource: resource.to_owned() }
    }
}

impl From<String> for ServerError {
    /// A text is a configuration error.
    fn from(message: String) -> (r: Self) {
        ServerError::ConfigError { message }
    }
}

impl vstd::std_specs::convert::FromSpecImpl<String> for ServerError {
    open spec fn obeys_from_spec() -> bool {
        true
    }

    open spec fn from_spec(message: String) -> ServerError {
        ServerError::ConfigError { message }
    }
}

impl From<ConnectionError> for ServerError {
    fn from(source: ConnectionError) -> (r: Self) {
        ServerError::ConnectionError { source }
    }
}

impl vstd::std_specs::convert::FromSpecImpl<ConnectionError> for ServerError {
    open spec fn obeys_from_spec() -> bool {
        true
    }

    open spec fn from_spec(source: ConnectionError) -> ServerError {
        ServerError::ConnectionError { source }
    }
}

impl From<ParseError> for ServerError {
    fn from(source: ParseError) -> (r: Self) {
        ServerError::ParseError { source }
    }
}

impl vstd::std_specs::convert::FromSpecImpl<ParseError> for ServerError {
    open spec fn obeys_from_spec() -> bool {
        true
    }

    open spec fn from_spec(source: ParseError) -> ServerError {
        ServerError::ParseError { source }
    }
}

impl From<HandlerError> for ServerError {
    fn from(source: HandlerError) -> (r: Self) {
        ServerError::HandlerError { source }
    }
}

impl vstd::std_specs::convert::FromSpecImpl<HandlerError> for ServerError {
    open spec fn obeys_from_spec() -> bool {
        true
    }

    open spec fn from_spec(source: HandlerError) -> ServerError {
        ServerError::HandlerError { source }
    }
}

impl ErrorText for ServerError {
    open spec fn shown(&self) -> Seq<char> {
        server_text(*self)
    }

    fn error_text(&self) -> (r: String) {
        self.message()
    }
}

impl ErrorText for ConnectionError {
    open spec fn shown(&self) -> Seq<char> {
        connection_text(*self)
    }

    fn error_text(&self) -> (r: String) {
        self.message()
    }
}

impl ErrorText for ParseError {
    open spec fn shown(&self) -> Seq<char> {
        parse_text(*self)
    }

    fn error_text(&self) -> (r: String) {
        self.message()
    }
}

impl ErrorText for HandlerError {
    open spec fn shown(&self) -> Seq<char> {
        handler_text(*self)
    }

    fn error_text(&self) -> (r: String) {
        self.message()
    }
}

impl ErrorText for ServiceError {
    open spec fn shown(&self) -> Seq<char> {
        service_text(*self)
    }

    fn error_text(&self) -> (r: String) {
        self.message()
    }
}

} // verus!
