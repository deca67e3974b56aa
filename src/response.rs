use vstd::prelude::*;
use vstd::string::StringExecFns;

use crate::radix::{first_index, is_first};
use crate::text::{append_decimal, decimal, decimal_string};
use vstd::utf8::encode_utf8;

verus! {

/// The protocol version written in a response's status line.
#[derive(Clone, Copy, Debug, PartialEq, Eq, Structural)]
pub enum HttpVersion {
    Http1_0,
    Http1_1,
    Http2,
    Http3,
}

/// How a version is written.
pub open spec fn version_text(v: HttpVersion) -> Seq<char> {
    match v {
        HttpVersion::Http1_0 => "HTTP/1.0"@,
        HttpVersion::Http1_1 => "HTTP/1.1"@,
        HttpVersion::Http2 => "HTTP/2"@,
        HttpVersion::Http3 => "HTTP/3"@,
    }
}

impl HttpVersion {
    /// How the version is written.
    pub fn as_str(&self) -> (r: &'static str)
        ensures
            r@ == version_text(*self),
    {
        match self {
            HttpVersion::Http1_0 => "HTTP/1.0",
            HttpVersion::Http1_1 => "HTTP/1.1",
            HttpVersion::Http2 => "HTTP/2",
            HttpVersion::Http3 => "HTTP/3",
        }
    }

    /// How the version is written, as an owned string.
    pub fn to_string(&self) -> (r: String)
        ensures
            r@ == version_text(*self),
    {
        self.as_str().to_owned()
    }
}

/// A response status.
#[derive(Clone, Copy, Debug, PartialEq, Eq, Hash, Structural)]
pub enum StatusCode {
    // 1xx Informational
    Continue,
    SwitchingProtocols,
    Processing,
    EarlyHints,

    // 2xx Success
    OK,
    Created,
    Accepted,
    NonAuthoritativeInformation,
    NoContent,
    ResetContent,
    PartialContent,
    MultiStatus,
    AlreadyReported,
    IMUsed,

    // 3xx Redirection
    MultipleChoices,
    MovedPermanently,
    Found,
    SeeOther,
    NotModified,
    UseProxy,
    TemporaryRedirect,
    PermanentRedirect,

    // 4xx Client Error
    BadRequest,
    Unauthorized,
    PaymentRequired,
    Forbidden,
    NotFound,
    MethodNotAllowed,
    NotAcceptable,
    ProxyAuthenticationRequired,
    RequestTimeout,
    Conflict,
    Gone,
    LengthRequired,
    PreconditionFailed,
    PayloadTooLarge,
    URITooLong,
    UnsupportedMediaType,
    RangeNotSatisfiable,
    ExpectationFailed,
    ImATeapot,
    MisdirectedRequest,
    UnprocessableEntity,
    Locked,
    FailedDependency,
    TooEarly,
    UpgradeRequired,
    PreconditionRequired,
    TooManyRequests,
    RequestHeaderFieldsTooLarge,
    UnavailableForLegalReasons,

    // 5xx Server Error
    InternalServerError,
    NotImplemented,
    BadGateway,
    ServiceUnavailable,
    GatewayTimeout,
    HTTPVersionNotSupported,
    VariantAlsoNegotiates,
    InsufficientStorage,
    LoopDetected,
    NotExtended,
    NetworkAuthenticationRequired,
}

/// The numeric code of a status.
pub open spec fn code_of(s: StatusCode) -> u16 {
    match s {
        StatusCode::Continue => 100,
        StatusCode::SwitchingProtocols => 101,
        StatusCode::Processing => 102,
        StatusCode::EarlyHints => 103,
        StatusCode::OK => 200,
        StatusCode::Created => 201,
        StatusCode::Accepted => 202,
        StatusCode::NonAuthoritativeInformation => 203,
        StatusCode::NoContent => 204,
        StatusCode::ResetContent => 205,
        StatusCode::PartialContent => 206,
        StatusCode::MultiStatus => 207,
        StatusCode::AlreadyReported => 208,
        StatusCode::IMUsed => 226,
        StatusCode::MultipleChoices => 300,
        StatusCode::MovedPermanently => 301,
        StatusCode::Found => 302,
        StatusCode::SeeOther => 303,
        StatusCode::NotModified => 304,
        StatusCode::UseProxy => 305,
        StatusCode::TemporaryRedirect => 307,
        StatusCode::PermanentRedirect => 308,
        StatusCode::BadRequest => 400,
        StatusCode::Unauthorized => 401,
        StatusCode::PaymentRequired => 402,
        StatusCode::Forbidden => 403,
        StatusCode::NotFound => 404,
        StatusCode::MethodNotAllowed => 405,
        StatusCode::NotAcceptable => 406,
        StatusCode::ProxyAuthenticationRequired => 407,
        StatusCode::RequestTimeout => 408,
        StatusCode::Conflict => 409,
        StatusCode::Gone => 410,
        StatusCode::LengthRequired => 411,
        StatusCode::PreconditionFailed => 412,
        StatusCode::PayloadTooLarge => 413,
        StatusCode::URITooLong => 414,
        StatusCode::UnsupportedMediaType => 415,
        StatusCode::RangeNotSatisfiable => 416,
        StatusCode::ExpectationFailed => 417,
        StatusCode::ImATeapot => 418,
        StatusCode::MisdirectedRequest => 421,
        StatusCode::UnprocessableEntity => 422,
        StatusCode::Locked => 423,
        StatusCode::FailedDependency => 424,
        StatusCode::TooEarly => 425,
        StatusCode::UpgradeRequired => 426,
        StatusCode::PreconditionRequired => 428,
        StatusCode::TooManyRequests => 429,
        StatusCode::RequestHeaderFieldsTooLarge => 431,
        StatusCode::UnavailableForLegalReasons => 451,
        StatusCode::InternalServerError => 500,
        StatusCode::NotImplemented => 501,
        StatusCode::BadGateway => 502,
        StatusCode::ServiceUnavailable => 503,
        StatusCode::GatewayTimeout => 504,
        StatusCode::HTTPVersionNotSupported => 505,
        StatusCode::VariantAlsoNegotiates => 506,
        StatusCode::InsufficientStorage => 507,
        StatusCode::LoopDetected => 508,
        StatusCode::NotExtended => 510,
        StatusCode::NetworkAuthenticationRequired => 511,
    }
}

/// The reason phrase of a status.
pub open spec fn reason_of(s: StatusCode) -> Seq<char> {
    match s {
        StatusCode::Continue => "Continue"@,
        StatusCode::SwitchingProtocols => "Switching Protocols"@,
        StatusCode::Processing => "Processing"@,
        StatusCode::EarlyHints => "Early Hints"@,
        StatusCode::OK => "OK"@,
        StatusCode::Created => "Created"@,
        StatusCode::Accepted => "Accepted"@,
        StatusCode::NonAuthoritativeInformation => "Non-Authoritative Information"@,
        StatusCode::NoContent => "No Content"@,
        StatusCode::ResetContent => "Reset Content"@,
        StatusCode::PartialContent => "Partial Content"@,
        StatusCode::MultiStatus => "Multi-Status"@,
        StatusCode::AlreadyReported => "Already Reported"@,
        StatusCode::IMUsed => "IM Used"@,
        StatusCode::MultipleChoices => "Multiple Choices"@,
        StatusCode::MovedPermanently => "Moved Permanently"@,
        StatusCode::Found => "Found"@,
        StatusCode::SeeOther => "See Other"@,
        StatusCode::NotModified => "Not Modified"@,
        StatusCode::UseProxy => "Use Proxy"@,
        StatusCode::TemporaryRedirect => "Temporary Redirect"@,
        StatusCode::PermanentRedirect => "Permanent Redirect"@,
        StatusCode::BadRequest => "Bad Request"@,
        StatusCode::Unauthorized => "Unauthorized"@,
        StatusCode::PaymentRequired => "Payment Required"@,
        StatusCode::Forbidden => "Forbidden"@,
        StatusCode::NotFound => "Not Found"@,
        StatusCode::MethodNotAllowed => "Method Not Allowed"@,
        StatusCode::NotAcceptable => "Not Acceptable"@,
        StatusCode::ProxyAuthenticationRequired => "Proxy Authentication Required"@,
        StatusCode::RequestTimeout => "Request Timeout"@,
        StatusCode::Conflict => "Conflict"@,
        StatusCode::Gone => "Gone"@,
        StatusCode::LengthRequired => "Length Required"@,
        StatusCode::PreconditionFailed => "Precondition Failed"@,
        StatusCode::PayloadTooLarge => "Payload Too Large"@,
        StatusCode::URITooLong => "URI Too Long"@,
        StatusCode::UnsupportedMediaType => "Unsupported Media Type"@,
        StatusCode::RangeNotSatisfiable => "Range Not Satisfiable"@,
        StatusCode::ExpectationFailed => "Expectation Failed"@,
        StatusCode::ImATeapot => "I'm a teapot"@,
        StatusCode::MisdirectedRequest => "Misdirected Request"@,
        StatusCode::UnprocessableEntity => "Unprocessable Entity"@,
        StatusCode::Locked => "Locked"@,
        StatusCode::FailedDependency => "Failed Dependency"@,
        StatusCode::TooEarly => "Too Early"@,
        StatusCode::UpgradeRequired => "Upgrade Required"@,
        StatusCode::PreconditionRequired => "Precondition Required"@,
        StatusCode::TooManyRequests => "Too Many Requests"@,
        StatusCode::RequestHeaderFieldsTooLarge => "Request Header Fields Too Large"@,
        StatusCode::UnavailableForLegalReasons => "Unavailable For Legal Reasons"@,
        StatusCode::InternalServerError => "Internal Server Error"@,
        StatusCode::NotImplemented => "Not Implemented"@,
        StatusCode::BadGateway => "Bad Gateway"@,
        StatusCode::ServiceUnavailable => "Service Unavailable"@,
        StatusCode::GatewayTimeout => "Gateway Timeout"@,
        StatusCode::HTTPVersionNotSupported => "HTTP Version Not Supported"@,
        StatusCode::VariantAlsoNegotiates => "Variant Also Negotiates"@,
        StatusCode::InsufficientStorage => "Insufficient Storage"@,
        StatusCode::LoopDetected => "Loop Detected"@,
        StatusCode::NotExtended => "Not Extended"@,
        StatusCode::NetworkAuthenticationRequired => "Network Authentication Required"@,
    }
}

/// How a status is written in a status line: its code, a space, its phrase.
pub open spec fn status_text(s: StatusCode) -> Seq<char> {
    decimal(code_of(s) as nat) + " "@ + reason_of(s)
}

/// A number that names no status.
#[derive(Clone, Copy, Debug, PartialEq, Eq, Structural)]
pub struct InvalidStatusCode(pub u16);

impl InvalidStatusCode {
    /// The message of the error.
    pub fn message(&self) -> (r: String)
        ensures
            r@ == "Invalid status code: "@ + decimal(self.0 as nat),
    {
        let mut s = "Invalid status code: ".to_owned();
        append_decimal(&mut s, self.0 as usize);
        s
    }
}

impl crate::responder::ErrorText for InvalidStatusCode {
    open spec fn shown(&self) -> Seq<char> {
        "Invalid status code: "@ + decimal(self.0 as nat)
    }

    fn error_text(&self) -> (r: String) {
        self.message()
    }
}

impl StatusCode {
    /// 200 OK.
    pub fn ok() -> (r: Self)
        ensures
            r == StatusCode::OK,
            code_of(r) == 200,
    {
        StatusCode::OK
    }

    /// 201 Created.
    pub fn created() -> (r: Self)
        ensures
            r == StatusCode::Created,
            code_of(r) == 201,
    {
        StatusCode::Created
    }

    /// 204 No Content.
    pub fn no_content() -> (r: Self)
        ensures
            r == StatusCode::NoContent,
            code_of(r) == 204,
    {
        StatusCode::NoContent
    }

    /// 400 Bad Request.
    pub fn bad_request() -> (r: Self)
        ensures
            r == StatusCode::BadRequest,
            code_of(r) == 400,
    {
        StatusCode::BadRequest
    }

    /// 401 Unauthorized.
    pub fn unauthorized() -> (r: Self)
        ensures
            r == StatusCode::Unauthorized,
            code_of(r) == 401,
    {
        StatusCode::Unauthorized
    }

    /// 403 Forbidden.
    pub fn forbidden() -> (r: Self)
        ensures
            r == StatusCode::Forbidden,
            code_of(r) == 403,
    {
        StatusCode::Forbidden
    }

    /// 404 Not Found.
    pub fn not_found() -> (r: Self)
        ensures
            r == StatusCode::NotFound,
            code_of(r) == 404,
    {
        StatusCode::NotFound
    }

    /// 405 Method Not Allowed.
    pub fn method_not_allowed() -> (r: Self)
        ensures
            r == StatusCode::MethodNotAllowed,
            code_of(r) == 405,
    {
        StatusCode::MethodNotAllowed
    }

    /// 500 Internal Server Error.
    pub fn internal_server_error() -> (r: Self)
        ensures
            r == StatusCode::InternalServerError,
            code_of(r) == 500,
    {
        StatusCode::InternalServerError
    }

    /// 501 Not Implemented.
    pub fn not_implemented() -> (r: Self)
        ensures
            r == StatusCode::NotImplemented,
            code_of(r) == 501,
    {
        StatusCode::NotImplemented
    }

    /// 502 Bad Gateway.
    pub fn bad_gateway() -> (r: Self)
        ensures
            r == StatusCode::BadGateway,
            code_of(r) == 502,
    {
        StatusCode::BadGateway
    }

    /// 503 Service Unavailable.
    pub fn service_unavailable() -> (r: Self)
        ensures
            r == StatusCode::ServiceUnavailable,
            code_of(r) == 503,
    {
        StatusCode::ServiceUnavailable
    }

    /// 301 Moved Permanently.
    pub fn moved_permanently() -> (r: Self)
        ensures
            r == StatusCode::MovedPermanently,
            code_of(r) == 301,
    {
        StatusCode::MovedPermanently
    }

    /// 302 Found.
    pub fn found() -> (r: Self)
        ensures
            r == StatusCode::Found,
            code_of(r) == 302,
    {
        StatusCode::Found
    }

    /// 307 Temporary Redirect.
    pub fn temporary_redirect() -> (r: Self)
        ensures
            r == StatusCode::TemporaryRedirect,
            code_of(r) == 307,
    {
        StatusCode::TemporaryRedirect
    }

    /// 308 Permanent Redirect.
    pub fn permanent_redirect() -> (r: Self)
        ensures
            r == StatusCode::PermanentRedirect,
            code_of(r) == 308,
    {
        StatusCode::PermanentRedirect
    }

    /// The reason phrase of the status.
    pub fn reason_phrase(&self) -> (r: &'static str)
        ensures
            r@ == reason_of(*self),
    {
        match self {
            StatusCode::Continue => "Continue",
            StatusCode::SwitchingProtocols => "Switching Protocols",
            StatusCode::Processing => "Processing",
            StatusCode::EarlyHints => "Early Hints",
            StatusCode::OK => "OK",
            StatusCode::Created => "Created",
            StatusCode::Accepted => "Accepted",
            StatusCode::NonAuthoritativeInformation => "Non-Authoritative Information",
            StatusCode::NoContent => "No Content",
            StatusCode::ResetContent => "Reset Content",
            StatusCode::PartialContent => "Partial Content",
            StatusCode::MultiStatus => "Multi-Status",
            StatusCode::AlreadyReported => "Already Reported",
            StatusCode::IMUsed => "IM Used",
            StatusCode::MultipleChoices => "Multiple Choices",
            StatusCode::MovedPermanently => "Moved Permanently",
            StatusCode::Found => "Found",
            StatusCode::SeeOther => "See Other",
            StatusCode::NotModified => "Not Modified",
            StatusCode::UseProxy => "Use Proxy",
            StatusCode::TemporaryRedirect => "Temporary Redirect",
            StatusCode::PermanentRedirect => "Permanent Redirect",
            StatusCode::BadRequest => "Bad Request",
            StatusCode::Unauthorized => "Unauthorized",
            StatusCode::PaymentRequired => "Payment Required",
            StatusCode::Forbidden => "Forbidden",
            StatusCode::NotFound => "Not Found",
            StatusCode::MethodNotAllowed => "Method Not Allowed",
            StatusCode::NotAcceptable => "Not Acceptable",
            StatusCode::ProxyAuthenticationRequired => "Proxy Authentication Required",
            StatusCode::RequestTimeout => "Request Timeout",
            StatusCode::Conflict => "Conflict",
            StatusCode::Gone => "Gone",
            StatusCode::LengthRequired => "Length Required",
            StatusCode::PreconditionFailed => "Precondition Failed",
            StatusCode::PayloadTooLarge => "Payload Too Large",
            StatusCode::URITooLong => "URI Too Long",
            StatusCode::UnsupportedMediaType => "Unsupported Media Type",
            StatusCode::RangeNotSatisfiable => "Range Not Satisfiable",
            StatusCode::ExpectationFailed => "Expectation Failed",
            StatusCode::ImATeapot => "I'm a teapot",
            StatusCode::MisdirectedRequest => "Misdirected Request",
            StatusCode::UnprocessableEntity => "Unprocessable Entity",
            StatusCode::Locked => "Locked",
            StatusCode::FailedDependency => "Failed Dependency",
            StatusCode::TooEarly => "Too Early",
            StatusCode::UpgradeRequired => "Upgrade Required",
            StatusCode::PreconditionRequired => "Precondition Required",
            StatusCode::TooManyRequests => "Too Many Requests",
            StatusCode::RequestHeaderFieldsTooLarge => "Request Header Fields Too Large",
            StatusCode::UnavailableForLegalReasons => "Unavailable For Legal Reasons",
            StatusCode::InternalServerError => "Internal Server Error",
            StatusCode::NotImplemented => "Not Implemented",
            StatusCode::BadGateway => "Bad Gateway",
            StatusCode::ServiceUnavailable => "Service Unavailable",
            StatusCode::GatewayTimeout => "Gateway Timeout",
            StatusCode::HTTPVersionNotSupported => "HTTP Version Not Supported",
            StatusCode::VariantAlsoNegotiates => "Variant Also Negotiates",
            StatusCode::InsufficientStorage => "Insufficient Storage",
            StatusCode::LoopDetected => "Loop Detected",
            StatusCode::NotExtended => "Not Extended",
            StatusCode::NetworkAuthenticationRequired => "Network Authentication Required",
        }
    }

    /// The numeric code of the status.
    pub fn as_u16(&self) -> (r: u16)
        ensures
            r == code_of(*self),
    {
        match self {
            StatusCode::Continue => 100,
            StatusCode::SwitchingProtocols => 101,
            StatusCode::Processing => 102,
            StatusCode::EarlyHints => 103,
            StatusCode::OK => 200,
            StatusCode::Created => 201,
            StatusCode::Accepted => 202,
            StatusCode::NonAuthoritativeInformation => 203,
            StatusCode::NoContent => 204,
            StatusCode::ResetContent => 205,
            StatusCode::PartialContent => 206,
            StatusCode::MultiStatus => 207,
            StatusCode::AlreadyReported => 208,
            StatusCode::IMUsed => 226,
            StatusCode::MultipleChoices => 300,
            StatusCode::MovedPermanently => 301,
            StatusCode::Found => 302,
            StatusCode::SeeOther => 303,
            StatusCode::NotModified => 304,
            StatusCode::UseProxy => 305,
            StatusCode::TemporaryRedirect => 307,
            StatusCode::PermanentRedirect => 308,
            StatusCode::BadRequest => 400,
            StatusCode::Unauthorized => 401,
            StatusCode::PaymentRequired => 402,
            StatusCode::Forbidden => 403,
            StatusCode::NotFound => 404,
            StatusCode::MethodNotAllowed => 405,
            StatusCode::NotAcceptable => 406,
            StatusCode::ProxyAuthenticationRequired => 407,
            StatusCode::RequestTimeout => 408,
            StatusCode::Conflict => 409,
            StatusCode::Gone => 410,
            StatusCode::LengthRequired => 411,
            StatusCode::PreconditionFailed => 412,
            StatusCode::PayloadTooLarge => 413,
            StatusCode::URITooLong => 414,
            StatusCode::UnsupportedMediaType => 415,
            StatusCode::RangeNotSatisfiable => 416,
            StatusCode::ExpectationFailed => 417,
            StatusCode::ImATeapot => 418,
            StatusCode::MisdirectedRequest => 421,
            StatusCode::UnprocessableEntity => 422,
            StatusCode::Locked => 423,
            StatusCode::FailedDependency => 424,
            StatusCode::TooEarly => 425,
            StatusCode::UpgradeRequired => 426,
            StatusCode::PreconditionRequired => 428,
            StatusCode::TooManyRequests => 429,
            StatusCode::RequestHeaderFieldsTooLarge => 431,
            StatusCode::UnavailableForLegalReasons => 451,
            StatusCode::InternalServerError => 500,
            StatusCode::NotImplemented => 501,
            StatusCode::BadGateway => 502,
            StatusCode::ServiceUnavailable => 503,
            StatusCode::GatewayTimeout => 504,
            StatusCode::HTTPVersionNotSupported => 505,
            StatusCode::VariantAlsoNegotiates => 506,
            StatusCode::InsufficientStorage => 507,
            StatusCode::LoopDetected => 508,
            StatusCode::NotExtended => 510,
            StatusCode::NetworkAuthenticationRequired => 511,
        }
    }

    /// The status of a code, where one has it.
    pub fn from_u16(code: u16) -> (r: Result<Self, InvalidStatusCode>)
        ensures
            match r {
                Ok(s) => code_of(s) == code,
                Err(e) => e.0 == code && forall|s: StatusCode| code_of(s) != code,
            },
    {
        match code {
            100 => Ok(StatusCode::Continue),
            101 => Ok(StatusCode::SwitchingProtocols),
            102 => Ok(StatusCode::Processing),
            103 => Ok(StatusCode::EarlyHints),
            200 => Ok(StatusCode::OK),
            201 => Ok(StatusCode::Created),
            202 => Ok(StatusCode::Accepted),
            203 => Ok(StatusCode::NonAuthoritativeInformation),
            204 => Ok(StatusCode::NoContent),
            205 => Ok(StatusCode::ResetContent),
            206 => Ok(StatusCode::PartialContent),
            207 => Ok(StatusCode::MultiStatus),
            208 => Ok(StatusCode::AlreadyReported),
            226 => Ok(StatusCode::IMUsed),
            300 => Ok(StatusCode::MultipleChoices),
            301 => Ok(StatusCode::MovedPermanently),
            302 => Ok(StatusCode::Found),
            303 => Ok(StatusCode::SeeOther),
            304 => Ok(StatusCode::NotModified),
            305 => Ok(StatusCode::UseProxy),
            307 => Ok(StatusCode::TemporaryRedirect),
            308 => Ok(StatusCode::PermanentRedirect),
            400 => Ok(StatusCode::BadRequest),
            401 => Ok(StatusCode::Unauthorized),
            402 => Ok(StatusCode::PaymentRequired),
            403 => Ok(StatusCode::Forbidden),
            404 => Ok(StatusCode::NotFound),
            405 => Ok(StatusCode::MethodNotAllowed),
            406 => Ok(StatusCode::NotAcceptable),
            407 => Ok(StatusCode::ProxyAuthenticationRequired),
            408 => Ok(StatusCode::RequestTimeout),
            409 => Ok(StatusCode::Conflict),
            410 => Ok(StatusCode::Gone),
            411 => Ok(StatusCode::LengthRequired),
            412 => Ok(StatusCode::PreconditionFailed),
            413 => Ok(StatusCode::PayloadTooLarge),
            414 => Ok(StatusCode::URITooLong),
            415 => Ok(StatusCode::UnsupportedMediaType),
            416 => Ok(StatusCode::RangeNotSatisfiable),
            417 => Ok(StatusCode::ExpectationFailed),
            418 => Ok(StatusCode::ImATeapot),
            421 => Ok(StatusCode::MisdirectedRequest),
            422 => Ok(StatusCode::UnprocessableEntity),
            423 => Ok(StatusCode::Locked),
            424 => Ok(StatusCode::FailedDependency),
            425 => Ok(StatusCode::TooEarly),
            426 => Ok(StatusCode::UpgradeRequired),
            428 => Ok(StatusCode::PreconditionRequired),
            429 => Ok(StatusCode::TooManyRequests),
            431 => Ok(StatusCode::RequestHeaderFieldsTooLarge),
            451 => Ok(StatusCode::UnavailableForLegalReasons),
            500 => Ok(StatusCode::InternalServerError),
            501 => Ok(StatusCode::NotImplemented),
            502 => Ok(StatusCode::BadGateway),
            503 => Ok(StatusCode::ServiceUnavailable),
            504 => Ok(StatusCode::GatewayTimeout),
            505 => Ok(StatusCode::HTTPVersionNotSupported),
            506 => Ok(StatusCode::VariantAlsoNegotiates),
            507 => Ok(StatusCode::InsufficientStorage),
            508 => Ok(StatusCode::LoopDetected),
            510 => Ok(StatusCode::NotExtended),
            511 => Ok(StatusCode::NetworkAuthenticationRequired),
            _ => Err(InvalidStatusCode(code)),
        }
    }

    /// Whether the status is informational (1xx).
    pub fn is_informational(&self) -> (r: bool)
        ensures
            r == (100 <= code_of(*self) < 200),
    {
        let c = self.as_u16();
        c >= 100 && c < 200
    }

    /// Whether the status is a success (2xx).
    pub fn is_success(&self) -> (r: bool)
        ensures
            r == (200 <= code_of(*self) < 300),
    {
        let c = self.as_u16();
        c >= 200 && c < 300
    }

    /// Whether the status is a redirection (3xx).
    pub fn is_redirection(&self) -> (r: bool)
        ensures
            r == (300 <= code_of(*self) < 400),
    {
        let c = self.as_u16();
        c >= 300 && c < 400
    }

    /// Whether the status is a client error (4xx).
    pub fn is_client_error(&self) -> (r: bool)
        ensures
            r == (400 <= code_of(*self) < 500),
    {
        let c = self.as_u16();
        c >= 400 && c < 500
    }

    /// Whether the status is a server error (5xx).
    pub fn is_server_error(&self) -> (r: bool)
        ensures
            r == (500 <= code_of(*self) < 600),
    {
        let c = self.as_u16();
        c >= 500 && c < 600
    }

    /// Whether the status is an error (4xx or 5xx).
    pub fn is_error(&self) -> (r: bool)
        ensures
            r == (400 <= code_of(*self) < 600),
    {
        self.is_client_error() || self.is_server_error()
    }

    /// How the status is written in a status line.
    pub fn to_string(&self) -> (r: String)
        ensures
            r@ == status_text(*self),
    {
        let mut s = String::new();
        append_decimal(&mut s, self.as_u16() as usize);
        s.append(" ");
        s.append(self.reason_phrase());
        proof {
            assert(Seq::<char>::empty() + decimal(code_of(*self) as nat) =~= decimal(code_of(*self) as nat));
        }
        s
    }
}

/// Something that names a status.
pub trait IntoStatusCode: Sized {
    /// The status named; a number that names none gives 500.
    spec fn status_named(self) -> StatusCode;

    fn into_status_code(self) -> (r: StatusCode)
        ensures
            r == self.status_named(),
    ;
}

impl IntoStatusCode for StatusCode {
    open spec fn status_named(self) -> StatusCode {
        self
    }

    fn into_status_code(self) -> (r: StatusCode) {
        self
    }
}

impl IntoStatusCode for u16 {
    open spec fn status_named(self) -> StatusCode {
        if exists|s: StatusCode| code_of(s) == self {
            choose|s: StatusCode| code_of(s) == self
        } else {
            StatusCode::InternalServerError
        }
    }

    fn into_status_code(self) -> (r: StatusCode) {
        match StatusCode::from_u16(self) {
            Ok(s) => {
                proof {
                    lemma_code_injective(s, self.status_named());
                }
                s
            },
            Err(_) => StatusCode::InternalServerError,
        }
    }
}

/// No two statuses share a code.
pub proof fn lemma_code_injective(a: StatusCode, b: StatusCode)
    requires
        code_of(a) == code_of(b),
    ensures
        a == b,
{
}

/// The view of a list of string pairs.
pub open spec fn pairs_view(v: Seq<(String, String)>) -> Seq<(Seq<char>, Seq<char>)> {
    v.map_values(|p: (String, String)| (p.0@, p.1@))
}

pub open spec fn pair_keys(hs: Seq<(Seq<char>, Seq<char>)>) -> Seq<Seq<char>> {
    hs.map_values(|p: (Seq<char>, Seq<char>)| p.0)
}

/// Sets header `k` to `v`: the first entry of that name takes the value,
/// or, where there is none, the header goes at the end.
pub open spec fn header_set(hs: Seq<(Seq<char>, Seq<char>)>, k: Seq<char>, v: Seq<char>) -> Seq<
    (Seq<char>, Seq<char>),
> {
    let i = first_index(pair_keys(hs), k);
    if i >= 0 {
        hs.update(i, (k, v))
    } else {
        hs.push((k, v))
    }
}

/// Sets each header of `more` in turn.
pub open spec fn headers_merge(hs: Seq<(Seq<char>, Seq<char>)>, more: Seq<(Seq<char>, Seq<char>)>) -> Seq<
    (Seq<char>, Seq<char>),
>
    decreases more.len(),
{
    if more.len() == 0 {
        hs
    } else {
        header_set(headers_merge(hs, more.drop_last()), more.last().0, more.last().1)
    }
}

/// Sets header `key` to `value` in a list of headers.
pub fn set_header(headers: &mut Vec<(String, String)>, key: String, value: String)
    ensures
        pairs_view(final(headers)@) == header_set(pairs_view(old(headers)@), key@, value@),
{
    let ghost hs = pairs_view(headers@);
    let mut i: usize = 0;
    while i < headers.len()
        invariant
            i <= headers@.len(),
            headers@ == old(headers)@,
            hs == pairs_view(headers@),
            forall|j: int| 0 <= j < i ==> pair_keys(hs)[j] != key@,
        decreases headers@.len() - i,
    {
        if headers[i].0 == key {
            proof {
                assert(is_first(pair_keys(hs), key@, i as int));
                crate::radix::lemma_first_unique(pair_keys(hs), key@, i as int);
            }
            headers[i].1 = value;
            proof {
                assert(pairs_view(headers@) =~= hs.update(i as int, (key@, value@)));
            }
            return;
        }
        i = i + 1;
    }
    proof {
        crate::radix::lemma_first_none(pair_keys(hs), key@);
    }
    headers.push((key, value));
    proof {
        assert(pairs_view(headers@) =~= hs.push((key@, value@)));
    }
}

/// What a response holds.
pub struct ResponseView {
    pub version: HttpVersion,
    pub status: StatusCode,
    pub headers: Seq<(Seq<char>, Seq<char>)>,
    pub body: Option<Seq<char>>,
}

/// The header lines, each ended by CRLF.
pub open spec fn headers_text(hs: Seq<(Seq<char>, Seq<char>)>) -> Seq<char>
    decreases hs.len(),
{
    if hs.len() == 0 {
        Seq::empty()
    } else {
        headers_text(hs.drop_last()) + hs.last().0 + ": "@ + hs.last().1 + "\r\n"@
    }
}

/// The text of a response: status line, header lines, the blank line that
/// ends the head, and the body, if any.
pub open spec fn response_text(r: ResponseView) -> Seq<char> {
    version_text(r.version) + " "@ + status_text(r.status) + "\r\n"@ + headers_text(r.headers)
        + "\r\n"@ + match r.body {
        Some(b) => b,
        None => Seq::empty(),
    }
}

/// The number of bytes of a text in UTF-8, written in decimal.
pub open spec fn byte_count_text(s: Seq<char>) -> Seq<char> {
    decimal((encode_utf8(s).len() as usize) as nat)
}

/// An HTTP/1.1 200 response without headers or body.
pub open spec fn empty_response() -> ResponseView {
    ResponseView {
        version: HttpVersion::Http1_1,
        status: StatusCode::OK,
        headers: Seq::empty(),
        body: None,
    }
}

/// A response under construction.
pub struct HttpResponse {
    pub version: HttpVersion,
    pub status: StatusCode,
    pub headers: Vec<(String, String)>,
    pub body: Option<String>,
}

impl View for HttpResponse {
    type V = ResponseView;

    open spec fn view(&self) -> ResponseView {
        ResponseView {
            version: self.version,
            status: self.status,
            headers: pairs_view(self.headers@),
            body: match self.body {
                Some(b) => Some(b@),
                None => None,
            },
        }
    }
}

impl HttpResponse {
    /// An HTTP/1.1 200 response without headers or body.
    pub fn new() -> (r: Self)
        ensures
            r@ == empty_response(),
    {
        let r = HttpResponse {
            version: HttpVersion::Http1_1,
            status: StatusCode::OK,
            headers: Vec::new(),
            body: None,
        };
        proof {
            assert(pairs_view(r.headers@) =~= Seq::empty());
        }
        r
    }

    /// The response with another version.
    pub fn version(self, version: HttpVersion) -> (r: Self)
        ensures
            r@ == (ResponseView { version, ..self@ }),
    {
        let mut r = self;
        r.version = version;
        r
    }

    /// The response with another status.
    pub fn status(self, status: StatusCode) -> (r: Self)
        ensures
            r@ == (ResponseView { status, ..self@ }),
    {
        let mut r = self;
        r.status = status;
        r
    }

    /// The response with header `key` set to `value`.
    pub fn header(self, key: &str, value: &str) -> (r: Self)
        ensures
            r@ == (ResponseView { headers: header_set(self@.headers, key@, value@), ..self@ }),
    {
        let mut r = self;
        set_header(&mut r.headers, key.to_owned(), value.to_owned());
        r
    }

    /// The response with another status.
    pub fn with_status(self, status: StatusCode) -> (r: Self)
        ensures
            r@ == (ResponseView { status, ..self@ }),
    {
        self.status(status)
    }

    /// The response with header `key` set to `value`.
    pub fn with_header(self, key: &str, value: &str) -> (r: Self)
        ensures
            r@ == (ResponseView { headers: header_set(self@.headers, key@, value@), ..self@ }),
    {
        self.header(key, value)
    }

    /// A 200 response with `body` and its Content-Length.
    pub fn with_body(body: &str) -> (r: Self)
        ensures
            r@ == (ResponseView {
                version: HttpVersion::Http1_1,
                status: StatusCode::OK,
                headers: seq![("Content-Length"@, byte_count_text(body@))],
                body: Some(body@),
            }),
    {
        let mut headers: Vec<(String, String)> = Vec::new();
        let n = body.len();
        proof {
            assert(n == (encode_utf8(body@).len() as usize));
        }
        headers.push(("Content-Length".to_owned(), decimal_string(n)));
        let r = HttpResponse {
            status: StatusCode::OK,
            headers,
            body: Some(body.to_owned()),
            version: HttpVersion::Http1_1,
        };
        proof {
            assert(pairs_view(r.headers@) =~= seq![("Content-Length"@, byte_count_text(body@))]);
        }
        r
    }

    /// The response with header Content-Type set.
    pub fn content_type(self, content_type: &str) -> (r: Self)
        ensures
            r@ == (ResponseView {
                headers: header_set(self@.headers, "Content-Type"@, content_type@),
                ..self@
            }),
    {
        self.header("Content-Type", content_type)
    }

    /// The response with `body`, and Content-Length set to its size in bytes.
    pub fn body(self, body: &str) -> (r: Self)
        ensures
            r@ == (ResponseView {
                headers: header_set(self@.headers, "Content-Length"@, byte_count_text(body@)),
                body: Some(body@),
                ..self@
            }),
    {
        let mut r = self;
        let n = body.len();
        proof {
            assert(n == (encode_utf8(body@).len() as usize));
        }
        set_header(&mut r.headers, "Content-Length".to_owned(), decimal_string(n));
        r.body = Some(body.to_owned());
        r
    }

    /// The text of the response.
    pub fn build(self) -> (r: String)
        ensures
            r@ == response_text(self@),
    {
        self.render()
    }

    /// The text of the response, which stays as it is.
    pub fn render(&self) -> (r: String)
        ensures
            r@ == response_text(self@),
    {
        let mut out = self.version.to_string();
        out.append(" ");
        out.append(self.status.to_string().as_str());
        out.append("\r\n");
        let ghost head = out@;
        let mut i: usize = 0;
        while i < self.headers.len()
            invariant
                i <= self.headers@.len(),
                out@ == head + headers_text(pairs_view(self.headers@).take(i as int)),
            decreases self.headers@.len() - i,
        {
            let ghost before = out@;
            out.append(self.headers[i].0.as_str());
            out.append(": ");
            out.append(self.headers[i].1.as_str());
            out.append("\r\n");
            proof {
                let hs = pairs_view(self.headers@);
                assert(hs.take(i + 1).drop_last() =~= hs.take(i as int));
                assert(out@ =~= head + headers_text(hs.take(i + 1)));
            }
            i = i + 1;
        }
        proof {
            assert(pairs_view(self.headers@).take(self.headers@.len() as int) =~= pairs_view(self.headers@));
        }
        out.append("\r\n");
        match &self.body {
            Some(b) => {
                out.append(b.as_str());
                proof {
                    assert(out@ =~= response_text(self@));
                }
            },
            None => {
                proof {
                    assert(out@ =~= response_text(self@));
                }
            },
        }
        out
    }

    /// An empty 200 response.
    pub fn ok() -> (r: Self)
        ensures
            r@ == (ResponseView { status: StatusCode::OK, ..empty_response() }),
    {
        Self::new().status(StatusCode::OK)
    }

    /// An empty 201 response.
    pub fn created() -> (r: Self)
        ensures
            r@ == (ResponseView { status: StatusCode::Created, ..empty_response() }),
    {
        Self::new().status(StatusCode::Created)
    }

    /// A 204 response with Content-Length 0.
    pub fn no_content() -> (r: Self)
        ensures
            r@ == (ResponseView {
                status: StatusCode::NoContent,
                headers: seq![("Content-Length"@, "0"@)],
                ..empty_response()
            }),
    {
        let r = Self::new().status(StatusCode::NoContent).header("Content-Length", "0");
        proof {
            crate::radix::lemma_first_none(pair_keys(Seq::empty()), "Content-Length"@);
            assert(Seq::<(Seq<char>, Seq<char>)>::empty().push(("Content-Length"@, "0"@)) =~= seq![("Content-Length"@, "0"@)]);
        }
        r
    }

    /// An empty 400 response.
    pub fn bad_request() -> (r: Self)
        ensures
            r@ == (ResponseView { status: StatusCode::BadRequest, ..empty_response() }),
    {
        Self::new().status(StatusCode::BadRequest)
    }

    /// An empty 404 response.
    pub fn not_found() -> (r: Self)
        ensures
            r@ == (ResponseView { status: StatusCode::NotFound, ..empty_response() }),
    {
        Self::new().status(StatusCode::NotFound)
    }

    /// An empty 500 response.
    pub fn internal_server_error() -> (r: Self)
        ensures
            r@ == (ResponseView { status: StatusCode::InternalServerError, ..empty_response() }),
    {
        Self::new().status(StatusCode::InternalServerError)
    }

    /// The response with an HTML body.
    pub fn html(self, content: &str) -> (r: Self)
        ensures
            r@ == (ResponseView {
                headers: header_set(
                    header_set(self@.headers, "Content-Type"@, "text/html; charset=utf-8"@),
                    "Content-Length"@,
                    byte_count_text(content@),
                ),
                body: Some(content@),
                ..self@
            }),
    {
        self.content_type("text/html; charset=utf-8").body(content)
    }

    /// The response with a plain text body.
    pub fn text(self, content: &str) -> (r: Self)
        ensures
            r@ == (ResponseView {
                headers: header_set(
                    header_set(self@.headers, "Content-Type"@, "text/plain; charset=utf-8"@),
                    "Content-Length"@,
                    byte_count_text(content@),
                ),
                body: Some(content@),
                ..self@
            }),
    {
        self.content_type("text/plain; charset=utf-8").body(content)
    }
}

impl Default for HttpResponse {
    fn default() -> (r: Self)
        ensures
            r@ == empty_response(),
    {
        Self::new()
    }
}

} // verus!
