use vstd::prelude::*;

use crate::extract::ExtractError;
use crate::responder::{Responder, ServiceResponse};
use crate::response::{empty_response, response_text, HttpResponse, ResponseView, StatusCode};

verus! {

/// The response for arguments that could not be had. A parameter that is
/// missing or does not read is the client's fault (400); missing shared
/// state is the application's (500).
pub open spec fn extract_failure_view(e: ExtractError) -> ResponseView {
    match e {
        ExtractError::MissingState => ResponseView {
            status: StatusCode::InternalServerError,
            ..empty_response()
        },
        _ => ResponseView { status: StatusCode::BadRequest, ..empty_response() },
    }
}

/// The text of the response for arguments that could not be had.
pub fn extract_failure(e: ExtractError) -> (r: ServiceResponse)
    ensures
        r.0@ == response_text(extract_failure_view(e)),
{
    match e {
        ExtractError::MissingState => ServiceResponse(HttpResponse::internal_server_error().build()),
        _ => ServiceResponse(HttpResponse::bad_request().build()),
    }
}

/// Runs a handler on the arguments that extraction produced and turns what
/// it returns into a response; where extraction failed, the handler is not
/// called and the failure becomes the response.
pub fn call_handler<A, R: Responder, F: Fn(A) -> R>(args: Result<A, ExtractError>, handler: &F) -> (r:
    ServiceResponse)
    requires
        forall|a: A| handler.requires((a,)),
    ensures
        match args {
            Ok(a) => exists|out: R| #[trigger]
                handler.ensures((a,), out) && r.0@ == response_text(out.response_of()),
            Err(e) => r.0@ == response_text(extract_failure_view(e)),
        },
{
    match args {
        Ok(a) => {
            let out = handler(a);
            out.respond()
        },
        Err(e) => extract_failure(e),
    }
}

} // verus!
