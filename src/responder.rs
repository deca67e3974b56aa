use vstd::prelude::*;
use vstd::string::StringExecFns;

use crate::text::{lossy_text, utf8_lossy};
use crate::response::{
    empty_response, header_set, headers_merge, pairs_view, response_text, set_header,
    byte_count_text, HttpResponse, ResponseView, StatusCode,
};

verus! {

/// The text that a service hands back: a whole response.
pub struct ServiceResponse(pub String);

/// A 200 plain text response whose body is `s`.
pub open spec fn text_response(s: Seq<char>) -> ResponseView {
    ResponseView {
        headers: seq![
            ("Content-Type"@, "text/plain; charset=utf-8"@),
            ("Content-Length"@, byte_count_text(s)),
        ],
        body: Some(s),
        ..empty_response()
    }
}

/// A 200 response whose body is `s`, with its Content-Length and nothing else.
pub open spec fn sized_response(s: Seq<char>) -> ResponseView {
    ResponseView {
        headers: seq![("Content-Length"@, byte_count_text(s))],
        body: Some(s),
        ..empty_response()
    }
}

/// A response that carries binary data.
pub open spec fn bytes_response(b: Seq<u8>) -> ResponseView {
    ResponseView {
        headers: header_set(
            text_response(lossy_text(b)).headers,
            "Content-Type"@,
            "application/octet-stream"@,
        ),
        ..text_response(lossy_text(b))
    }
}

/// A value that a handler may return, and the response it stands for.
pub trait Responder {
    /// The response that the value becomes.
    spec fn response_of(&self) -> ResponseView;

    /// The text of that response.
    fn respond(&self) -> (r: ServiceResponse)
        ensures
            r.0@ == response_text(self.response_of()),
    ;
}

fn text_body(s: &str) -> (r: HttpResponse)
    ensures
        r@ == text_response(s@),
{
    let r = HttpResponse::new().text(s);
    proof {
        reveal_strlit("Content-Type");
        reveal_strlit("Content-Length");
        let ct = ("Content-Type"@, "text/plain; charset=utf-8"@);
        let empty = Seq::<(Seq<char>, Seq<char>)>::empty();
        crate::radix::lemma_first_none(crate::response::pair_keys(empty), "Content-Type"@);
        assert(empty.push(ct) =~= seq![ct]);
        assert("Content-Type"@[8] != "Content-Length"@[8]);
        assert(crate::response::pair_keys(seq![ct])[0] != "Content-Length"@);
        crate::radix::lemma_first_none(crate::response::pair_keys(seq![ct]), "Content-Length"@);
        assert(seq![ct].push(("Content-Length"@, byte_count_text(s@))) =~= seq![
            ct,
            ("Content-Length"@, byte_count_text(s@)),
        ]);
    }
    r
}

fn bytes_body(b: &[u8]) -> (r: HttpResponse)
    ensures
        r@ == bytes_response(b@),
{
    let text = utf8_lossy(b);
    let mut r = text_body(text.as_str());
    set_header(&mut r.headers, "Content-Type".to_owned(), "application/octet-stream".to_owned());
    r
}

impl Responder for String {
    open spec fn response_of(&self) -> ResponseView {
        text_response(self@)
    }

    fn respond(&self) -> (r: ServiceResponse) {
        ServiceResponse(text_body(self.as_str()).build())
    }
}

impl Responder for &str {
    open spec fn response_of(&self) -> ResponseView {
        text_response((*self)@)
    }

    fn respond(&self) -> (r: ServiceResponse) {
        ServiceResponse(text_body(*self).build())
    }
}

/// A failure that can be shown as text.
pub trait ErrorText {
    /// The text shown.
    spec fn shown(&self) -> Seq<char>;

    fn error_text(&self) -> (r: String)
        ensures
            r@ == self.shown(),
    ;
}

impl ErrorText for String {
    open spec fn shown(&self) -> Seq<char> {
        self@
    }

    fn error_text(&self) -> (r: String) {
        self.clone()
    }
}

impl<E: ErrorText> Responder for Result<String, E> {
    /// A success is a 200 with its text; a failure is a 500 with the error's text.
    open spec fn response_of(&self) -> ResponseView {
        match self {
            Ok(s) => text_response(s@),
            Err(e) => ResponseView {
                status: StatusCode::InternalServerError,
                ..text_response(e.shown())
            },
        }
    }

    fn respond(&self) -> (r: ServiceResponse) {
        match self {
            Ok(s) => ServiceResponse(text_body(s.as_str()).build()),
            Err(e) => {
                let text = e.error_text();
                ServiceResponse(
                    text_body(text.as_str()).with_status(StatusCode::InternalServerError).build(),
                )
            },
        }
    }
}

impl Responder for HttpResponse {
    open spec fn response_of(&self) -> ResponseView {
        self@
    }

    fn respond(&self) -> (r: ServiceResponse) {
        ServiceResponse(self.render())
    }
}

impl Responder for Vec<u8> {
    open spec fn response_of(&self) -> ResponseView {
        bytes_response(self@)
    }

    fn respond(&self) -> (r: ServiceResponse) {
        ServiceResponse(bytes_body(self.as_slice()).build())
    }
}

impl Responder for &[u8] {
    open spec fn response_of(&self) -> ResponseView {
        bytes_response((*self)@)
    }

    fn respond(&self) -> (r: ServiceResponse) {
        ServiceResponse(bytes_body(*self).build())
    }
}

impl Responder for (StatusCode, String) {
    open spec fn response_of(&self) -> ResponseView {
        ResponseView { status: self.0, ..sized_response(self.1@) }
    }

    fn respond(&self) -> (r: ServiceResponse) {
        ServiceResponse(HttpResponse::with_body(self.1.as_str()).with_status(self.0).build())
    }
}

impl Responder for (StatusCode, Vec<(String, String)>, String) {
    /// The given headers are set over the Content-Length of the body.
    open spec fn response_of(&self) -> ResponseView {
        ResponseView {
            status: self.0,
            headers: headers_merge(sized_response(self.2@).headers, pairs_view(self.1@)),
            ..sized_response(self.2@)
        }
    }

    fn respond(&self) -> (r: ServiceResponse) {
        let mut resp = HttpResponse::with_body(self.2.as_str()).with_status(self.0);
        let ghost base = pairs_view(resp.headers@);
        let mut i: usize = 0;
        while i < self.1.len()
            invariant
                i <= self.1@.len(),
                resp@.status == self.0,
                resp@.body == Some(self.2@),
                resp@.version == empty_response().version,
                pairs_view(resp.headers@) == headers_merge(
                    base,
                    pairs_view(self.1@).take(i as int),
                ),
            decreases self.1@.len() - i,
        {
            set_header(&mut resp.headers, self.1[i].0.clone(), self.1[i].1.clone());
            proof {
                let more = pairs_view(self.1@);
                assert(more.take(i + 1).drop_last() =~= more.take(i as int));
            }
            i = i + 1;
        }
        proof {
            assert(pairs_view(self.1@).take(self.1@.len() as int) =~= pairs_view(self.1@));
            assert(resp@ == self.response_of());
        }
        ServiceResponse(resp.build())
    }
}

impl Responder for () {
    open spec fn response_of(&self) -> ResponseView {
        empty_response()
    }

    fn respond(&self) -> (r: ServiceResponse) {
        ServiceResponse(HttpResponse::new().build())
    }
}

/// A redirect to a location.
pub struct Redirect(pub String);

impl Responder for Redirect {
    /// A 302 with a Location header and a short body, without Content-Length.
    open spec fn response_of(&self) -> ResponseView {
        ResponseView {
            status: StatusCode::Found,
            headers: seq![("Location"@, self.0@)],
            body: Some("Redirecting to "@ + self.0@),
            ..empty_response()
        }
    }

    fn respond(&self) -> (r: ServiceResponse) {
        let mut resp = HttpResponse::new().with_status(StatusCode::Found).with_header(
            "Location",
            self.0.as_str(),
        );
        let mut body = "Redirecting to ".to_owned();
        body.append(self.0.as_str());
        resp.body = Some(body);
        proof {
            crate::radix::lemma_first_none(crate::response::pair_keys(Seq::empty()), "Location"@);
            assert(Seq::<(Seq<char>, Seq<char>)>::empty().push(("Location"@, self.0@)) =~= seq![
                ("Location"@, self.0@),
            ]);
            assert(resp@ == self.response_of());
        }
        ServiceResponse(resp.build())
    }
}

/// An HTML page.
pub struct Html(pub String);

impl Responder for Html {
    open spec fn response_of(&self) -> ResponseView {
        ResponseView {
            headers: header_set(
                text_response(self.0@).headers,
                "Content-Type"@,
                "text/html; charset=utf-8"@,
            ),
            ..text_response(self.0@)
        }
    }

    fn respond(&self) -> (r: ServiceResponse) {
        ServiceResponse(
            text_body(self.0.as_str()).with_header("Content-Type", "text/html; charset=utf-8").build(),
        )
    }
}

/// A plain text document.
pub struct Text(pub String);

impl Responder for Text {
    open spec fn response_of(&self) -> ResponseView {
        ResponseView {
            headers: header_set(
                text_response(self.0@).headers,
                "Content-Type"@,
                "text/plain; charset=utf-8"@,
            ),
            ..text_response(self.0@)
        }
    }

    fn respond(&self) -> (r: ServiceResponse) {
        ServiceResponse(
            text_body(self.0.as_str()).with_header("Content-Type", "text/plain; charset=utf-8").build(),
        )
    }
}

} // verus!
