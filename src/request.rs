use vstd::prelude::*;

use crate::path::strings_view;
use crate::text::{lossy_text, utf8_lossy};

verus! {

/// Reading `s` from the left and cutting at each `sep`: the pieces finished
/// so far, and the piece after the last cut.
pub open spec fn cut_state(s: Seq<char>, sep: char) -> (Seq<Seq<char>>, Seq<char>)
    decreases s.len(),
{
    if s.len() == 0 {
        (Seq::empty(), Seq::empty())
    } else {
        let (done, cur) = cut_state(s.drop_last(), sep);
        if s.last() == sep {
            (done.push(cur), Seq::empty())
        } else {
            (done, cur.push(s.last()))
        }
    }
}

/// The pieces of `s` between the separators, empty pieces kept: one more
/// piece than there are separators.
pub open spec fn split_on(s: Seq<char>, sep: char) -> Seq<Seq<char>> {
    cut_state(s, sep).0.push(cut_state(s, sep).1)
}

/// Cuts `s` at each `sep`.
pub fn split_on_char(s: &str, sep: char) -> (r: Vec<String>)
    ensures
        strings_view(r@) == split_on(s@, sep),
{
    let n = s.unicode_len();
    let mut pieces: Vec<String> = Vec::new();
    let mut start: usize = 0;
    let mut i: usize = 0;
    while i < n
        invariant
            start <= i <= n,
            n == s@.len(),
            cut_state(s@.take(i as int), sep) == (strings_view(pieces@), s@.subrange(
                start as int,
                i as int,
            )),
        decreases n - i,
    {
        let c = s.get_char(i);
        let ghost before = pieces@;
        assert(s@.take(i + 1).drop_last() =~= s@.take(i as int));
        if c == sep {
            let piece = s.substring_char(start, i);
            pieces.push(piece.to_owned());
            assert(strings_view(pieces@) =~= strings_view(before).push(piece@));
            start = i + 1;
            assert(s@.subrange(start as int, i + 1) =~= Seq::<char>::empty());
        } else {
            assert(s@.subrange(start as int, i as int).push(c) =~= s@.subrange(
                start as int,
                i + 1,
            ));
        }
        i = i + 1;
    }
    assert(s@.take(n as int) =~= s@);
    let piece = s.substring_char(start, n);
    let ghost before = pieces@;
    pieces.push(piece.to_owned());
    assert(strings_view(pieces@) =~= strings_view(before).push(piece@));
    pieces
}

/// The path of a URI: what comes before the first `?`.
pub open spec fn uri_path(uri: Seq<char>) -> Seq<char> {
    split_on(uri, '?')[0]
}

/// The query pieces of a URI: the text between the first and the second `?`,
/// cut at each `&`; none where there is no `?`.
pub open spec fn uri_query(uri: Seq<char>) -> Seq<Seq<char>> {
    if split_on(uri, '?').len() > 1 {
        split_on(split_on(uri, '?')[1], '&')
    } else {
        Seq::empty()
    }
}

/// Splits a URI into its path and its query pieces.
pub fn parse_uri(uri: &str) -> (r: (String, Vec<String>))
    ensures
        r.0@ == uri_path(uri@),
        strings_view(r.1@) == uri_query(uri@),
{
    let parts = split_on_char(uri, '?');
    proof {
        assert(split_on(uri@, '?').len() > 0);
        assert(strings_view(parts@).len() == parts@.len());
        assert(strings_view(parts@)[0] == parts@[0]@);
    }
    let path = parts[0].clone();
    let query = if parts.len() > 1 {
        proof {
            assert(strings_view(parts@)[1] == parts@[1]@);
        }
        split_on_char(parts[1].as_str(), '&')
    } else {
        let v: Vec<String> = Vec::new();
        proof {
            assert(strings_view(v@) =~= Seq::<Seq<char>>::empty());
        }
        v
    };
    (path, query)
}

/// The head of a request as the parser read it: request line, headers, and
/// the number of bytes they took.
pub struct RequestHead {
    pub method: Option<String>,
    pub path: Option<String>,
    pub version: Option<u8>,
    pub headers: Vec<(String, Vec<u8>)>,
    pub len: usize,
}

pub struct HeadFields {
    pub method: Option<Seq<char>>,
    pub path: Option<Seq<char>>,
    pub version: Option<u8>,
    pub headers: Seq<(Seq<char>, Seq<u8>)>,
    pub len: usize,
}

pub open spec fn opt_view(o: Option<String>) -> Option<Seq<char>> {
    match o {
        Some(s) => Some(s@),
        None => None,
    }
}

impl View for RequestHead {
    type V = HeadFields;

    open spec fn view(&self) -> HeadFields {
        HeadFields {
            method: opt_view(self.method),
            path: opt_view(self.path),
            version: self.version,
            headers: self.headers@.map_values(|h: (String, Vec<u8>)| (h.0@, h.1@)),
            len: self.len,
        }
    }
}

/// How reading a request head went.
pub enum HeadParse {
    Complete(RequestHead),
    /// The bytes end before the head does.
    Partial,
    /// The bytes are not a request head.
    Invalid,
}

pub enum HeadOutcome {
    Complete(HeadFields),
    Partial,
    Invalid,
}

impl View for HeadParse {
    type V = HeadOutcome;

    open spec fn view(&self) -> HeadOutcome {
        match self {
            HeadParse::Complete(h) => HeadOutcome::Complete(h@),
            HeadParse::Partial => HeadOutcome::Partial,
            HeadParse::Invalid => HeadOutcome::Invalid,
        }
    }
}

/// What httparse reads from the bytes of a request, with room for sixteen headers.
pub uninterp spec fn http_head(buf: Seq<u8>) -> HeadOutcome;

/// Relies on `httparse::Request::parse` over sixteen header slots: the
/// outcome depends on the bytes alone; a complete head has its method, path
/// and version, at most sixteen headers, and ends within the bytes.
#[verifier::external_body]
fn read_head(buf: &[u8]) -> (r: HeadParse)
    ensures
        r@ == http_head(buf@),
        r matches HeadParse::Complete(h) ==> h.len <= buf@.len() && h.headers@.len() <= 16
            && h.method is Some && h.path is Some && h.version is Some,
{
    let mut headers = [httparse::EMPTY_HEADER; 16];
    let mut req = httparse::Request::new(&mut headers);
    match req.parse(buf) {
        Ok(httparse::Status::Complete(len)) => HeadParse::Complete(RequestHead {
            method: req.method.map(|m| m.to_string()),
            path: req.path.map(|p| p.to_string()),
            version: req.version,
            headers: req.headers.iter().map(|h| (h.name.to_string(), h.value.to_vec())).collect(),
            len,
        }),
        Ok(httparse::Status::Partial) => HeadParse::Partial,
        Err(_) => HeadParse::Invalid,
    }
}

/// A request as the server sees it.
pub struct HttpRequest {
    pub method: Option<String>,
    pub uri: Option<String>,
    pub version: Option<u8>,
    pub headers: Vec<(String, String)>,
    /// The query pieces of the URI.
    pub params: Vec<String>,
}

/// The headers of a request, values read as text.
pub open spec fn header_texts(hs: Seq<(Seq<char>, Seq<u8>)>) -> Seq<(Seq<char>, Seq<char>)> {
    hs.map_values(|h: (Seq<char>, Seq<u8>)| (h.0, lossy_text(h.1)))
}

impl HttpRequest {
    /// A request with nothing read yet.
    pub fn new() -> (r: Self)
        ensures
            r.method is None,
            r.uri is None,
            r.version is None,
            r.headers@.len() == 0,
            r.params@.len() == 0,
    {
        HttpRequest {
            method: None,
            uri: None,
            version: None,
            headers: Vec::new(),
            params: Vec::new(),
        }
    }

    /// Takes in a head that was read: the method, the URI and its query
    /// pieces, the version where the head has them, and its headers, whose
    /// values are read as text.
    pub fn apply_head(&mut self, head: RequestHead)
        ensures
            opt_view(final(self).method) == if head.method is Some {
                opt_view(head.method)
            } else {
                opt_view(old(self).method)
            },
            opt_view(final(self).uri) == if head.path is Some {
                opt_view(head.path)
            } else {
                opt_view(old(self).uri)
            },
            strings_view(final(self).params@) == if head.path is Some {
                uri_query(head.path->0@)
            } else {
                strings_view(old(self).params@)
            },
            final(self).version == if head.version is Some {
                head.version
            } else {
                old(self).version
            },
            crate::response::pairs_view(final(self).headers@) == header_texts(head@.headers),
    {
        let RequestHead { method, path, version, headers, len: _ } = head;
        if method.is_some() {
            self.method = method;
        }
        match path {
            Some(p) => {
                let (_, query) = parse_uri(p.as_str());
                self.uri = Some(p);
                self.params = query;
            },
            None => {},
        }
        if version.is_some() {
            self.version = version;
        }
        let mut out: Vec<(String, String)> = Vec::new();
        let ghost hv = headers@.map_values(|h: (String, Vec<u8>)| (h.0@, h.1@));
        let mut i: usize = 0;
        while i < headers.len()
            invariant
                i <= headers@.len(),
                hv == headers@.map_values(|h: (String, Vec<u8>)| (h.0@, h.1@)),
                crate::response::pairs_view(out@) == header_texts(hv).take(i as int),
            decreases headers@.len() - i,
        {
            let name = headers[i].0.clone();
            let value = utf8_lossy(headers[i].1.as_slice());
            let ghost before = out@;
            out.push((name, value));
            proof {
                assert(hv[i as int] == (headers@[i as int].0@, headers@[i as int].1@));
                assert(header_texts(hv)[i as int] == (name@, value@));
                assert(crate::response::pairs_view(out@) =~= crate::response::pairs_view(before).push((name@, value@)));
                assert(header_texts(hv).take(i + 1) =~= header_texts(hv).take(i as int).push(header_texts(hv)[i as int]));
                assert(crate::response::pairs_view(out@) =~= header_texts(hv).take(i + 1));
            }
            i = i + 1;
        }
        proof {
            assert(header_texts(hv).take(headers@.len() as int) =~= header_texts(hv));
        }
        self.headers = out;
    }

    /// Reads the head of a request from `buffer`. On success returns where
    /// the body starts and takes the head in, as `apply_head` does; an
    /// incomplete or malformed head leaves the request as it was.
    pub fn parse(&mut self, buffer: &[u8]) -> (r: Result<usize, &'static str>)
        ensures
            match http_head(buffer@) {
                HeadOutcome::Complete(h) => r == Ok::<usize, &'static str>(h.len) && h.len
                    <= buffer@.len() && opt_view(final(self).method) == h.method && opt_view(
                    final(self).uri,
                ) == h.path && final(self).version == h.version && strings_view(final(self).params@)
                    == uri_query(h.path->0) && crate::response::pairs_view(final(self).headers@)
                    == header_texts(h.headers),
                HeadOutcome::Partial => r == Err::<usize, &'static str>("Incomplete HTTP request")
                    && *final(self) == *old(self),
                HeadOutcome::Invalid => r == Err::<usize, &'static str>("Failed to parse HTTP request")
                    && *final(self) == *old(self),
            },
    {
        match read_head(buffer) {
            HeadParse::Complete(head) => {
                let len = head.len;
                self.apply_head(head);
                Ok(len)
            },
            HeadParse::Partial => Err("Incomplete HTTP request"),
            HeadParse::Invalid => Err("Failed to parse HTTP request"),
        }
    }
}

impl Default for HttpRequest {
    fn default() -> (r: Self)
        ensures
            r.method is None,
            r.uri is None,
            r.version is None,
            r.headers@.len() == 0,
            r.params@.len() == 0,
    {
        Self::new()
    }
}

} // verus!
