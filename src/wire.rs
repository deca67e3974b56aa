use vstd::prelude::*;
use vstd::utf8::{decode_utf8, valid_utf8};

use crate::extract::{all_digits, digits_value, is_digit, lemma_digits_grow};
use crate::path::strings_view;
use crate::request::{split_on, split_on_char};

verus! {

/// The bytes at `p` are CR LF CR LF, the blank line that ends a head.
pub open spec fn blank_line_at(d: Seq<u8>, p: int) -> bool {
    0 <= p && p + 4 <= d.len() && d[p] == 13u8 && d[p + 1] == 10u8 && d[p + 2] == 13u8 && d[p + 3]
        == 10u8
}

/// Where the head of a message ends: just past its first CR LF CR LF.
pub fn find_headers_end(data: &[u8]) -> (r: Option<usize>)
    ensures
        match r {
            Some(e) => e >= 4 && blank_line_at(data@, e - 4) && forall|q: int|
                0 <= q < e - 4 ==> !blank_line_at(data@, q),
            None => forall|q: int| !blank_line_at(data@, q),
        },
{
    let n = data.len();
    if n < 4 {
        return None;
    }
    let mut p: usize = 0;
    while p <= n - 4
        invariant
            n == data@.len(),
            n >= 4,
            p <= n - 3,
            forall|q: int| 0 <= q < p ==> !blank_line_at(data@, q),
        decreases n - p,
    {
        if data[p] == 13 && data[p + 1] == 10 && data[p + 2] == 13 && data[p + 3] == 10 {
            return Some(p + 4);
        }
        p = p + 1;
    }
    None
}

/// The text that bytes hold, where they are valid UTF-8.
pub open spec fn utf8_text(b: Seq<u8>) -> Option<Seq<char>> {
    if valid_utf8(b) {
        Some(decode_utf8(b))
    } else {
        None
    }
}

/// Relies on `std::str::from_utf8`: it accepts exactly the valid UTF-8
/// byte strings, and gives the text they encode.
#[verifier::external_body]
fn text_of_bytes(b: &[u8]) -> (r: Option<String>)
    ensures
        match r {
            Some(s) => utf8_text(b@) == Some(s@),
            None => utf8_text(b@) is None,
        },
{
    std::str::from_utf8(b).ok().map(|s| s.to_string())
}

/// What `str::to_lowercase` makes of a text.
pub uninterp spec fn lower_of(s: Seq<char>) -> Seq<char>;

/// Relies on `str::to_lowercase`: the result depends on the text alone.
#[verifier::external_body]
fn lowercase(s: &str) -> (r: String)
    ensures
        r@ == lower_of(s@),
{
    s.to_lowercase()
}

/// The characters with the Unicode property White_Space.
pub open spec fn is_white_space(c: char) -> bool {
    let u = c as u32;
    (0x9 <= u <= 0xd) || u == 0x20 || u == 0x85 || u == 0xa0 || u == 0x1680 || (0x2000 <= u
        <= 0x200a) || u == 0x2028 || u == 0x2029 || u == 0x202f || u == 0x205f || u == 0x3000
}

/// `s` without the white space it starts with.
pub open spec fn trim_start_ws(s: Seq<char>) -> Seq<char>
    decreases s.len(),
{
    if s.len() > 0 && is_white_space(s[0]) {
        trim_start_ws(s.drop_first())
    } else {
        s
    }
}

/// `s` without the white space it ends with.
pub open spec fn trim_end_ws(s: Seq<char>) -> Seq<char>
    decreases s.len(),
{
    if s.len() > 0 && is_white_space(s.last()) {
        trim_end_ws(s.drop_last())
    } else {
        s
    }
}

/// `s` without white space at either end.
pub open spec fn trimmed_of(s: Seq<char>) -> Seq<char> {
    trim_end_ws(trim_start_ws(s))
}

/// Whether `c` has the Unicode property White_Space.
fn white_space(c: char) -> (r: bool)
    ensures
        r == is_white_space(c),
{
    let u = c as u32;
    (0x9 <= u && u <= 0xd) || u == 0x20 || u == 0x85 || u == 0xa0 || u == 0x1680 || (0x2000 <= u
        && u <= 0x200a) || u == 0x2028 || u == 0x2029 || u == 0x202f || u == 0x205f || u == 0x3000
}

/// `s` without white space at either end, as `str::trim` leaves it.
pub fn trim(s: &str) -> (r: String)
    ensures
        r@ == trimmed_of(s@),
{
    let n = s.unicode_len();
    let mut i: usize = 0;
    proof {
        assert(s@.subrange(0, n as int) =~= s@);
    }
    while i < n && white_space(s.get_char(i))
        invariant
            i <= n,
            n == s@.len(),
            trim_start_ws(s@) == trim_start_ws(s@.subrange(i as int, n as int)),
        decreases n - i,
    {
        proof {
            assert(s@.subrange(i as int, n as int).drop_first() =~= s@.subrange(i + 1, n as int));
        }
        i = i + 1;
    }
    let ghost front = s@.subrange(i as int, n as int);
    let mut j: usize = n;
    proof {
        assert(front.subrange(0, (j - i) as int) =~= front);
    }
    while j > i && white_space(s.get_char(j - 1))
        invariant
            i <= j <= n,
            n == s@.len(),
            front == s@.subrange(i as int, n as int),
            trim_start_ws(s@) == front,
            trim_end_ws(front) == trim_end_ws(s@.subrange(i as int, j as int)),
        decreases j,
    {
        proof {
            assert(s@.subrange(i as int, j as int).drop_last() =~= s@.subrange(i as int, j - 1));
        }
        j = j - 1;
    }
    s.substring_char(i, j).to_owned()
}

/// A line without its ending: one CR before the LF is dropped too.
pub open spec fn strip_cr(line: Seq<char>) -> Seq<char> {
    if line.len() > 0 && line.last() == '\r' {
        line.drop_last()
    } else {
        line
    }
}

/// The lines of a text as `str::lines` gives them: the pieces between line
/// feeds, each without a CR that ends it; a final line feed ends the last
/// line and starts none.
pub open spec fn text_lines(s: Seq<char>) -> Seq<Seq<char>> {
    let pieces = split_on(s, '\n');
    let full = pieces.drop_last();
    let lines = full.map_values(|l: Seq<char>| strip_cr(l));
    if pieces.last().len() > 0 {
        lines.push(pieces.last())
    } else {
        lines
    }
}

/// The lines of a text.
pub fn lines_of(s: &str) -> (r: Vec<String>)
    ensures
        strings_view(r@) == text_lines(s@),
{
    let pieces = split_on_char(s, '\n');
    let ghost pv = strings_view(pieces@);
    proof {
        assert(pv.len() == pieces@.len());
        assert(pv.len() > 0);
    }
    let last = pieces.len() - 1;
    let mut out: Vec<String> = Vec::new();
    let mut i: usize = 0;
    while i < last
        invariant
            i <= last,
            last == pieces@.len() - 1,
            pv == strings_view(pieces@),
            pv == split_on(s@, '\n'),
            strings_view(out@) == pv.drop_last().take(i as int).map_values(
                |l: Seq<char>| strip_cr(l),
            ),
        decreases last - i,
    {
        let line = &pieces[i];
        let n = line.as_str().unicode_len();
        let kept = if n > 0 && line.as_str().get_char(n - 1) == '\r' {
            line.as_str().substring_char(0, n - 1).to_owned()
        } else {
            line.clone()
        };
        proof {
            assert(pv[i as int] == line@);
            if n > 0 && line@.last() == '\r' {
                assert(line@.drop_last() =~= line@.subrange(0, n - 1));
            }
            assert(kept@ == strip_cr(line@));
        }
        let ghost before = out@;
        out.push(kept);
        proof {
            assert(strings_view(out@) =~= strings_view(before).push(kept@));
            assert(pv.drop_last().take(i + 1) =~= pv.drop_last().take(i as int).push(pv[i as int]));
        }
        i = i + 1;
    }
    proof {
        assert(pv.drop_last().take(last as int) =~= pv.drop_last());
        assert(pv.last() == pieces@[last as int]@);
    }
    if pieces[last].as_str().unicode_len() > 0 {
        let ghost before = out@;
        out.push(pieces[last].clone());
        proof {
            assert(strings_view(out@) =~= strings_view(before).push(pv.last()));
        }
    }
    out
}

/// The number that a text denotes in the usual decimal notation of `usize`:
/// an optional `+`, then one or more ASCII digits, with the value in range.
pub open spec fn parsed_usize(s: Seq<char>) -> Option<usize> {
    let d = if s.len() > 0 && s[0] == '+' {
        s.drop_first()
    } else {
        s
    };
    if d.len() > 0 && all_digits(d) && digits_value(d) <= usize::MAX {
        Some(digits_value(d) as usize)
    } else {
        None
    }
}

/// Reads a decimal `usize`, as `str::parse::<usize>` does.
pub fn parse_usize(s: &str) -> (r: Option<usize>)
    ensures
        r == parsed_usize(s@),
{
    let n = s.unicode_len();
    if n == 0 {
        return None;
    }
    let start: usize = if s.get_char(0) == '+' {
        1
    } else {
        0
    };
    let ghost d = s@.subrange(start as int, n as int);
    proof {
        if start == 1 {
            assert(d =~= s@.drop_first());
        } else {
            assert(d =~= s@);
        }
    }
    if start == n {
        return None;
    }
    let mut acc: usize = 0;
    let mut i: usize = start;
    while i < n
        invariant
            start <= i <= n,
            n == s@.len(),
            d == s@.subrange(start as int, n as int),
            d == (if s@.len() > 0 && s@[0] == '+' {
                s@.drop_first()
            } else {
                s@
            }),
            forall|k: int| 0 <= k < i - start ==> is_digit(#[trigger] d[k]),
            acc == digits_value(d.take(i - start)),
        decreases n - i,
    {
        let c = s.get_char(i);
        proof {
            assert(d[i - start] == c);
        }
        if !('0' <= c && c <= '9') {
            proof {
                assert(!is_digit(d[i - start]));
                assert(!all_digits(d));
            }
            return None;
        }
        let digit = (c as u32 - '0' as u32) as usize;
        proof {
            assert(d.take(i - start + 1).drop_last() =~= d.take(i - start));
            assert(d.take(i - start + 1).last() == c);
        }
        if acc > (usize::MAX - digit) / 10 {
            proof {
                assert(acc * 10 + digit > usize::MAX) by (nonlinear_arith)
                    requires
                        acc > (usize::MAX - digit) / 10,
                        0 <= digit <= 9,
                ;
                let i2 = i - start + 1;
                assert(digits_value(d.take(i2)) == acc * 10 + digit);
                if all_digits(d) {
                    lemma_digits_grow(d, i2, d.len() as int);
                    assert(d.take(d.len() as int) =~= d);
                }
            }
            return None;
        }
        acc = acc * 10 + digit;
        i = i + 1;
    }
    proof {
        assert(d.take(n - start) =~= d);
    }
    Some(acc)
}

/// Whether `s` starts with `prefix`.
pub fn starts_with(s: &str, prefix: &str) -> (r: bool)
    ensures
        r == (prefix@.len() <= s@.len() && s@.take(prefix@.len() as int) == prefix@),
{
    let n = s.unicode_len();
    let m = prefix.unicode_len();
    if m > n {
        return false;
    }
    let mut i: usize = 0;
    while i < m
        invariant
            i <= m <= n,
            n == s@.len(),
            m == prefix@.len(),
            forall|k: int| 0 <= k < i ==> s@[k] == prefix@[k],
        decreases m - i,
    {
        if s.get_char(i) != prefix.get_char(i) {
            proof {
                assert(s@.take(m as int)[i as int] != prefix@[i as int]);
            }
            return false;
        }
        i = i + 1;
    }
    proof {
        assert(s@.take(m as int) =~= prefix@);
    }
    true
}

/// The Content-Length that a header line gives: the text after its first
/// colon, up to the next, trimmed and read as a number.
pub open spec fn line_length(line: Seq<char>) -> Option<usize> {
    let parts = split_on(line, ':');
    if parts.len() > 1 {
        parsed_usize(trimmed_of(parts[1]))
    } else {
        None
    }
}

/// The first line, from the `i`-th on, whose lowercase form starts with
/// `content-length:`, and what it gives.
pub open spec fn length_from(lines: Seq<Seq<char>>, i: int) -> Option<usize>
    decreases lines.len() - i,
{
    if i < 0 || i >= lines.len() {
        None
    } else {
        let low = lower_of(lines[i]);
        if "content-length:"@.len() <= low.len() && low.take("content-length:"@.len() as int)
            == "content-length:"@ {
            line_length(lines[i])
        } else {
            length_from(lines, i + 1)
        }
    }
}

/// The Content-Length that a message head declares: read from the first
/// header line named so, in any case; nothing where the bytes are not UTF-8,
/// no such line is there, or its value does not read as a number.
pub open spec fn declared_length(headers: Seq<u8>) -> Option<usize> {
    match utf8_text(headers) {
        Some(text) => length_from(text_lines(text), 0),
        None => None,
    }
}

/// Reads the Content-Length that a message head declares.
pub fn parse_content_length(headers: &[u8]) -> (r: Option<usize>)
    ensures
        r == declared_length(headers@),
{
    let text = match text_of_bytes(headers) {
        Some(t) => t,
        None => return None,
    };
    let lines = lines_of(text.as_str());
    let ghost lv = strings_view(lines@);
    let mut i: usize = 0;
    while i < lines.len()
        invariant
            i <= lines@.len(),
            lv == strings_view(lines@),
            lv == text_lines(text@),
            utf8_text(headers@) == Some(text@),
            length_from(lv, 0) == length_from(lv, i as int),
        decreases lines@.len() - i,
    {
        let low = lowercase(lines[i].as_str());
        proof {
            assert(lv[i as int] == lines@[i as int]@);
            reveal_strlit("content-length:");
        }
        if starts_with(low.as_str(), "content-length:") {
            let parts = split_on_char(lines[i].as_str(), ':');
            proof {
                assert(strings_view(parts@).len() == parts@.len());
            }
            if parts.len() < 2 {
                return None;
            }
            proof {
                assert(strings_view(parts@)[1] == parts@[1]@);
            }
            let value = trim(parts[1].as_str());
            return parse_usize(value.as_str());
        }
        i = i + 1;
    }
    None
}

/// Where the head of `d` ends, if it does: just past its first CR LF CR LF.
pub open spec fn head_end(d: Seq<u8>) -> Option<int> {
    if exists|e: int| is_head_end(d, e) {
        Some(choose|e: int| is_head_end(d, e))
    } else {
        None
    }
}

pub open spec fn is_head_end(d: Seq<u8>, e: int) -> bool {
    e >= 4 && blank_line_at(d, e - 4) && forall|q: int| 0 <= q < e - 4 ==> !blank_line_at(d, q)
}

proof fn lemma_head_end_unique(d: Seq<u8>, e: int)
    requires
        is_head_end(d, e),
    ensures
        head_end(d) == Some(e),
{
    let w = choose|w: int| is_head_end(d, w);
    if w < e {
        assert(!blank_line_at(d, w - 4));
    } else if w > e {
        assert(!blank_line_at(d, e - 4));
    }
}

/// What to do next while reading a message.
#[derive(Clone, Copy, Debug, PartialEq, Eq, Structural)]
pub enum ReadStep {
    /// The head is not complete: read more.
    More,
    /// Read this many more bytes of body, then stop.
    Body(usize),
    /// The message is complete.
    Done,
}

/// The next step for the bytes received so far: more until the head is
/// complete; then, where the head declares a length that the body received
/// does not reach yet, the bytes still missing; otherwise the message is
/// complete.
pub open spec fn next_step(d: Seq<u8>) -> ReadStep {
    match head_end(d) {
        None => ReadStep::More,
        Some(e) => match declared_length(d.take(e)) {
            Some(n) => if n > d.len() - e {
                ReadStep::Body((n - (d.len() - e)) as usize)
            } else {
                ReadStep::Done
            },
            None => ReadStep::Done,
        },
    }
}

/// Decides the next step of reading a message from the bytes received so far.
pub fn read_step(received: &[u8]) -> (r: ReadStep)
    ensures
        r == next_step(received@),
{
    match find_headers_end(received) {
        None => {
            proof {
                if exists|e: int| is_head_end(received@, e) {
                    let e = choose|e: int| is_head_end(received@, e);
                    assert(blank_line_at(received@, e - 4));
                }
            }
            ReadStep::More
        },
        Some(end) => {
            proof {
                lemma_head_end_unique(received@, end as int);
            }
            let head = slice_prefix(received, end);
            match parse_content_length(head.as_slice()) {
                Some(n) => {
                    let have = received.len() - end;
                    if n > have {
                        ReadStep::Body(n - have)
                    } else {
                        ReadStep::Done
                    }
                },
                None => ReadStep::Done,
            }
        },
    }
}

/// The first `n` bytes.
fn slice_prefix(b: &[u8], n: usize) -> (r: Vec<u8>)
    requires
        n <= b@.len(),
    ensures
        r@ == b@.take(n as int),
{
    let mut v: Vec<u8> = Vec::new();
    let mut i: usize = 0;
    while i < n
        invariant
            i <= n <= b@.len(),
            v@ == b@.take(i as int),
        decreases n - i,
    {
        v.push(b[i]);
        proof {
            assert(b@.take(i + 1) =~= b@.take(i as int).push(b@[i as int]));
        }
        i = i + 1;
    }
    v
}

} // verus!
