use vstd::prelude::*;

use crate::params::Params;
use crate::path::strings_view;

verus! {

/// Whether `c` is an ASCII digit.
pub open spec fn is_digit(c: char) -> bool {
    '0' <= c && c <= '9'
}

/// The value of a string of ASCII digits.
pub open spec fn digits_value(d: Seq<char>) -> int
    decreases d.len(),
{
    if d.len() == 0 {
        0
    } else {
        digits_value(d.drop_last()) * 10 + (d.last() as int - '0' as int)
    }
}

/// All characters are ASCII digits.
pub open spec fn all_digits(d: Seq<char>) -> bool {
    forall|i: int| 0 <= i < d.len() ==> is_digit(#[trigger] d[i])
}

/// The text after an optional leading sign.
pub open spec fn unsigned_part(s: Seq<char>) -> Seq<char> {
    if s.len() > 0 && (s[0] == '-' || s[0] == '+') {
        s.drop_first()
    } else {
        s
    }
}

/// The value that a text denotes, sign included, if its digits are digits.
pub open spec fn signed_value(s: Seq<char>) -> int {
    if s.len() > 0 && s[0] == '-' {
        -digits_value(unsigned_part(s))
    } else {
        digits_value(unsigned_part(s))
    }
}

/// The integer that a text denotes in the usual decimal notation of `i32`:
/// an optional `+` or `-`, then one or more ASCII digits, with the value in
/// range; nothing for any other text.
pub open spec fn parsed_i32(s: Seq<char>) -> Option<i32> {
    if unsigned_part(s).len() > 0 && all_digits(unsigned_part(s)) && i32::MIN <= signed_value(s)
        <= i32::MAX {
        Some(signed_value(s) as i32)
    } else {
        None
    }
}

pub(crate) proof fn lemma_digits_grow(d: Seq<char>, i: int, j: int)
    requires
        0 <= i <= j <= d.len(),
        forall|k: int| 0 <= k < d.len() ==> is_digit(#[trigger] d[k]),
    ensures
        digits_value(d.take(i)) <= digits_value(d.take(j)),
        digits_value(d.take(i)) >= 0,
    decreases j - i,
{
    if i < j {
        lemma_digits_grow(d, i, j - 1);
        assert(d.take(j).drop_last() =~= d.take(j - 1));
        assert(d.take(j).last() == d[j - 1]);
    } else {
        lemma_digits_nonneg(d.take(i));
    }
}

proof fn lemma_digits_nonneg(d: Seq<char>)
    requires
        forall|k: int| 0 <= k < d.len() ==> is_digit(#[trigger] d[k]),
    ensures
        digits_value(d) >= 0,
    decreases d.len(),
{
    if d.len() > 0 {
        lemma_digits_nonneg(d.drop_last());
        assert(d.last() == d[d.len() - 1]);
    }
}

/// Reads a decimal `i32`, as `str::parse::<i32>` does.
pub fn parse_i32(s: &str) -> (r: Option<i32>)
    ensures
        r == parsed_i32(s@),
{
    let n = s.unicode_len();
    if n == 0 {
        return None;
    }
    let first = s.get_char(0);
    let neg = first == '-';
    let start: usize = if first == '-' || first == '+' {
        1
    } else {
        0
    };
    let ghost digits = s@.subrange(start as int, n as int);
    proof {
        if start == 1 {
            assert(digits =~= s@.drop_first());
        } else {
            assert(digits =~= s@);
        }
        assert(unsigned_part(s@) == digits);
    }
    if start == n {
        return None;
    }
    // the magnitude allowed: 2^31 for a negative number, 2^31 - 1 otherwise
    let limit: i64 = if neg {
        2147483648
    } else {
        2147483647
    };
    let mut acc: i64 = 0;
    let mut i: usize = start;
    while i < n
        invariant
            start <= i <= n,
            n == s@.len(),
            digits == s@.subrange(start as int, n as int),
            digits == unsigned_part(s@),
            neg == (s@.len() > 0 && s@[0] == '-'),
            limit == if neg {
                2147483648i64
            } else {
                2147483647i64
            },
            forall|k: int| 0 <= k < i - start ==> is_digit(#[trigger] digits[k]),
            acc == digits_value(digits.take(i - start)),
            0 <= acc <= limit,
        decreases n - i,
    {
        let c = s.get_char(i);
        proof {
            assert(digits[i - start] == c);
        }
        if !('0' <= c && c <= '9') {
            proof {
                assert(!is_digit(digits[i - start]));
                assert(!all_digits(digits));
                assert(parsed_i32(s@) is None);
            }
            return None;
        }
        let d = (c as u32 - '0' as u32) as i64;
        proof {
            assert(digits.take(i - start + 1).drop_last() =~= digits.take(i - start));
            assert(digits.take(i - start + 1).last() == c);
        }
        if acc > (limit - d) / 10 {
            proof {
                assert(acc * 10 + d > limit) by (nonlinear_arith)
                    requires
                        acc > (limit - d) / 10,
                        0 <= d <= 9,
                        limit > 0,
                ;
                // a value already past the limit only grows with more digits
                let i2 = i - start + 1;
                assert forall|k: int| 0 <= k < i2 implies is_digit(#[trigger] digits.take(i2)[k]) by {
                    assert(digits.take(i2)[k] == digits[k]);
                }
                assert(digits_value(digits.take(i2)) == acc * 10 + d);
                if all_digits(digits) {
                    lemma_digits_grow(digits, i2, digits.len() as int);
                    assert(digits.take(digits.len() as int) =~= digits);
                    assert(digits_value(digits) > limit);
                    if neg {
                        assert(signed_value(s@) < i32::MIN);
                    } else {
                        assert(signed_value(s@) > i32::MAX);
                    }
                }
                assert(parsed_i32(s@) is None);
            }
            return None;
        }
        acc = acc * 10 + d;
        i = i + 1;
    }
    proof {
        assert(digits.take(n - start) =~= digits);
    }
    if neg {
        Some((-acc) as i32)
    } else {
        Some(acc as i32)
    }
}

/// Why a handler's arguments could not be had.
#[derive(Clone, Copy, Debug, PartialEq, Eq, Structural)]
pub enum ExtractError {
    /// The shared state holds no value of the type asked for.
    MissingState,
    /// No parameter of the name asked for was bound.
    ParamMissing,
    /// The parameter's text does not read as the type asked for.
    ParamParseError,
}

/// A value of the application's shared state.
pub struct Data<T>(pub T);

/// A value read from the path.
pub struct Path<T>(pub T);

/// A type that one path parameter can be read as.
pub trait FromParam: Sized {
    /// `r` is what text `s` reads as: the value, or nothing where it does not read.
    spec fn reads_as(s: Seq<char>, r: Option<Self>) -> bool;

    fn from_param(s: &str) -> (r: Option<Self>)
        ensures
            Self::reads_as(s@, r),
    ;
}

impl FromParam for i32 {
    open spec fn reads_as(s: Seq<char>, r: Option<Self>) -> bool {
        r == parsed_i32(s)
    }

    fn from_param(s: &str) -> (r: Option<Self>) {
        parse_i32(s)
    }
}

impl FromParam for String {
    open spec fn reads_as(s: Seq<char>, r: Option<Self>) -> bool {
        r matches Some(v) && v@ == s
    }

    fn from_param(s: &str) -> (r: Option<Self>) {
        Some(s.to_owned())
    }
}

/// Reads the parameter `name` as a `P`.
pub fn path_param<P: FromParam>(params: &Params, name: &str) -> (r: Result<Path<P>, ExtractError>)
    requires
        params.wf(),
    ensures
        !params@.contains_key(name@) ==> r == Err::<Path<P>, ExtractError>(ExtractError::ParamMissing),
        params@.contains_key(name@) ==> match r {
            Ok(p) => P::reads_as(params@[name@], Some(p.0)),
            Err(e) => e == ExtractError::ParamParseError && P::reads_as(params@[name@], None),
        },
{
    match params.get(name) {
        None => Err(ExtractError::ParamMissing),
        Some(text) => match P::from_param(text.as_str()) {
            Some(v) => Ok(Path(v)),
            None => Err(ExtractError::ParamParseError),
        },
    }
}

/// The shared state's value, where there is one.
pub fn shared_state<T>(state: Option<T>) -> (r: Result<Data<T>, ExtractError>)
    ensures
        match state {
            Some(v) => r matches Ok(d) && d.0 == v,
            None => r == Err::<Data<T>, ExtractError>(ExtractError::MissingState),
        },
{
    match state {
        Some(v) => Ok(Data(v)),
        None => Err(ExtractError::MissingState),
    }
}

/// The arguments of a handler that takes a value of the shared state and
/// one path parameter: the state is looked at first, then the parameter.
pub fn state_and_param<T, P: FromParam>(state: Option<T>, params: &Params, name: &str) -> (r: Result<
    (Data<T>, Path<P>),
    ExtractError,
>)
    requires
        params.wf(),
    ensures
        state is None ==> r == Err::<(Data<T>, Path<P>), ExtractError>(ExtractError::MissingState),
        state is Some && !params@.contains_key(name@) ==> r == Err::<(Data<T>, Path<P>), ExtractError>(
            ExtractError::ParamMissing,
        ),
        state is Some && params@.contains_key(name@) ==> match r {
            Ok(args) => args.0.0 == state->0 && P::reads_as(params@[name@], Some(args.1.0)),
            Err(e) => e == ExtractError::ParamParseError && P::reads_as(params@[name@], None),
        },
{
    let data = match shared_state(state) {
        Ok(d) => d,
        Err(e) => return Err(e),
    };
    match path_param(params, name) {
        Ok(p) => Ok((data, p)),
        Err(e) => Err(e),
    }
}

/// A type that path segments can be read as, one segment per field.
pub trait FromPathSegments: Sized {
    /// `r` is what the segments read as.
    spec fn segments_read_as(segs: Seq<Seq<char>>, r: Option<Self>) -> bool;

    fn from_segments(segments: &[String]) -> (r: Option<Self>)
        ensures
            Self::segments_read_as(strings_view(segments@), r),
    ;
}

impl FromPathSegments for i32 {
    open spec fn segments_read_as(segs: Seq<Seq<char>>, r: Option<Self>) -> bool {
        if segs.len() < 1 {
            r is None
        } else {
            r == parsed_i32(segs[0])
        }
    }

    fn from_segments(segments: &[String]) -> (r: Option<Self>) {
        if segments.len() < 1 {
            return None;
        }
        parse_i32(segments[0].as_str())
    }
}

impl FromPathSegments for (i32, String) {
    open spec fn segments_read_as(segs: Seq<Seq<char>>, r: Option<Self>) -> bool {
        if segs.len() < 2 || parsed_i32(segs[0]) is None {
            r is None
        } else {
            r matches Some(v) && Some(v.0) == parsed_i32(segs[0]) && v.1@ == segs[1]
        }
    }

    fn from_segments(segments: &[String]) -> (r: Option<Self>) {
        if segments.len() < 2 {
            return None;
        }
        let id = match parse_i32(segments[0].as_str()) {
            Some(v) => v,
            None => return None,
        };
        Some((id, segments[1].clone()))
    }
}

impl FromPathSegments for (i32, i32) {
    open spec fn segments_read_as(segs: Seq<Seq<char>>, r: Option<Self>) -> bool {
        if segs.len() < 2 || parsed_i32(segs[0]) is None || parsed_i32(segs[1]) is None {
            r is None
        } else {
            r == Some((parsed_i32(segs[0])->0, parsed_i32(segs[1])->0))
        }
    }

    fn from_segments(segments: &[String]) -> (r: Option<Self>) {
        if segments.len() < 2 {
            return None;
        }
        let a = match parse_i32(segments[0].as_str()) {
            Some(v) => v,
            None => return None,
        };
        let b = match parse_i32(segments[1].as_str()) {
            Some(v) => v,
            None => return None,
        };
        Some((a, b))
    }
}

impl FromPathSegments for (String, String) {
    open spec fn segments_read_as(segs: Seq<Seq<char>>, r: Option<Self>) -> bool {
        if segs.len() < 2 {
            r is None
        } else {
            r matches Some(v) && v.0@ == segs[0] && v.1@ == segs[1]
        }
    }

    fn from_segments(segments: &[String]) -> (r: Option<Self>) {
        if segments.len() < 2 {
            return None;
        }
        Some((segments[0].clone(), segments[1].clone()))
    }
}

impl FromPathSegments for (i32, String, String) {
    open spec fn segments_read_as(segs: Seq<Seq<char>>, r: Option<Self>) -> bool {
        if segs.len() < 3 || parsed_i32(segs[0]) is None {
            r is None
        } else {
            r matches Some(v) && Some(v.0) == parsed_i32(segs[0]) && v.1@ == segs[1] && v.2@ == segs[2]
        }
    }

    fn from_segments(segments: &[String]) -> (r: Option<Self>) {
        if segments.len() < 3 {
            return None;
        }
        let id = match parse_i32(segments[0].as_str()) {
            Some(v) => v,
            None => return None,
        };
        Some((id, segments[1].clone(), segments[2].clone()))
    }
}

/// The arguments of a handler that takes a value of the shared state and a
/// value read from path segments (a number, or a tuple of them and texts):
/// the state is looked at first, then the segments.
pub fn state_and_segments<T, P: FromPathSegments>(state: Option<T>, segments: &[String]) -> (r:
    Result<(Data<T>, Path<P>), ExtractError>)
    ensures
        state is None ==> r == Err::<(Data<T>, Path<P>), ExtractError>(ExtractError::MissingState),
        state is Some ==> match r {
            Ok(args) => args.0.0 == state->0 && P::segments_read_as(
                strings_view(segments@),
                Some(args.1.0),
            ),
            Err(e) => e == ExtractError::ParamParseError && P::segments_read_as(
                strings_view(segments@),
                None,
            ),
        },
{
    let data = match shared_state(state) {
        Ok(d) => d,
        Err(e) => return Err(e),
    };
    match P::from_segments(segments) {
        Some(p) => Ok((data, Path(p))),
        None => Err(ExtractError::ParamParseError),
    }
}

} // verus!
