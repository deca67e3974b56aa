use vstd::prelude::*;
use vstd::string::StringExecFns;

use crate::params::Params;
use crate::path::strings_view;
use crate::request::{split_on, split_on_char};

verus! {

/// `s` without the `c`s it starts with.
pub open spec fn strip_leading(s: Seq<char>, c: char) -> Seq<char>
    decreases s.len(),
{
    if s.len() > 0 && s[0] == c {
        strip_leading(s.drop_first(), c)
    } else {
        s
    }
}

/// `s` without the `c`s it ends with.
pub open spec fn strip_trailing(s: Seq<char>, c: char) -> Seq<char>
    decreases s.len(),
{
    if s.len() > 0 && s.last() == c {
        strip_trailing(s.drop_last(), c)
    } else {
        s
    }
}

/// The characters that have a meaning in a regular expression.
pub open spec fn is_meta_character(c: char) -> bool {
    c == '\\' || c == '.' || c == '+' || c == '*' || c == '?' || c == '(' || c == ')' || c == '|'
        || c == '[' || c == ']' || c == '{' || c == '}' || c == '^' || c == '$' || c == '#' || c
        == '&' || c == '-' || c == '~'
}

/// A pattern that matches exactly the text: each meta character is preceded
/// by a backslash.
pub open spec fn escaped(s: Seq<char>) -> Seq<char>
    decreases s.len(),
{
    if s.len() == 0 {
        Seq::empty()
    } else if is_meta_character(s.last()) {
        escaped(s.drop_last()) + seq!['\\', s.last()]
    } else {
        escaped(s.drop_last()).push(s.last())
    }
}

/// Relies on `regex::escape`, which puts a backslash before each character
/// that `regex_syntax::is_meta_character` lists and keeps the others.
#[verifier::external_body]
fn escape(s: &str) -> (r: String)
    ensures
        r@ == escaped(s@),
{
    regex::escape(s)
}

/// The pattern of one template segment: a parameter matches one path
/// segment; a literal matches itself.
pub open spec fn segment_regex(seg: Seq<char>) -> Seq<char> {
    if seg.len() > 0 && seg[0] == ':' {
        "([^/]+)"@
    } else {
        escaped(seg)
    }
}

/// The parameter names of template segments, in order, leading colons dropped.
pub open spec fn names_of(segs: Seq<Seq<char>>) -> Seq<Seq<char>>
    decreases segs.len(),
{
    if segs.len() == 0 {
        Seq::empty()
    } else {
        let rest = names_of(segs.drop_last());
        let s = segs.last();
        if s.len() > 0 && s[0] == ':' {
            rest.push(strip_leading(s, ':'))
        } else {
            rest
        }
    }
}

/// The pieces joined, with a slash between each two.
pub open spec fn join_slash(parts: Seq<Seq<char>>) -> Seq<char>
    decreases parts.len(),
{
    if parts.len() == 0 {
        Seq::empty()
    } else if parts.len() == 1 {
        parts[0]
    } else {
        join_slash(parts.drop_last()) + "/"@ + parts.last()
    }
}

/// The template's segments: what lies between slashes once the slashes at
/// both ends are gone, empty pieces kept.
pub open spec fn template_pieces(t: Seq<char>) -> Seq<Seq<char>> {
    split_on(strip_trailing(strip_leading(t, '/'), '/'), '/')
}

/// The regular expression of a template, anchored at both ends, and its
/// parameter names in the order of their capture groups.
pub open spec fn template_regex(t: Seq<char>) -> (Seq<char>, Seq<Seq<char>>) {
    if t == "/"@ {
        ("^/$"@, Seq::empty())
    } else {
        let segs = template_pieces(t);
        (
            "^/"@ + join_slash(segs.map_values(|s: Seq<char>| segment_regex(s))) + "$"@,
            names_of(segs),
        )
    }
}

/// `s` without the `c`s at its start.
fn trim_start_char(s: &str, c: char) -> (r: String)
    ensures
        r@ == strip_leading(s@, c),
{
    let n = s.unicode_len();
    let mut i: usize = 0;
    proof {
        assert(s@.subrange(0, n as int) =~= s@);
    }
    while i < n && s.get_char(i) == c
        invariant
            i <= n,
            n == s@.len(),
            strip_leading(s@, c) == strip_leading(s@.subrange(i as int, n as int), c),
        decreases n - i,
    {
        proof {
            assert(s@.subrange(i as int, n as int).drop_first() =~= s@.subrange(i + 1, n as int));
        }
        i = i + 1;
    }
    s.substring_char(i, n).to_owned()
}

/// `s` without the `c`s at its end.
fn trim_end_char(s: &str, c: char) -> (r: String)
    ensures
        r@ == strip_trailing(s@, c),
{
    let n = s.unicode_len();
    let mut j: usize = n;
    proof {
        assert(s@.subrange(0, n as int) =~= s@);
    }
    while j > 0 && s.get_char(j - 1) == c
        invariant
            j <= n,
            n == s@.len(),
            strip_trailing(s@, c) == strip_trailing(s@.subrange(0, j as int), c),
        decreases j,
    {
        proof {
            assert(s@.subrange(0, j as int).drop_last() =~= s@.subrange(0, j - 1));
        }
        j = j - 1;
    }
    s.substring_char(0, j).to_owned()
}

/// Turns a route template into a regular expression that matches exactly
/// the paths of the template, with one capture group per parameter, and the
/// parameter names in group order.
pub fn template_to_regex(template: &str) -> (r: (String, Vec<String>))
    ensures
        r.0@ == template_regex(template@).0,
        strings_view(r.1@) == template_regex(template@).1,
{
    proof {
        reveal_strlit("/");
        reveal_strlit("^/$");
    }
    let n = template.unicode_len();
    if n == 1 && template.get_char(0) == '/' {
        proof {
            assert(template@ =~= "/"@);
        }
        let names: Vec<String> = Vec::new();
        proof {
            assert(strings_view(names@) =~= Seq::<Seq<char>>::empty());
        }
        return ("^/$".to_owned(), names);
    }
    proof {
        if template@ == "/"@ {
            assert(template@.len() == 1);
        }
    }
    let lead = trim_start_char(template, '/');
    let trimmed = trim_end_char(lead.as_str(), '/');
    let segs = split_on_char(trimmed.as_str(), '/');
    let ghost sv = strings_view(segs@);
    let mut body = String::new();
    let mut names: Vec<String> = Vec::new();
    let mut i: usize = 0;
    while i < segs.len()
        invariant
            i <= segs@.len(),
            sv == strings_view(segs@),
            sv == template_pieces(template@),
            body@ == join_slash(sv.take(i as int).map_values(|s: Seq<char>| segment_regex(s))),
            strings_view(names@) == names_of(sv.take(i as int)),
        decreases segs@.len() - i,
    {
        let seg = segs[i].as_str();
        proof {
            assert(sv[i as int] == seg@);
            assert(sv.take(i + 1).drop_last() =~= sv.take(i as int));
            assert(sv.take(i + 1).last() == seg@);
            assert(sv.take(i + 1).map_values(|s: Seq<char>| segment_regex(s)).drop_last()
                =~= sv.take(i as int).map_values(|s: Seq<char>| segment_regex(s)));
        }
        if i > 0 {
            body.append("/");
        }
        let ghost names_before = names@;
        let m = seg.unicode_len();
        if m > 0 && seg.get_char(0) == ':' {
            body.append("([^/]+)");
            names.push(trim_start_char(seg, ':'));
            proof {
                assert(strings_view(names@) =~= strings_view(names_before).push(strip_leading(seg@, ':')));
            }
        } else {
            let e = escape(seg);
            body.append(e.as_str());
        }
        proof {
            let parts = sv.take(i + 1).map_values(|s: Seq<char>| segment_regex(s));
            assert(parts.last() == segment_regex(seg@));
            assert(body@ =~= join_slash(parts));
        }
        i = i + 1;
    }
    proof {
        assert(sv.take(segs@.len() as int) =~= sv);
    }
    let mut re = "^/".to_owned();
    re.append(body.as_str());
    re.append("$");
    (re, names)
}

/// `regex::Regex`, a compiled regular expression, carried as an opaque value.
#[verifier::external_type_specification]
#[verifier::external_body]
pub struct ExRegex(regex::Regex);

/// Whether a text is a regular expression that the regex crate compiles.
pub uninterp spec fn compiles(pattern: Seq<char>) -> bool;

/// Relies on `regex::Regex::new`: whether it compiles depends on the text alone.
#[verifier::external_body]
fn compile(pattern: &str) -> (r: Option<regex::Regex>)
    ensures
        r is Some <==> compiles(pattern@),
{
    regex::Regex::new(pattern).ok()
}

/// What matching the pattern against a text gives: nothing where it does
/// not match, else the text of each capture group of the first match (group
/// 0 being the whole match), nothing for a group that took no part.
pub uninterp spec fn captures_of(pattern: Seq<char>, text: Seq<char>) -> Option<
    Seq<Option<Seq<char>>>,
>;

/// A compiled regular expression with the pattern it was compiled from.
/// Only `CompiledRegex::new` makes one, so the two always belong together.
pub struct CompiledRegex {
    regex: regex::Regex,
    source: String,
}

impl CompiledRegex {
    /// The pattern the expression was compiled from.
    pub closed spec fn source(&self) -> Seq<char> {
        self.source@
    }

    /// Compiles `pattern`, where it is a valid regular expression.
    pub fn new(pattern: &str) -> (r: Option<Self>)
        ensures
            r is Some <==> compiles(pattern@),
            r matches Some(c) ==> c.source() == pattern@,
    {
        match compile(pattern) {
            Some(regex) => Some(CompiledRegex { regex, source: pattern.to_owned() }),
            None => None,
        }
    }
}

pub open spec fn groups_view(g: Seq<Option<String>>) -> Seq<Option<Seq<char>>> {
    g.map_values(|o: Option<String>| match o {
        Some(s) => Some(s@),
        None => None,
    })
}

/// Relies on `regex::Regex::captures`, on an expression compiled from
/// `re.source()`: the result depends on the pattern and the text alone;
/// the groups are handed out as their texts.
#[verifier::external_body]
fn capture_groups(re: &CompiledRegex, text: &str) -> (r: Option<Vec<Option<String>>>)
    ensures
        match r {
            Some(g) => captures_of(re.source(), text@) == Some(groups_view(g@)),
            None => captures_of(re.source(), text@) is None,
        },
{
    re.regex.captures(text).map(|c| c.iter().map(|m| m.map(|m| m.as_str().to_string())).collect())
}

/// A route compiled to a regular expression.
pub struct Route {
    pub template: String,
    pub regex: CompiledRegex,
    /// The name of capture group `i + 1` is `param_names[i]`.
    pub param_names: Vec<String>,
}

/// Compiles each template; fails where a pattern does not compile.
pub fn build_routes(templates: &Vec<String>) -> (r: Option<Vec<Route>>)
    ensures
        match r {
            Some(routes) => routes@.len() == templates@.len() && forall|i: int|
                0 <= i < routes@.len() ==> (#[trigger] routes@[i]).template@ == templates@[i]@
                    && routes@[i].regex.source() == template_regex(templates@[i]@).0
                    && strings_view(routes@[i].param_names@) == template_regex(templates@[i]@).1,
            None => exists|i: int|
                0 <= i < templates@.len() && !compiles(template_regex(#[trigger] templates@[i]@).0),
        },
{
    let mut routes: Vec<Route> = Vec::new();
    let mut i: usize = 0;
    while i < templates.len()
        invariant
            i <= templates@.len(),
            routes@.len() == i,
            forall|k: int|
                0 <= k < i ==> (#[trigger] routes@[k]).template@ == templates@[k]@
                    && routes@[k].regex.source() == template_regex(templates@[k]@).0
                    && strings_view(routes@[k].param_names@) == template_regex(templates@[k]@).1,
        decreases templates@.len() - i,
    {
        let (re_text, param_names) = template_to_regex(templates[i].as_str());
        let regex = match CompiledRegex::new(re_text.as_str()) {
            Some(re) => re,
            None => return None,
        };
        routes.push(Route { template: templates[i].clone(), regex, param_names });
        i = i + 1;
    }
    Some(routes)
}

/// The parameters that capture groups bind: name `i` to group `i + 1`, for
/// each group that took part in the match.
pub open spec fn captured(names: Seq<Seq<char>>, groups: Seq<Option<Seq<char>>>) -> Map<
    Seq<char>,
    Seq<char>,
>
    decreases names.len(),
{
    if names.len() == 0 {
        Map::empty()
    } else {
        let i = names.len() - 1;
        let rest = captured(names.drop_last(), groups);
        if i + 1 < groups.len() && groups[i + 1] is Some {
            rest.insert(names[i], groups[i + 1]->0)
        } else {
            rest
        }
    }
}

/// Binds parameter names to the capture groups of a match.
pub fn bind_captures(names: &Vec<String>, groups: &Vec<Option<String>>) -> (r: Params)
    ensures
        r.wf(),
        r@ == captured(strings_view(names@), groups_view(groups@)),
{
    let ghost nv = strings_view(names@);
    let ghost gv = groups_view(groups@);
    let mut params = Params::new();
    let mut i: usize = 0;
    while i < names.len()
        invariant
            i <= names@.len(),
            nv == strings_view(names@),
            gv == groups_view(groups@),
            params.wf(),
            params@ == captured(nv.take(i as int), gv),
        decreases names@.len() - i,
    {
        proof {
            assert(nv.take(i + 1).drop_last() =~= nv.take(i as int));
            assert(nv.take(i + 1)[i as int] == names@[i as int]@);
        }
        if i + 1 < groups.len() {
            match &groups[i + 1] {
                Some(g) => {
                    params.insert(names[i].clone(), g.clone());
                },
                None => {},
            }
        }
        i = i + 1;
    }
    proof {
        assert(nv.take(names@.len() as int) =~= nv);
    }
    params
}

/// What matching `path` against the routes from the `i`-th on gives: the
/// first route whose expression matches, its template and the parameters
/// that its groups bind.
pub open spec fn match_from(routes: Seq<Route>, path: Seq<char>, i: int) -> Option<
    (Seq<char>, Map<Seq<char>, Seq<char>>),
>
    decreases routes.len() - i,
{
    if i < 0 || i >= routes.len() {
        None
    } else {
        match captures_of(routes[i].regex.source(), path) {
            Some(g) => Some((routes[i].template@, captured(strings_view(routes[i].param_names@), g))),
            None => match_from(routes, path, i + 1),
        }
    }
}

/// Tries the routes in order; the first whose expression matches `path`
/// gives its template and the parameters that its groups bind.
pub fn match_path(routes: &Vec<Route>, path: &str) -> (r: Option<(String, Params)>)
    ensures
        match match_from(routes@, path@, 0) {
            Some(found) => r matches Some(got) && got.0@ == found.0 && got.1@ == found.1 && got.1.wf(),
            None => r is None,
        },
{
    let mut i: usize = 0;
    while i < routes.len()
        invariant
            i <= routes@.len(),
            match_from(routes@, path@, 0) == match_from(routes@, path@, i as int),
        decreases routes@.len() - i,
    {
        match capture_groups(&routes[i].regex, path) {
            Some(groups) => {
                let params = bind_captures(&routes[i].param_names, &groups);
                return Some((routes[i].template.clone(), params));
            },
            None => {},
        }
        i = i + 1;
    }
    None
}

} // verus!
