use vstd::prelude::*;

use crate::params::Params;
use crate::path::{path_segments, split_path, strings_view};

verus! {

/// What a template segment means: a literal to match, or a named parameter.
pub enum Pattern {
    Literal(Seq<char>),
    Param(Seq<char>),
}

/// One segment of a route template, read.
pub enum Segment {
    /// Matches a path segment equal to it.
    Literal(String),
    /// Matches any one path segment and binds it to the name.
    Param(String),
}

impl View for Segment {
    type V = Pattern;

    open spec fn view(&self) -> Pattern {
        match self {
            Segment::Literal(s) => Pattern::Literal(s@),
            Segment::Param(s) => Pattern::Param(s@),
        }
    }
}

pub open spec fn segments_view(v: Seq<Segment>) -> Seq<Pattern> {
    v.map_values(|s: Segment| s@)
}

/// A segment that starts with `:` names a parameter; any other is literal.
pub open spec fn pattern_of(seg: Seq<char>) -> Pattern {
    if seg.len() > 0 && seg[0] == ':' {
        Pattern::Param(seg.drop_first())
    } else {
        Pattern::Literal(seg)
    }
}

/// The segments of a route template, read.
pub open spec fn template_pattern(t: Seq<char>) -> Seq<Pattern> {
    path_segments(t).map_values(|s: Seq<char>| pattern_of(s))
}

/// Reads a route template into its segments.
pub fn parse_template(template: &str) -> (r: Vec<Segment>)
    ensures
        segments_view(r@) == template_pattern(template@),
{
    let raw = split_path(template);
    let mut out: Vec<Segment> = Vec::new();
    let mut i: usize = 0;
    while i < raw.len()
        invariant
            i <= raw@.len(),
            strings_view(raw@) == path_segments(template@),
            segments_view(out@) == strings_view(raw@).take(i as int).map_values(
                |s: Seq<char>| pattern_of(s),
            ),
        decreases raw@.len() - i,
    {
        let s = &raw[i];
        let n = s.as_str().unicode_len();
        let seg = if n > 0 && s.as_str().get_char(0) == ':' {
            Segment::Param(s.as_str().substring_char(1, n).to_owned())
        } else {
            Segment::Literal(s.clone())
        };
        let ghost before = out@;
        out.push(seg);
        proof {
            assert(s@.drop_first() =~= s@.subrange(1, n as int));
            assert(strings_view(raw@)[i as int] == s@);
            assert(segments_view(out@) =~= segments_view(before).push(seg@));
            assert(strings_view(raw@).take(i + 1) =~= strings_view(raw@).take(i as int).push(
                s@,
            ));
        }
        i = i + 1;
    }
    proof {
        assert(strings_view(raw@).take(raw@.len() as int) =~= strings_view(raw@));
    }
    out
}

/// A node of the route tree.
pub struct RadixNode {
    /// Children reached by a literal segment, keyed by it.
    pub static_children: Vec<(String, RadixNode)>,
    /// The child reached by a parameter segment, with the parameter's name.
    pub param_child: Option<(String, Box<RadixNode>)>,
    /// The service of the route that ends here.
    pub service_index: Option<usize>,
}

pub open spec fn static_keys(n: RadixNode) -> Seq<Seq<char>> {
    n.static_children@.map_values(|e: (String, RadixNode)| e.0@)
}

/// `i` is the first position of `k` in `ks`.
pub open spec fn is_first(ks: Seq<Seq<char>>, k: Seq<char>, i: int) -> bool {
    &&& 0 <= i < ks.len()
    &&& ks[i] == k
    &&& forall|j: int| 0 <= j < i ==> ks[j] != k
}

/// The first position of `k` in `ks`, or -1.
pub open spec fn first_index(ks: Seq<Seq<char>>, k: Seq<char>) -> int {
    if exists|i: int| is_first(ks, k, i) {
        choose|i: int| is_first(ks, k, i)
    } else {
        -1
    }
}

/// The child that a template segment leads to.
pub open spec fn child(n: RadixNode, p: Pattern) -> Option<RadixNode> {
    match p {
        Pattern::Literal(k) => {
            let i = first_index(static_keys(n), k);
            if i >= 0 {
                Some(n.static_children@[i].1)
            } else {
                None
            }
        },
        Pattern::Param(name) => match n.param_child {
            Some(pc) => if pc.0@ == name {
                Some(*pc.1)
            } else {
                None
            },
            None => None,
        },
    }
}

/// The node that a template leads to from `n`.
pub open spec fn node_at(n: RadixNode, t: Seq<Pattern>) -> Option<RadixNode>
    decreases t.len(),
{
    if t.len() == 0 {
        Some(n)
    } else {
        match child(n, t[0]) {
            Some(c) => node_at(c, t.drop_first()),
            None => None,
        }
    }
}

/// The tree holds a node for template `t`.
pub open spec fn has_path(n: RadixNode, t: Seq<Pattern>) -> bool {
    node_at(n, t) is Some
}

/// The service registered under template `t`.
pub open spec fn route_at(n: RadixNode, t: Seq<Pattern>) -> Option<usize> {
    match node_at(n, t) {
        Some(m) => m.service_index,
        None => None,
    }
}

pub open spec fn is_prefix(q: Seq<Pattern>, t: Seq<Pattern>) -> bool {
    q.len() <= t.len() && t.take(q.len() as int) == q
}

/// Walking `t` down from `n`, a parameter segment meets a parameter child of
/// another name.
pub open spec fn conflicts(n: RadixNode, t: Seq<Pattern>) -> bool
    decreases t.len(),
{
    if t.len() == 0 {
        false
    } else {
        match t[0] {
            Pattern::Param(name) => match n.param_child {
                Some(pc) => pc.0@ != name || conflicts(*pc.1, t.drop_first()),
                None => false,
            },
            Pattern::Literal(k) => match child(n, t[0]) {
                Some(c) => conflicts(c, t.drop_first()),
                None => false,
            },
        }
    }
}

/// The binding of a parameter in front of the bindings made deeper down; a
/// deeper binding of the same name wins.
pub open spec fn bind(name: Seq<char>, value: Seq<char>, deeper: Map<Seq<char>, Seq<char>>) -> Map<
    Seq<char>,
    Seq<char>,
> {
    Map::empty().insert(name, value).union_prefer_right(deeper)
}

/// Looking up path segments from `n`: the service found and the parameters
/// bound. At each node a literal child is tried before the parameter child,
/// and a route matches only when every segment has been consumed.
pub open spec fn find_spec(n: RadixNode, segs: Seq<Seq<char>>) -> Option<
    (usize, Map<Seq<char>, Seq<char>>),
>
    decreases segs.len(),
{
    if segs.len() == 0 {
        match n.service_index {
            Some(h) => Some((h, Map::empty())),
            None => None,
        }
    } else {
        let via_static = match child(n, Pattern::Literal(segs[0])) {
            Some(c) => find_spec(c, segs.drop_first()),
            None => None,
        };
        if via_static is Some {
            via_static
        } else {
            match n.param_child {
                Some(pc) => match find_spec(*pc.1, segs.drop_first()) {
                    Some(found) => Some((found.0, bind(pc.0@, segs[0], found.1))),
                    None => None,
                },
                None => None,
            }
        }
    }
}

pub(crate) proof fn lemma_first_unique(ks: Seq<Seq<char>>, k: Seq<char>, i: int)
    requires
        is_first(ks, k, i),
    ensures
        first_index(ks, k) == i,
{
    let w = choose|w: int| is_first(ks, k, w);
    if w < i {
        assert(ks[w] != k);
    } else if w > i {
        assert(ks[i] != k);
    }
}

pub(crate) proof fn lemma_first_none(ks: Seq<Seq<char>>, k: Seq<char>)
    requires
        forall|j: int| 0 <= j < ks.len() ==> ks[j] != k,
    ensures
        first_index(ks, k) == -1,
{
}

proof fn lemma_first_index_range(ks: Seq<Seq<char>>, k: Seq<char>)
    ensures
        first_index(ks, k) == -1 || is_first(ks, k, first_index(ks, k)),
{
}

proof fn lemma_first_push(ks: Seq<Seq<char>>, k: Seq<char>, x: Seq<char>)
    requires
        first_index(ks, x) == -1,
    ensures
        first_index(ks.push(x), k) == if k == x {
            ks.len() as int
        } else {
            first_index(ks, k)
        },
{
    let ks2 = ks.push(x);
    if exists|i: int| is_first(ks, x, i) {
        let i = choose|i: int| is_first(ks, x, i);
        lemma_first_unique(ks, x, i);
    }
    if k == x {
        assert forall|j: int| 0 <= j < ks.len() implies ks[j] != x by {
            if ks[j] == x {
                lemma_has_first(ks, x, j);
            }
        }
        assert(is_first(ks2, k, ks.len() as int));
        lemma_first_unique(ks2, k, ks.len() as int);
    } else {
        lemma_first_index_range(ks, k);
        let f = first_index(ks, k);
        if f >= 0 {
            assert(is_first(ks2, k, f));
            lemma_first_unique(ks2, k, f);
        } else {
            assert forall|j: int| 0 <= j < ks2.len() implies ks2[j] != k by {
                if j < ks.len() && ks[j] == k {
                    lemma_has_first(ks, k, j);
                }
            }
        }
    }
}

/// Where `k` occurs, it has a first position.
proof fn lemma_has_first(ks: Seq<Seq<char>>, k: Seq<char>, j: int)
    requires
        0 <= j < ks.len(),
        ks[j] == k,
    ensures
        first_index(ks, k) >= 0,
        first_index(ks, k) <= j,
    decreases j,
{
    if exists|i: int| 0 <= i < j && ks[i] == k {
        let i = choose|i: int| 0 <= i < j && ks[i] == k;
        lemma_has_first(ks, k, i);
    } else {
        assert(is_first(ks, k, j));
        lemma_first_unique(ks, k, j);
    }
}

/// What a child of `n` reached by `p` holds at `q`: nothing where there is no such child.
pub open spec fn child_path(n: RadixNode, p: Pattern, q: Seq<Pattern>) -> bool {
    match child(n, p) {
        Some(c) => has_path(c, q),
        None => false,
    }
}

pub open spec fn child_route(n: RadixNode, p: Pattern, q: Seq<Pattern>) -> Option<usize> {
    match child(n, p) {
        Some(c) => route_at(c, q),
        None => None,
    }
}

/// A node whose child at `t[0]` took in the rest of `t`, all else kept, took in `t`.
proof fn lemma_step(old_n: RadixNode, new_n: RadixNode, t: Seq<Pattern>, nc: RadixNode, idx: usize)
    requires
        t.len() > 0,
        child(new_n, t[0]) == Some(nc),
        forall|p: Pattern| p != t[0] ==> child(new_n, p) == child(old_n, p),
        new_n.service_index == old_n.service_index,
        forall|q: Seq<Pattern>|
            #[trigger] has_path(nc, q) <==> child_path(old_n, t[0], q) || is_prefix(q, t.drop_first()),
        forall|q: Seq<Pattern>|
            #[trigger] route_at(nc, q) == if q == t.drop_first() {
                Some(idx)
            } else {
                child_route(old_n, t[0], q)
            },
    ensures
        forall|q: Seq<Pattern>|
            #[trigger] has_path(new_n, q) <==> has_path(old_n, q) || is_prefix(q, t),
        forall|q: Seq<Pattern>|
            #[trigger] route_at(new_n, q) == if q == t {
                Some(idx)
            } else {
                route_at(old_n, q)
            },
{
    assert forall|q: Seq<Pattern>| #[trigger]
        has_path(new_n, q) <==> has_path(old_n, q) || is_prefix(q, t) by {
        if q.len() > 0 {
            let q2 = q.drop_first();
            if q[0] == t[0] {
                assert(has_path(nc, q2) <==> child_path(old_n, t[0], q2) || is_prefix(q2, t.drop_first()));
                if is_prefix(q2, t.drop_first()) {
                    assert(t.take(q.len() as int) =~= seq![t[0]] + t.drop_first().take(q2.len() as int));
                    assert(q =~= seq![q[0]] + q2);
                }
                if is_prefix(q, t) {
                    assert(t.drop_first().take(q2.len() as int) =~= t.take(q.len() as int).drop_first());
                }
            } else {
                if is_prefix(q, t) {
                    assert(t.take(q.len() as int)[0] == t[0]);
                }
            }
        } else {
            assert(t.take(0) =~= q);
        }
    }
    assert forall|q: Seq<Pattern>| #[trigger]
        route_at(new_n, q) == if q == t {
            Some(idx)
        } else {
            route_at(old_n, q)
        } by {
        if q.len() > 0 {
            let q2 = q.drop_first();
            if q[0] == t[0] {
                assert(route_at(nc, q2) == if q2 == t.drop_first() {
                    Some(idx)
                } else {
                    child_route(old_n, t[0], q2)
                });
                if q2 == t.drop_first() {
                    assert(q =~= t) by {
                        assert(q =~= seq![q[0]] + q2);
                        assert(t =~= seq![t[0]] + t.drop_first());
                    }
                }
                if q == t {
                    assert(q2 == t.drop_first());
                }
            }
        }
    }
}

/// A fresh node that took in `t` holds exactly the prefixes of `t`.
proof fn lemma_fresh(fresh: RadixNode, t: Seq<Pattern>)
    requires
        fresh.static_children@.len() == 0,
        fresh.param_child is None,
        fresh.service_index is None,
    ensures
        forall|q: Seq<Pattern>| #[trigger] has_path(fresh, q) <==> q.len() == 0,
        forall|q: Seq<Pattern>| #[trigger] route_at(fresh, q) is None,
{
    assert forall|q: Seq<Pattern>| #[trigger] has_path(fresh, q) <==> q.len() == 0 by {
        if q.len() > 0 {
            match q[0] {
                Pattern::Literal(k) => {
                    lemma_first_index_range(static_keys(fresh), k);
                },
                Pattern::Param(_) => {},
            }
        }
    }
    assert forall|q: Seq<Pattern>| #[trigger] route_at(fresh, q) is None by {
        if q.len() > 0 {
            match q[0] {
                Pattern::Literal(k) => {
                    lemma_first_index_range(static_keys(fresh), k);
                },
                Pattern::Param(_) => {},
            }
        }
    }
}

/// No two literal children share a key.
pub open spec fn keys_unique(n: RadixNode) -> bool {
    forall|i: int, j: int|
        0 <= i < j < static_keys(n).len() ==> static_keys(n)[i] != static_keys(n)[j]
}

/// Every node of the tree has literal children of distinct keys.
pub open spec fn tree_wf(n: RadixNode) -> bool {
    forall|q: Seq<Pattern>| #[trigger] has_path(n, q) ==> keys_unique(node_at(n, q)->0)
}

proof fn lemma_child_wf(n: RadixNode, p: Pattern, c: RadixNode)
    requires
        tree_wf(n),
        child(n, p) == Some(c),
    ensures
        tree_wf(c),
{
    assert forall|q: Seq<Pattern>| #[trigger] has_path(c, q) implies keys_unique(node_at(c, q)->0) by {
        let q2 = seq![p] + q;
        assert(q2[0] == p);
        assert(q2.drop_first() =~= q);
        assert(has_path(n, q2));
    }
}

proof fn lemma_fresh_wf(fresh: RadixNode)
    requires
        fresh.static_children@.len() == 0,
        fresh.param_child is None,
        fresh.service_index is None,
    ensures
        tree_wf(fresh),
{
    lemma_fresh(fresh, Seq::empty());
}

/// A node whose children are those of a well-formed node, but for one
/// well-formed child, and whose own keys are distinct, is well-formed.
proof fn lemma_wf_step(old_n: RadixNode, new_n: RadixNode, p0: Pattern, nc: RadixNode)
    requires
        child(new_n, p0) == Some(nc),
        forall|p: Pattern| p != p0 ==> child(new_n, p) == child(old_n, p),
        tree_wf(old_n),
        tree_wf(nc),
        keys_unique(new_n),
    ensures
        tree_wf(new_n),
{
    assert forall|q: Seq<Pattern>| #[trigger] has_path(new_n, q) implies keys_unique(
        node_at(new_n, q)->0,
    ) by {
        if q.len() > 0 {
            if q[0] == p0 {
                assert(has_path(nc, q.drop_first()));
            } else {
                assert(has_path(old_n, q));
            }
        }
    }
}

/// A node that kept the children of a well-formed node, and their keys, is well-formed.
proof fn lemma_wf_same(old_n: RadixNode, new_n: RadixNode)
    requires
        forall|p: Pattern| child(new_n, p) == child(old_n, p),
        static_keys(new_n) == static_keys(old_n),
        tree_wf(old_n),
    ensures
        tree_wf(new_n),
{
    assert(has_path(old_n, Seq::empty()));
    assert forall|q: Seq<Pattern>| #[trigger] has_path(new_n, q) implies keys_unique(
        node_at(new_n, q)->0,
    ) by {
        if q.len() > 0 {
            assert(has_path(old_n, q));
        }
    }
}

impl RadixNode {
    /// A node with no children and no route.
    pub fn new() -> (r: RadixNode)
        ensures
            r.static_children@.len() == 0,
            r.param_child is None,
            r.service_index is None,
    {
        RadixNode { static_children: Vec::new(), param_child: None, service_index: None }
    }

    /// The position of the literal child keyed `key`.
    fn static_position(&self, key: &String) -> (r: Option<usize>)
        ensures
            match r {
                Some(j) => first_index(static_keys(*self), key@) == j && j < self.static_children@.len(),
                None => first_index(static_keys(*self), key@) == -1,
            },
    {
        let mut i: usize = 0;
        while i < self.static_children.len()
            invariant
                i <= self.static_children@.len(),
                forall|j: int| 0 <= j < i ==> static_keys(*self)[j] != key@,
            decreases self.static_children@.len() - i,
        {
            if self.static_children[i].0 == *key {
                proof {
                    assert(is_first(static_keys(*self), key@, i as int));
                    lemma_first_unique(static_keys(*self), key@, i as int);
                }
                return Some(i);
            }
            i = i + 1;
        }
        None
    }
    /// Whether `segs[i..]`, walked down from this node, meets a parameter
    /// child of another name.
    pub fn has_conflict(&self, segs: &Vec<Segment>, i: usize) -> (r: bool)
        requires
            i <= segs@.len(),
        ensures
            r == conflicts(*self, segments_view(segs@).skip(i as int)),
        decreases segs@.len() - i,
    {
        let ghost rest = segments_view(segs@).skip(i as int);
        if i == segs.len() {
            return false;
        }
        proof {
            assert(rest[0] == segs@[i as int]@);
            assert(rest.drop_first() =~= segments_view(segs@).skip(i + 1));
        }
        match &segs[i] {
            Segment::Param(name) => match &self.param_child {
                Some((existing, c)) => {
                    if !(*existing == *name) {
                        true
                    } else {
                        c.has_conflict(segs, i + 1)
                    }
                },
                None => false,
            },
            Segment::Literal(k) => match self.static_position(k) {
                Some(j) => self.static_children[j].1.has_conflict(segs, i + 1),
                None => false,
            },
        }
    }

    /// Registers `service_index` under the template `segs[i..]`, below this
    /// node, creating the nodes that are missing. A route already registered
    /// under the same template is replaced.
    pub fn add_to_node(&mut self, segs: &Vec<Segment>, i: usize, service_index: usize)
        requires
            i <= segs@.len(),
            !conflicts(*old(self), segments_view(segs@).skip(i as int)),
            tree_wf(*old(self)),
        ensures
            tree_wf(*final(self)),
            forall|q: Seq<Pattern>| #[trigger]
                has_path(*final(self), q) <==> has_path(*old(self), q) || is_prefix(
                    q,
                    segments_view(segs@).skip(i as int),
                ),
            forall|q: Seq<Pattern>| #[trigger]
                route_at(*final(self), q) == if q == segments_view(segs@).skip(i as int) {
                    Some(service_index)
                } else {
                    route_at(*old(self), q)
                },
        decreases segs@.len() - i,
    {
        let ghost t = segments_view(segs@).skip(i as int);
        let ghost old_n = *self;
        if i == segs.len() {
            self.service_index = Some(service_index);
            proof {
                assert forall|q: Seq<Pattern>| #[trigger]
                    has_path(*self, q) <==> has_path(old_n, q) || is_prefix(q, t) by {
                    if q.len() > 0 {
                        assert(child(*self, q[0]) == child(old_n, q[0]));
                    }
                }
                assert forall|q: Seq<Pattern>| #[trigger]
                    route_at(*self, q) == if q == t {
                        Some(service_index)
                    } else {
                        route_at(old_n, q)
                    } by {
                    if q.len() > 0 {
                        assert(child(*self, q[0]) == child(old_n, q[0]));
                    } else {
                        assert(q =~= t);
                    }
                }
                assert(static_keys(*self) =~= static_keys(old_n));
                assert forall|p: Pattern| child(*self, p) == child(old_n, p) by {}
                lemma_wf_same(old_n, *self);
            }
            return;
        }
        proof {
            assert(t[0] == segs@[i as int]@);
            assert(t.drop_first() =~= segments_view(segs@).skip(i + 1));
        }
        match &segs[i] {
            Segment::Param(name) => {
                let taken = self.param_child.take();
                let (pname, mut c) = match taken {
                    Some((existing, b)) => (existing, *b),
                    None => (name.clone(), RadixNode::new()),
                };
                let ghost oc = c;
                proof {
                    if old_n.param_child is None {
                        lemma_fresh(oc, t.drop_first());
                        lemma_fresh_wf(oc);
                    } else {
                        lemma_child_wf(old_n, t[0], oc);
                    }
                }
                c.add_to_node(segs, i + 1, service_index);
                self.param_child = Some((pname, Box::new(c)));
                proof {
                    assert forall|q: Seq<Pattern>| #[trigger]
                        has_path(c, q) <==> child_path(old_n, t[0], q) || is_prefix(q, t.drop_first()) by {
                        if q.len() == 0 {
                            assert(t.drop_first().take(0) =~= q);
                        }
                    }
                    assert forall|p: Pattern| p != t[0] implies child(*self, p) == child(old_n, p) by {
                        match p {
                            Pattern::Literal(k) => {},
                            Pattern::Param(n2) => {},
                        }
                    }
                    lemma_step(old_n, *self, t, c, service_index);
                    assert(has_path(old_n, Seq::empty()));
                    assert(static_keys(*self) =~= static_keys(old_n));
                    lemma_wf_step(old_n, *self, t[0], c);
                }
            },
            Segment::Literal(k) => {
                match self.static_position(k) {
                    Some(j) => {
                        let ghost oc = self.static_children@[j as int].1;
                        proof {
                            lemma_child_wf(old_n, t[0], oc);
                        }
                        self.static_children[j].1.add_to_node(segs, i + 1, service_index);
                        proof {
                            assert(static_keys(*self) =~= static_keys(old_n));
                            assert forall|p: Pattern| p != t[0] implies child(*self, p) == child(
                                old_n,
                                p,
                            ) by {
                                match p {
                                    Pattern::Literal(k2) => {
                                        lemma_first_index_range(static_keys(old_n), k2);
                                    },
                                    Pattern::Param(n2) => {},
                                }
                            }
                            lemma_step(old_n, *self, t, self.static_children@[j as int].1, service_index);
                            assert(has_path(old_n, Seq::empty()));
                            lemma_wf_step(old_n, *self, t[0], self.static_children@[j as int].1);
                        }
                    },
                    None => {
                        let mut c = RadixNode::new();
                        proof {
                            lemma_fresh(c, t.drop_first());
                            lemma_fresh_wf(c);
                        }
                        c.add_to_node(segs, i + 1, service_index);
                        self.static_children.push((k.clone(), c));
                        proof {
                            assert forall|q: Seq<Pattern>| #[trigger]
                                has_path(c, q) <==> child_path(old_n, t[0], q) || is_prefix(q, t.drop_first()) by {
                                if q.len() == 0 {
                                    assert(t.drop_first().take(0) =~= q);
                                }
                            }
                            assert(static_keys(*self) =~= static_keys(old_n).push(k@));
                            assert forall|p: Pattern| p != t[0] implies child(*self, p) == child(
                                old_n,
                                p,
                            ) by {
                                match p {
                                    Pattern::Literal(k2) => {
                                        lemma_first_push(static_keys(old_n), k2, k@);
                                        lemma_first_index_range(static_keys(old_n), k2);
                                    },
                                    Pattern::Param(n2) => {},
                                }
                            }
                            lemma_first_push(static_keys(old_n), k@, k@);
                            lemma_step(old_n, *self, t, c, service_index);
                            assert(has_path(old_n, Seq::empty()));
                            assert(keys_unique(*self)) by {
                                let ks = static_keys(old_n);
                                assert forall|a: int| 0 <= a < ks.len() implies ks[a] != k@ by {
                                    if ks[a] == k@ {
                                        lemma_has_first(ks, k@, a);
                                    }
                                }
                            }
                            lemma_wf_step(old_n, *self, t[0], c);
                        }
                    },
                }
            },
        }
    }

    /// Looks up the path segments `segs[i..]` from this node, binding
    /// parameters in `params` on the way. A binding made on a branch that
    /// fails is undone, so on a miss `params` is as it was.
    pub fn find_in_node(&self, segs: &Vec<String>, i: usize, params: &mut Params) -> (r: Option<
        usize,
    >)
        requires
            i <= segs@.len(),
            old(params).wf(),
        ensures
            final(params).wf(),
            match find_spec(*self, strings_view(segs@).skip(i as int)) {
                Some(found) => r == Some(found.0) && final(params)@ == old(params)@.union_prefer_right(
                    found.1,
                ),
                None => r is None && final(params)@ == old(params)@,
            },
        decreases segs@.len() - i,
    {
        let ghost rest = strings_view(segs@).skip(i as int);
        if i == segs.len() {
            proof {
                assert(old(params)@.union_prefer_right(Map::empty()) =~= old(params)@);
            }
            return self.service_index;
        }
        proof {
            assert(rest[0] == segs@[i as int]@);
            assert(rest.drop_first() =~= strings_view(segs@).skip(i + 1));
        }
        let seg = &segs[i];
        match self.static_position(seg) {
            Some(j) => {
                let found = self.static_children[j].1.find_in_node(segs, i + 1, params);
                if found.is_some() {
                    return found;
                }
            },
            None => {},
        }
        match &self.param_child {
            Some((name, child)) => {
                let ghost before = params@;
                let prev = params.insert(name.clone(), seg.clone());
                let found = child.find_in_node(segs, i + 1, params);
                if found.is_some() {
                    proof {
                        let pair = find_spec(**child, rest.drop_first())->0;
                        let m = pair.1;
                        assert(before.insert(name@, seg@).union_prefer_right(m) =~= before.union_prefer_right(
                            bind(name@, seg@, m),
                        ));
                    }
                    return found;
                }
                match prev {
                    Some(v) => {
                        params.insert(name.clone(), v);
                        proof {
                            assert(params@ =~= before);
                        }
                    },
                    None => {
                        params.remove(name.as_str());
                        proof {
                            assert(params@ =~= before);
                        }
                    },
                }
                None
            },
            None => None,
        }
    }
}

/// Two templates reach one tree position and there name their parameters
/// differently.
pub open spec fn templates_clash(a: Seq<Pattern>, b: Seq<Pattern>) -> bool {
    exists|i: int|
        0 <= i < a.len() && i < b.len() && a.take(i) == b.take(i) && a[i] is Param && b[i] is Param
            && #[trigger] a[i] != #[trigger] b[i]
}

/// No template clashes with an earlier one.
pub open spec fn no_clashes(pats: Seq<Seq<Pattern>>) -> bool {
    forall|j: int, k: int| 0 <= j < k < pats.len() ==> !templates_clash(#[trigger] pats[j], #[trigger] pats[k])
}

/// The position of the last template in `pats` equal to `q`.
pub open spec fn last_registered(pats: Seq<Seq<Pattern>>, q: Seq<Pattern>) -> Option<usize>
    decreases pats.len(),
{
    if pats.len() == 0 {
        None
    } else if pats.last() == q {
        Some((pats.len() - 1) as usize)
    } else {
        last_registered(pats.drop_last(), q)
    }
}

/// The tree holds exactly the prefixes of the templates in `pats`.
pub open spec fn holds_prefixes_of(n: RadixNode, pats: Seq<Seq<Pattern>>) -> bool {
    forall|q: Seq<Pattern>| #[trigger]
        has_path(n, q) <==> (q.len() == 0 || exists|j: int| 0 <= j < pats.len() && is_prefix(q, #[trigger] pats[j]))
}

/// A conflict is a parameter position of `t` where the tree holds a parameter of another name.
proof fn lemma_conflict_witness(n: RadixNode, t: Seq<Pattern>)
    ensures
        conflicts(n, t) <==> exists|i: int, y: Seq<char>|
            0 <= i < t.len() && t[i] is Param && t[i] != Pattern::Param(y) && #[trigger] has_path(
                n,
                t.take(i).push(Pattern::Param(y)),
            ),
    decreases t.len(),
{
    if t.len() > 0 {
        let t2 = t.drop_first();
        match child(n, t[0]) {
            Some(c) => {
                lemma_conflict_witness(c, t2);
            },
            None => {},
        }
        if let Some(pc) = n.param_child {
            lemma_conflict_witness(*pc.1, t2);
        }
        if conflicts(n, t) {
            match t[0] {
                Pattern::Param(x) => {
                    let pc = n.param_child->0;
                    if pc.0@ != x {
                        let y = pc.0@;
                        assert(t.take(0).push(Pattern::Param(y)) =~= seq![Pattern::Param(y)]);
                        let u = seq![Pattern::Param(y)];
                        assert(u.drop_first() =~= Seq::<Pattern>::empty());
                        assert(u[0] == Pattern::Param(y));
                        assert(child(n, u[0]) == Some(*pc.1));
                        assert(node_at(*pc.1, u.drop_first()) == Some(*pc.1));
                        assert(has_path(n, u));
                    } else {
                        let c = *pc.1;
                        let (i, y) = choose|i: int, y: Seq<char>|
                            0 <= i < t2.len() && t2[i] is Param && t2[i] != Pattern::Param(y)
                                && #[trigger] has_path(c, t2.take(i).push(Pattern::Param(y)));
                        let u = t.take(i + 1).push(Pattern::Param(y));
                        assert(u.drop_first() =~= t2.take(i).push(Pattern::Param(y)));
                        assert(has_path(n, u));
                        assert(t[i + 1] == t2[i]);
                    }
                },
                Pattern::Literal(k) => {
                    let c = child(n, t[0])->0;
                    let (i, y) = choose|i: int, y: Seq<char>|
                        0 <= i < t2.len() && t2[i] is Param && t2[i] != Pattern::Param(y)
                            && #[trigger] has_path(c, t2.take(i).push(Pattern::Param(y)));
                    let u = t.take(i + 1).push(Pattern::Param(y));
                    assert(u.drop_first() =~= t2.take(i).push(Pattern::Param(y)));
                    assert(has_path(n, u));
                    assert(t[i + 1] == t2[i]);
                },
            }
        }
        if exists|i: int, y: Seq<char>|
            0 <= i < t.len() && t[i] is Param && t[i] != Pattern::Param(y) && #[trigger] has_path(
                n,
                t.take(i).push(Pattern::Param(y)),
            ) {
            let (i, y) = choose|i: int, y: Seq<char>|
                0 <= i < t.len() && t[i] is Param && t[i] != Pattern::Param(y) && #[trigger] has_path(
                    n,
                    t.take(i).push(Pattern::Param(y)),
                );
            let u = t.take(i).push(Pattern::Param(y));
            if i == 0 {
                assert(u[0] == Pattern::Param(y));
            } else {
                assert(u[0] == t[0]);
                assert(u.drop_first() =~= t2.take(i - 1).push(Pattern::Param(y)));
                assert(t2[i - 1] == t[i]);
                let c = child(n, t[0])->0;
                assert(has_path(c, t2.take(i - 1).push(Pattern::Param(y))));
            }
        }
    }
}

/// Registering templates one at a time with `add_route`: over a table that
/// holds the prefixes of the templates added so far (as an empty table does
/// of none), a template fails to register exactly where it clashes with one
/// of them. So as long as no template clashes with an earlier one, every
/// registration succeeds.
pub proof fn lemma_conflict_clash(n: RadixNode, pats: Seq<Seq<Pattern>>, t: Seq<Pattern>)
    requires
        holds_prefixes_of(n, pats),
    ensures
        conflicts(n, t) <==> exists|j: int| 0 <= j < pats.len() && templates_clash(#[trigger] pats[j], t),
{
    lemma_conflict_witness(n, t);
    if conflicts(n, t) {
        let (i, y) = choose|i: int, y: Seq<char>|
            0 <= i < t.len() && t[i] is Param && t[i] != Pattern::Param(y) && #[trigger] has_path(
                n,
                t.take(i).push(Pattern::Param(y)),
            );
        let u = t.take(i).push(Pattern::Param(y));
        assert(u.len() > 0);
        let j = choose|j: int| 0 <= j < pats.len() && is_prefix(u, #[trigger] pats[j]);
        let a = pats[j];
        assert(a.take(i) =~= u.take(i));
        assert(u.take(i) =~= t.take(i));
        assert(a[i] == a.take(i + 1)[i]);
        assert(a[i] != t[i]);
        assert(templates_clash(pats[j], t));
    }
    if exists|j: int| 0 <= j < pats.len() && templates_clash(#[trigger] pats[j], t) {
        let j = choose|j: int| 0 <= j < pats.len() && templates_clash(#[trigger] pats[j], t);
        let a = pats[j];
        let i = choose|i: int|
            0 <= i < a.len() && i < t.len() && a.take(i) == t.take(i) && a[i] is Param && t[i] is Param
                && #[trigger] a[i] != #[trigger] t[i];
        let y = a[i]->Param_0;
        let u = t.take(i).push(Pattern::Param(y));
        assert(a.take(i + 1) =~= a.take(i).push(a[i]));
        assert(is_prefix(u, pats[j]));
        assert(has_path(n, u));
    }
}

/// After `add_route` registered `t`, the table holds the prefixes of the
/// templates added before and of `t`.
pub proof fn lemma_prefixes_grow(old_n: RadixNode, new_n: RadixNode, pats: Seq<Seq<Pattern>>, t: Seq<Pattern>)
    requires
        holds_prefixes_of(old_n, pats),
        forall|q: Seq<Pattern>| #[trigger] has_path(new_n, q) <==> has_path(old_n, q) || is_prefix(q, t),
    ensures
        holds_prefixes_of(new_n, pats.push(t)),
{
    let p2 = pats.push(t);
    assert forall|q: Seq<Pattern>| #[trigger]
        has_path(new_n, q) <==> (q.len() == 0 || exists|j: int| 0 <= j < p2.len() && is_prefix(q, #[trigger] p2[j])) by {
        if has_path(old_n, q) && q.len() > 0 {
            let j = choose|j: int| 0 <= j < pats.len() && is_prefix(q, #[trigger] pats[j]);
            assert(p2[j] == pats[j]);
        }
        if is_prefix(q, t) {
            assert(p2[pats.len() as int] == t);
        }
        if q.len() > 0 && exists|j: int| 0 <= j < p2.len() && is_prefix(q, #[trigger] p2[j]) {
            let j = choose|j: int| 0 <= j < p2.len() && is_prefix(q, #[trigger] p2[j]);
            if j < pats.len() {
                assert(p2[j] == pats[j]);
            }
        }
    }
}

/// Template `t` matches the path segments `segs`: one segment each, and each
/// literal equal to its segment.
pub open spec fn matches(t: Seq<Pattern>, segs: Seq<Seq<char>>) -> bool {
    &&& t.len() == segs.len()
    &&& forall|i: int| 0 <= i < t.len() && (#[trigger] t[i]) is Literal ==> t[i] == Pattern::Literal(segs[i])
}

/// The parameters that template `t` binds on `segs`; of two parameters of
/// one name, the later wins.
pub open spec fn bindings(t: Seq<Pattern>, segs: Seq<Seq<char>>) -> Map<Seq<char>, Seq<char>>
    decreases t.len(),
{
    if t.len() == 0 || segs.len() == 0 {
        Map::empty()
    } else {
        let rest = bindings(t.drop_first(), segs.drop_first());
        match t[0] {
            Pattern::Param(name) => bind(name, segs[0], rest),
            Pattern::Literal(_) => rest,
        }
    }
}

/// The template made of the segments themselves, as literals.
pub open spec fn all_literal(segs: Seq<Seq<char>>) -> Seq<Pattern> {
    segs.map_values(|s: Seq<char>| Pattern::Literal(s))
}

proof fn lemma_matches_tail(t: Seq<Pattern>, segs: Seq<Seq<char>>)
    requires
        matches(t, segs),
        t.len() > 0,
    ensures
        matches(t.drop_first(), segs.drop_first()),
        t[0] is Literal ==> t[0] == Pattern::Literal(segs[0]),
{
    assert forall|i: int| 0 <= i < t.drop_first().len() && (#[trigger] t.drop_first()[i]) is Literal implies t.drop_first()[i]
        == Pattern::Literal(segs.drop_first()[i]) by {
        assert(t.drop_first()[i] == t[i + 1]);
    }
}

/// A lookup succeeds only through a registered template that matches every
/// segment of the path, and binds that template's parameters: trailing
/// segments that no route takes in never fall back to a shorter route.
pub proof fn lemma_lookup_sound(n: RadixNode, segs: Seq<Seq<char>>)
    ensures
        find_spec(n, segs) matches Some(found) ==> exists|t: Seq<Pattern>|
            matches(t, segs) && #[trigger] route_at(n, t) == Some(found.0) && bindings(t, segs)
                == found.1,
    decreases segs.len(),
{
    if let Some(found) = find_spec(n, segs) {
        if segs.len() == 0 {
            let t = Seq::<Pattern>::empty();
            assert(matches(t, segs));
            assert(route_at(n, t) == Some(found.0));
        } else {
            let rest = segs.drop_first();
            let lit = Pattern::Literal(segs[0]);
            let via_static = match child(n, lit) {
                Some(c) => find_spec(c, rest),
                None => None,
            };
            let (p, c) = if via_static is Some {
                (lit, child(n, lit)->0)
            } else {
                let pc = n.param_child->0;
                (Pattern::Param(pc.0@), *pc.1)
            };
            assert(child(n, p) == Some(c));
            lemma_lookup_sound(c, rest);
            let inner = find_spec(c, rest)->0;
            let t2 = choose|t2: Seq<Pattern>|
                matches(t2, rest) && #[trigger] route_at(c, t2) == Some(inner.0) && bindings(t2, rest)
                    == inner.1;
            let t = seq![p] + t2;
            assert(t.drop_first() =~= t2);
            assert(t[0] == p);
            assert(matches(t, segs)) by {
                assert forall|i: int| 0 <= i < t.len() && (#[trigger] t[i]) is Literal implies t[i]
                    == Pattern::Literal(segs[i]) by {
                    if i > 0 {
                        assert(t[i] == t2[i - 1]);
                        assert(segs[i] == rest[i - 1]);
                    }
                }
            }
            assert(route_at(n, t) == Some(found.0));
        }
    }
}

/// A registered template that matches the path makes the lookup succeed.
pub proof fn lemma_lookup_complete(n: RadixNode, t: Seq<Pattern>, segs: Seq<Seq<char>>)
    requires
        route_at(n, t) is Some,
        matches(t, segs),
    ensures
        find_spec(n, segs) is Some,
    decreases segs.len(),
{
    if segs.len() > 0 {
        lemma_matches_tail(t, segs);
        let c = child(n, t[0])->0;
        lemma_lookup_complete(c, t.drop_first(), segs.drop_first());
    }
}

/// For a registered template `t` and path segments `segs` that `t` matches
/// and no other registered template does, the lookup finds `t`'s service and
/// binds `t`'s parameter names to the segments that stand in their places.
pub proof fn lemma_lookup_finds_template(n: RadixNode, t: Seq<Pattern>, segs: Seq<Seq<char>>, h: usize)
    requires
        route_at(n, t) == Some(h),
        matches(t, segs),
        forall|t2: Seq<Pattern>| #[trigger] route_at(n, t2) is Some && matches(t2, segs) ==> t2 == t,
    ensures
        find_spec(n, segs) == Some((h, bindings(t, segs))),
{
    lemma_lookup_complete(n, t, segs);
    lemma_lookup_sound(n, segs);
}

/// A route whose template is the path itself, all literal, wins over any
/// route with parameters: the lookup finds it and binds nothing.
pub proof fn lemma_literal_route_wins(n: RadixNode, segs: Seq<Seq<char>>, h: usize)
    requires
        route_at(n, all_literal(segs)) == Some(h),
    ensures
        find_spec(n, segs) == Some((h, Map::<Seq<char>, Seq<char>>::empty())),
    decreases segs.len(),
{
    if segs.len() > 0 {
        let t = all_literal(segs);
        assert(t[0] == Pattern::Literal(segs[0]));
        assert(t.drop_first() =~= all_literal(segs.drop_first()));
        let c = child(n, t[0])->0;
        lemma_literal_route_wins(c, segs.drop_first(), h);
    }
}

/// Registering a route failed: two templates name one parameter position differently.
pub enum RouteError {
    ConflictingParameterName,
}

/// A route table: a tree of path segments whose nodes may end a route.
pub struct RadixRouter {
    pub root: RadixNode,
    /// The templates registered so far, in order.
    pub added: Ghost<Seq<Seq<Pattern>>>,
}

impl RadixRouter {
    /// Every node's literal children have distinct keys, and the tree
    /// holds exactly the prefixes of the templates registered so far.
    pub open spec fn wf(&self) -> bool {
        &&& tree_wf(self.root)
        &&& holds_prefixes_of(self.root, self.added@)
    }

    /// An empty table.
    pub fn new() -> (r: RadixRouter)
        ensures
            r.wf(),
            r.added@ == Seq::<Seq<Pattern>>::empty(),
            holds_prefixes_of(r.root, Seq::empty()),
            forall|t: Seq<Pattern>| #[trigger] has_path(r.root, t) <==> t.len() == 0,
            forall|t: Seq<Pattern>| #[trigger] route_at(r.root, t) is None,
    {
        let r = RadixRouter { root: RadixNode::new(), added: Ghost(Seq::empty()) };
        proof {
            lemma_fresh_wf(r.root);
            assert forall|t: Seq<Pattern>| #[trigger] has_path(r.root, t) <==> t.len() == 0 by {
                if t.len() > 0 {
                    assert(child(r.root, t[0]) is None);
                }
            }
        }
        r
    }

    /// Registers `service_index` under the template `path`. Fails, and
    /// leaves the table as it was, where a parameter segment of `path`
    /// stands where the table already has a parameter of another name.
    pub fn add_route(&mut self, path: &str, service_index: usize) -> (r: Result<(), RouteError>)
        requires
            old(self).wf(),
        ensures
            final(self).wf(),
            r is Ok <==> !conflicts(old(self).root, template_pattern(path@)),
            r is Ok <==> forall|j: int|
                0 <= j < old(self).added@.len() ==> !templates_clash(
                    #[trigger] old(self).added@[j],
                    template_pattern(path@),
                ),
            r is Ok ==> final(self).added@ == old(self).added@.push(template_pattern(path@)),
            r is Ok ==> forall|q: Seq<Pattern>| #[trigger]
                has_path(final(self).root, q) <==> has_path(old(self).root, q) || is_prefix(
                    q,
                    template_pattern(path@),
                ),
            r is Ok ==> forall|q: Seq<Pattern>| #[trigger]
                route_at(final(self).root, q) == if q == template_pattern(path@) {
                    Some(service_index)
                } else {
                    route_at(old(self).root, q)
                },
            r is Err ==> *final(self) == *old(self),
    {
        let segs = parse_template(path);
        proof {
            assert(segments_view(segs@).skip(0) =~= segments_view(segs@));
        }
        proof {
            lemma_conflict_clash(self.root, self.added@, template_pattern(path@));
        }
        if self.root.has_conflict(&segs, 0) {
            return Err(RouteError::ConflictingParameterName);
        }
        let ghost before = *self;
        self.root.add_to_node(&segs, 0, service_index);
        self.added = Ghost(self.added@.push(template_pattern(path@)));
        proof {
            lemma_prefixes_grow(before.root, self.root, before.added@, template_pattern(path@));
        }
        Ok(())
    }

    /// Builds a table from templates; the route of `templates[i]` gets the
    /// service index `i`, and of two equal templates the later one wins.
    /// Succeeds exactly when no two templates name one parameter position
    /// differently.
    pub fn build(templates: &Vec<String>) -> (r: Result<RadixRouter, RouteError>)
        ensures
            r is Ok <==> no_clashes(templates@.map_values(|t: String| template_pattern(t@))),
            r matches Ok(router) ==> router.wf(),
            r matches Ok(router) ==> forall|q: Seq<Pattern>| #[trigger]
                route_at(router.root, q) == last_registered(
                    templates@.map_values(|t: String| template_pattern(t@)),
                    q,
                ),
    {
        let ghost pats = templates@.map_values(|t: String| template_pattern(t@));
        let mut router = RadixRouter::new();
        proof {
            assert(pats.take(0) =~= Seq::<Seq<Pattern>>::empty());
        }
        let mut k: usize = 0;
        while k < templates.len()
            invariant
                k <= templates@.len(),
                router.wf(),
                router.added@ == pats.take(k as int),
                pats == templates@.map_values(|t: String| template_pattern(t@)),
                holds_prefixes_of(router.root, pats.take(k as int)),
                no_clashes(pats.take(k as int)),
                forall|q: Seq<Pattern>| #[trigger]
                    route_at(router.root, q) == last_registered(pats.take(k as int), q),
            decreases templates@.len() - k,
        {
            proof {
                lemma_conflict_clash(router.root, pats.take(k as int), pats[k as int]);
            }
            let ghost before = router;
            match router.add_route(templates[k].as_str(), k) {
                Ok(()) => {},
                Err(e) => {
                    proof {
                        let j = choose|j: int| 0 <= j < k && templates_clash(#[trigger] pats.take(k as int)[j], pats[k as int]);
                        assert(pats.take(k as int)[j] == pats[j]);
                        assert(!no_clashes(pats));
                    }
                    return Err(e);
                },
            }
            proof {
                assert(pats.take(k + 1) =~= pats.take(k as int).push(pats[k as int]));
                lemma_prefixes_grow(before.root, router.root, pats.take(k as int), pats[k as int]);
                assert forall|a: int, b: int| 0 <= a < b < pats.take(k + 1).len() implies !templates_clash(
                    #[trigger] pats.take(k + 1)[a],
                    #[trigger] pats.take(k + 1)[b],
                ) by {
                    if b < k {
                        assert(pats.take(k + 1)[a] == pats.take(k as int)[a]);
                        assert(pats.take(k + 1)[b] == pats.take(k as int)[b]);
                    } else {
                        assert(pats.take(k + 1)[a] == pats.take(k as int)[a]);
                    }
                }
                assert forall|q: Seq<Pattern>| #[trigger]
                    route_at(router.root, q) == last_registered(pats.take(k + 1), q) by {
                    assert(pats.take(k + 1).drop_last() =~= pats.take(k as int));
                }
            }
            k = k + 1;
        }
        proof {
            assert(pats.take(k as int) =~= pats);
        }
        Ok(router)
    }

    /// Finds the route that `path` matches, and the parameters it binds.
    pub fn find_route(&self, path: &str) -> (r: Option<(usize, Params)>)
        ensures
            match find_spec(self.root, path_segments(path@)) {
                Some(found) => r matches Some(got) && got.0 == found.0 && got.1@ == found.1
                    && got.1.wf(),
                None => r is None,
            },
    {
        let segs = split_path(path);
        let mut params = Params::new();
        proof {
            assert(strings_view(segs@).skip(0) =~= strings_view(segs@));
        }
        let found = self.root.find_in_node(&segs, 0, &mut params);
        proof {
            assert(Map::<Seq<char>, Seq<char>>::empty().union_prefer_right(params@) =~= params@);
        }
        match found {
            Some(h) => {
                proof {
                    let pair = find_spec(self.root, path_segments(path@))->0;
                    let m = pair.1;
                    assert(Map::<Seq<char>, Seq<char>>::empty().union_prefer_right(m) =~= m);
                }
                Some((h, params))
            },
            None => None,
        }
    }
}

} // verus!
