use vstd::prelude::*;

verus! {

/// The map that a list of (name, value) pairs describes; a later pair with
/// the same name wins.
pub open spec fn entries_map(e: Seq<(String, String)>) -> Map<Seq<char>, Seq<char>>
    decreases e.len(),
{
    if e.len() == 0 {
        Map::empty()
    } else {
        entries_map(e.drop_last()).insert(e.last().0@, e.last().1@)
    }
}

/// No name occurs twice.
pub open spec fn names_unique(e: Seq<(String, String)>) -> bool {
    forall|i: int, j: int| 0 <= i < j < e.len() ==> (#[trigger] e[i]).0@ != (#[trigger] e[j]).0@
}

/// The parameters bound while a path is matched: a map from parameter name to
/// the path segment bound to it.
pub struct Params {
    entries: Vec<(String, String)>,
}

impl View for Params {
    type V = Map<Seq<char>, Seq<char>>;

    closed spec fn view(&self) -> Map<Seq<char>, Seq<char>> {
        entries_map(self.entries@)
    }
}

proof fn lemma_entries_map_domain(e: Seq<(String, String)>)
    ensures
        entries_map(e).dom().finite(),
        forall|k: Seq<char>|
            entries_map(e).contains_key(k) <==> exists|i: int| 0 <= i < e.len() && (#[trigger] e[i]).0@
                == k,
        names_unique(e) ==> entries_map(e).dom().len() == e.len(),
    decreases e.len(),
{
    if e.len() > 0 {
        let p = e.drop_last();
        lemma_entries_map_domain(p);
        assert forall|k: Seq<char>|
            entries_map(e).contains_key(k) implies exists|i: int| 0 <= i < e.len() && (#[trigger] e[i]).0@
                == k by {
            if k != e.last().0@ {
                let i = choose|i: int| 0 <= i < p.len() && (#[trigger] p[i]).0@ == k;
                assert(e[i] == p[i]);
            } else {
                assert(e[e.len() - 1].0@ == k);
            }
        }
        assert forall|k: Seq<char>|
            (exists|i: int| 0 <= i < e.len() && (#[trigger] e[i]).0@ == k) implies entries_map(
            e,
        ).contains_key(k) by {
            let i = choose|i: int| 0 <= i < e.len() && (#[trigger] e[i]).0@ == k;
            if i < e.len() - 1 {
                assert(p[i] == e[i]);
            }
        }
        if names_unique(e) {
            assert(names_unique(p)) by {
                assert forall|i: int, j: int| 0 <= i < j < p.len() implies (#[trigger] p[i]).0@
                    != (#[trigger] p[j]).0@ by {
                    assert(p[i] == e[i] && p[j] == e[j]);
                }
            }
            assert(!entries_map(p).contains_key(e.last().0@)) by {
                if entries_map(p).contains_key(e.last().0@) {
                    let i = choose|i: int| 0 <= i < p.len() && (#[trigger] p[i]).0@ == e.last().0@;
                    assert(e[i] == p[i]);
                    assert(e[i].0@ == e[e.len() - 1].0@);
                }
            }
        }
    }
}

impl Params {
    /// The entries hold each name once.
    pub closed spec fn wf(&self) -> bool {
        names_unique(self.entries@)
    }

    /// An empty set of parameters.
    pub fn new() -> (r: Params)
        ensures
            r@ == Map::<Seq<char>, Seq<char>>::empty(),
            r.wf(),
    {
        Params { entries: Vec::new() }
    }

    /// The number of bound names.
    pub fn len(&self) -> (r: usize)
        requires
            self.wf(),
        ensures
            r == self@.dom().len(),
    {
        proof {
            lemma_entries_map_domain(self.entries@);
        }
        self.entries.len()
    }

    /// Whether no name is bound.
    pub fn is_empty(&self) -> (r: bool)
        requires
            self.wf(),
        ensures
            r == (self@ == Map::<Seq<char>, Seq<char>>::empty()),
    {
        proof {
            lemma_entries_map_domain(self.entries@);
            if self.entries@.len() > 0 {
                let k = self.entries@.last().0@;
                assert(self.entries@[self.entries@.len() - 1].0@ == k);
                assert(self@.contains_key(k));
            } else {
                assert(self@ =~= Map::<Seq<char>, Seq<char>>::empty());
            }
        }
        self.entries.len() == 0
    }

    /// The value bound to `name`, if any.
    pub fn get(&self, name: &str) -> (r: Option<&String>)
        requires
            self.wf(),
        ensures
            match r {
                Some(v) => self@.contains_key(name@) && v@ == self@[name@],
                None => !self@.contains_key(name@),
            },
    {
        proof {
            lemma_entries_map_domain(self.entries@);
        }
        let key = name.to_owned();
        let mut i: usize = 0;
        while i < self.entries.len()
            invariant
                i <= self.entries@.len(),
                key@ == name@,
                names_unique(self.entries@),
                forall|j: int| 0 <= j < i ==> (#[trigger] self.entries@[j]).0@ != name@,
            decreases self.entries@.len() - i,
        {
            if self.entries[i].0 == key {
                proof {
                    lemma_value_at(self.entries@, i as int);
                }
                return Some(&self.entries[i].1);
            }
            i = i + 1;
        }
        None
    }

    /// Binds `name` to `value`, and returns the value it was bound to before.
    pub fn insert(&mut self, name: String, value: String) -> (r: Option<String>)
        requires
            old(self).wf(),
        ensures
            final(self).wf(),
            final(self)@ == old(self)@.insert(name@, value@),
            match r {
                Some(v) => old(self)@.contains_key(name@) && v@ == old(self)@[name@],
                None => !old(self)@.contains_key(name@),
            },
    {
        let prev = self.remove(name.as_str());
        let ghost mid = self.entries@;
        self.entries.push((name, value));
        proof {
            assert(self.entries@.drop_last() =~= mid);
            assert(self@ =~= old(self)@.remove(name@).insert(name@, value@));
            assert(self@ =~= old(self)@.insert(name@, value@));
            lemma_entries_map_domain(mid);
            assert forall|i: int, j: int| 0 <= i < j < self.entries@.len() implies (
            #[trigger] self.entries@[i]).0@ != (#[trigger] self.entries@[j]).0@ by {
                if j == self.entries@.len() - 1 {
                    assert(self.entries@[i] == mid[i]);
                    assert(!entries_map(mid).contains_key(name@));
                } else {
                    assert(self.entries@[i] == mid[i] && self.entries@[j] == mid[j]);
                }
            }
        }
        prev
    }

    /// Unbinds `name`, and returns the value it was bound to.
    pub fn remove(&mut self, name: &str) -> (r: Option<String>)
        requires
            old(self).wf(),
        ensures
            final(self).wf(),
            final(self)@ == old(self)@.remove(name@),
            match r {
                Some(v) => old(self)@.contains_key(name@) && v@ == old(self)@[name@],
                None => !old(self)@.contains_key(name@),
            },
    {
        proof {
            lemma_entries_map_domain(self.entries@);
        }
        let key = name.to_owned();
        let mut i: usize = 0;
        while i < self.entries.len()
            invariant
                i <= self.entries@.len(),
                key@ == name@,
                self.entries@ == old(self).entries@,
                names_unique(self.entries@),
                forall|j: int| 0 <= j < i ==> (#[trigger] self.entries@[j]).0@ != name@,
            decreases self.entries@.len() - i,
        {
            if self.entries[i].0 == key {
                proof {
                    lemma_value_at(self.entries@, i as int);
                    lemma_remove_at(self.entries@, i as int);
                }
                let (_, v) = self.entries.remove(i);
                return Some(v);
            }
            i = i + 1;
        }
        proof {
            assert(!self@.contains_key(name@));
            assert(self@ =~= old(self)@.remove(name@));
        }
        None
    }

    /// The bound (name, value) pairs, each name once.
    pub fn entries(&self) -> (r: &Vec<(String, String)>)
        ensures
            entries_map(r@) == self@,
            self.wf() ==> names_unique(r@),
    {
        &self.entries
    }
}

proof fn lemma_value_at(e: Seq<(String, String)>, i: int)
    requires
        names_unique(e),
        0 <= i < e.len(),
    ensures
        entries_map(e).contains_key(e[i].0@),
        entries_map(e)[e[i].0@] == e[i].1@,
    decreases e.len(),
{
    let p = e.drop_last();
    if i < e.len() - 1 {
        assert(names_unique(p)) by {
            assert forall|a: int, b: int| 0 <= a < b < p.len() implies (#[trigger] p[a]).0@
                != (#[trigger] p[b]).0@ by {
                assert(p[a] == e[a] && p[b] == e[b]);
            }
        }
        assert(p[i] == e[i]);
        lemma_value_at(p, i);
        assert(e[i].0@ != e[e.len() - 1].0@);
    }
}

proof fn lemma_remove_at(e: Seq<(String, String)>, i: int)
    requires
        names_unique(e),
        0 <= i < e.len(),
    ensures
        entries_map(e.remove(i)) == entries_map(e).remove(e[i].0@),
        names_unique(e.remove(i)),
    decreases e.len(),
{
    let k = e[i].0@;
    let r = e.remove(i);
    let p = e.drop_last();
    assert(names_unique(p)) by {
        assert forall|a: int, b: int| 0 <= a < b < p.len() implies (#[trigger] p[a]).0@
            != (#[trigger] p[b]).0@ by {
            assert(p[a] == e[a] && p[b] == e[b]);
        }
    }
    assert forall|a: int, b: int| 0 <= a < b < r.len() implies (#[trigger] r[a]).0@
        != (#[trigger] r[b]).0@ by {
        let a2 = if a < i { a } else { a + 1 };
        let b2 = if b < i { b } else { b + 1 };
        assert(r[a] == e[a2] && r[b] == e[b2]);
    }
    if i == e.len() - 1 {
        assert(r =~= p);
        lemma_entries_map_domain(p);
        assert(!entries_map(p).contains_key(k)) by {
            if entries_map(p).contains_key(k) {
                let j = choose|j: int| 0 <= j < p.len() && (#[trigger] p[j]).0@ == k;
                assert(p[j] == e[j]);
            }
        }
        assert(entries_map(e).remove(k) =~= entries_map(p));
    } else {
        lemma_remove_at(p, i);
        assert(p.remove(i) =~= r.drop_last());
        assert(r.last() == e.last());
        assert(e.last().0@ != k);
        assert(entries_map(r) =~= entries_map(e).remove(k));
    }
}

} // verus!
