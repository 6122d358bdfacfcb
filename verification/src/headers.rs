//! A model of a request or response header map: an ordered list of
//! name/value pairs whose names compare ASCII case-insensitively.
//!
//! `get` and `remove` see the first pair with a matching name, `remove`
//! drops every matching pair, `insert` replaces and `append` adds a pair
//! without touching existing ones, mirroring the usual HTTP header-map
//! semantics.

use vstd::prelude::*;
use crate::text::eq_ignore_case;

verus! {

/// The mathematical view of a header map: the sequence of its
/// name/value pairs, in order.
pub type HeadersView = Seq<(Seq<char>, Seq<char>)>;

/// First value stored under `name` (ASCII case-insensitive), if any.
pub open spec fn header_first_value(h: HeadersView, name: Seq<char>) -> Option<Seq<char>>
    decreases h.len(),
{
    if h.len() == 0 {
        None
    } else if eq_ignore_case(h[0].0, name) {
        Some(h[0].1)
    } else {
        header_first_value(h.drop_first(), name)
    }
}

/// Whether some pair is stored under `name` (ASCII case-insensitive).
pub open spec fn has_header(h: HeadersView, name: Seq<char>) -> bool {
    exists|i: int| 0 <= i < h.len() && eq_ignore_case(h[i].0, name)
}

/// The header sequence with every pair named `name` removed.
pub open spec fn remove_header(h: HeadersView, name: Seq<char>) -> HeadersView
    decreases h.len(),
{
    if h.len() == 0 {
        Seq::empty()
    } else if eq_ignore_case(h[0].0, name) {
        remove_header(h.drop_first(), name)
    } else {
        seq![h[0]] + remove_header(h.drop_first(), name)
    }
}

/// A header map: ordered name/value pairs.
pub struct Headers {
    entries: Vec<(String, String)>,
}

impl View for Headers {
    type V = HeadersView;

    closed spec fn view(&self) -> HeadersView {
        self.entries@.map_values(|p: (String, String)| (p.0@, p.1@))
    }
}

/// Skipping one more element commutes with the specs' front recursion.
proof fn lemma_skip_step(h: HeadersView, i: int)
    requires
        0 <= i < h.len(),
    ensures
        h.skip(i).len() == h.len() - i,
        h.skip(i)[0] == h[i],
        h.skip(i).drop_first() =~= h.skip(i + 1),
{
}

/// `header_first_value` ignores a non-matching prefix.
proof fn lemma_first_value_step(h: HeadersView, name: Seq<char>, i: int)
    requires
        0 <= i < h.len(),
    ensures
        header_first_value(h.skip(i), name) == if eq_ignore_case(h[i].0, name) {
            Some(h[i].1)
        } else {
            header_first_value(h.skip(i + 1), name)
        },
{
    lemma_skip_step(h, i);
}

/// `remove_header` keeps exactly the non-matching pairs, front to back.
proof fn lemma_remove_step(h: HeadersView, name: Seq<char>, i: int)
    requires
        0 <= i < h.len(),
    ensures
        remove_header(h.skip(i), name) == if eq_ignore_case(h[i].0, name) {
            remove_header(h.skip(i + 1), name)
        } else {
            seq![h[i]] + remove_header(h.skip(i + 1), name)
        },
{
    lemma_skip_step(h, i);
}

impl Headers {
    /// An empty header map.
    pub fn new() -> (r: Headers)
        ensures
            r@ == Seq::<(Seq<char>, Seq<char>)>::empty(),
    {
        Headers { entries: Vec::new() }
    }

    /// Number of stored pairs.
    pub fn len(&self) -> (r: usize)
        ensures
            r == self@.len(),
    {
        self.entries.len()
    }

    /// The name of the pair at an index, for callers that enumerate
    /// the map.
    pub fn name_at(&self, i: usize) -> (r: &String)
        requires
            i < self@.len(),
        ensures
            r@ == self@[i as int].0,
    {
        &self.entries[i].0
    }

    /// The value of the pair at an index.
    pub fn value_at(&self, i: usize) -> (r: &String)
        requires
            i < self@.len(),
        ensures
            r@ == self@[i as int].1,
    {
        &self.entries[i].1
    }

    /// Adds a pair at the end, leaving existing pairs untouched.
    pub fn append(&mut self, name: &str, value: &str)
        ensures
            final(self)@ == old(self)@.push((name@, value@)),
    {
        self.entries.push((name.to_owned(), value.to_owned()));
        assert(final(self)@ =~= old(self)@.push((name@, value@)));
    }

    /// Returns a copy of the first value stored under `name`, if any.
    pub fn get(&self, name: &str) -> (r: Option<String>)
        ensures
            match r {
                Some(v) => header_first_value(self@, name@) == Some(v@),
                None => header_first_value(self@, name@) is None,
            },
    {
        let ghost h = self@;
        proof {
            assert(h.skip(0) =~= h);
        }
        let mut i: usize = 0;
        while i < self.entries.len()
            invariant
                i <= h.len(),
                h == self@,
                h.len() == self.entries.len(),
                header_first_value(h, name@) == header_first_value(h.skip(i as int), name@),
            decreases h.len() - i,
        {
            proof {
                lemma_first_value_step(h, name@, i as int);
            }
            if crate::text::str_eq_ignore_case(self.entries[i].0.as_str(), name) {
                return Some(self.entries[i].1.clone());
            }
            i = i + 1;
        }
        proof {
            assert(h.skip(h.len() as int) =~= Seq::<(Seq<char>, Seq<char>)>::empty());
        }
        None
    }

    /// Whether some pair is stored under `name`.
    pub fn contains(&self, name: &str) -> (r: bool)
        ensures
            r == has_header(self@, name@),
    {
        proof {
            lemma_has_header_first_value(self@, name@);
        }
        match self.get(name) {
            Some(_) => true,
            None => false,
        }
    }

    /// Removes every pair stored under `name` and returns the first
    /// removed value, if any.
    pub fn remove(&mut self, name: &str) -> (r: Option<String>)
        ensures
            final(self)@ == remove_header(old(self)@, name@),
            match r {
                Some(v) => header_first_value(old(self)@, name@) == Some(v@),
                None => header_first_value(old(self)@, name@) is None,
            },
    {
        let ghost h = self@;
        let mut kept: Vec<(String, String)> = Vec::new();
        let mut found: Option<String> = None;
        proof {
            assert(h.skip(0) =~= h);
            assert(kept@.map_values(|p: (String, String)| (p.0@, p.1@)) =~= Seq::<(
                Seq<char>,
                Seq<char>,
            )>::empty());
            assert(kept@.map_values(|p: (String, String)| (p.0@, p.1@)) + remove_header(h, name@)
                =~= remove_header(h, name@));
        }
        let mut i: usize = 0;
        while i < self.entries.len()
            invariant
                i <= h.len(),
                h == self@,
                h.len() == self.entries.len(),
                remove_header(h, name@) == kept@.map_values(|p: (String, String)| (p.0@, p.1@))
                    + remove_header(h.skip(i as int), name@),
                match found {
                    Some(v) => header_first_value(h, name@) == Some(v@),
                    None => header_first_value(h, name@) == header_first_value(
                        h.skip(i as int),
                        name@,
                    ),
                },
            decreases h.len() - i,
        {
            proof {
                lemma_first_value_step(h, name@, i as int);
                lemma_remove_step(h, name@, i as int);
            }
            let ghost kept_pre = kept@;
            if crate::text::str_eq_ignore_case(self.entries[i].0.as_str(), name) {
                if found.is_none() {
                    found = Some(self.entries[i].1.clone());
                }
            } else {
                let pair = (self.entries[i].0.clone(), self.entries[i].1.clone());
                kept.push(pair);
                proof {
                    assert(kept@.map_values(|p: (String, String)| (p.0@, p.1@)) =~= kept_pre.map_values(
                        |p: (String, String)| (p.0@, p.1@),
                    ) + seq![h[i as int]]);
                }
            }
            i = i + 1;
        }
        proof {
            assert(h.skip(h.len() as int) =~= Seq::<(Seq<char>, Seq<char>)>::empty());
        }
        self.entries = kept;
        found
    }

    /// Replaces every pair stored under `name` by the single pair
    /// `(name, value)`, appended at the end.
    pub fn insert(&mut self, name: &str, value: &str)
        ensures
            final(self)@ == remove_header(old(self)@, name@).push((name@, value@)),
    {
        let _ = self.remove(name);
        self.append(name, value);
    }
}

/// Removal only removes: a name found after `remove_header` was there
/// before.
pub proof fn lemma_remove_header_keeps_only(h: HeadersView, name: Seq<char>, m: Seq<char>)
    requires
        has_header(remove_header(h, name), m),
    ensures
        has_header(h, m),
    decreases h.len(),
{
    if h.len() > 0 {
        let rest = remove_header(h.drop_first(), name);
        if eq_ignore_case(h[0].0, name) {
            lemma_remove_header_keeps_only(h.drop_first(), name, m);
            let j = choose|j: int|
                0 <= j < h.drop_first().len() && eq_ignore_case(h.drop_first()[j].0, m);
            assert(h[j + 1] == h.drop_first()[j]);
        } else {
            let r = seq![h[0]] + rest;
            let i = choose|i: int| 0 <= i < r.len() && eq_ignore_case(r[i].0, m);
            if i == 0 {
                assert(r[0] == h[0]);
            } else {
                assert(r[i] == rest[i - 1]);
                assert(has_header(rest, m));
                lemma_remove_header_keeps_only(h.drop_first(), name, m);
                let j = choose|j: int|
                    0 <= j < h.drop_first().len() && eq_ignore_case(h.drop_first()[j].0, m);
                assert(h[j + 1] == h.drop_first()[j]);
            }
        }
    }
}

/// Appending one pair adds exactly that pair's name to what is present.
pub proof fn lemma_has_header_push(
    h: HeadersView,
    name: Seq<char>,
    value: Seq<char>,
    m: Seq<char>,
)
    ensures
        has_header(h.push((name, value)), m) <==> (has_header(h, m) || eq_ignore_case(name, m)),
{
    let p = h.push((name, value));
    if has_header(p, m) {
        let i = choose|i: int| 0 <= i < p.len() && eq_ignore_case(p[i].0, m);
        if i < h.len() {
            assert(p[i] == h[i]);
        } else {
            assert(p[i] == (name, value));
        }
    }
    if has_header(h, m) {
        let i = choose|i: int| 0 <= i < h.len() && eq_ignore_case(h[i].0, m);
        assert(p[i] == h[i]);
    }
    if eq_ignore_case(name, m) {
        assert(p[h.len() as int] == (name, value));
        assert(eq_ignore_case(p[h.len() as int].0, m));
    }
}

/// A name is present exactly when `header_first_value` finds a value.
pub proof fn lemma_has_header_first_value(h: HeadersView, name: Seq<char>)
    ensures
        has_header(h, name) <==> header_first_value(h, name) is Some,
    decreases h.len(),
{
    if h.len() > 0 {
        lemma_has_header_first_value(h.drop_first(), name);
        if eq_ignore_case(h[0].0, name) {
        } else {
            assert(has_header(h, name) <==> has_header(h.drop_first(), name)) by {
                if has_header(h, name) {
                    let i = choose|i: int| 0 <= i < h.len() && eq_ignore_case(h[i].0, name);
                    assert(h.drop_first()[i - 1] == h[i]);
                }
                if has_header(h.drop_first(), name) {
                    let i = choose|i: int|
                        0 <= i < h.drop_first().len() && eq_ignore_case(h.drop_first()[i].0, name);
                    assert(h[i + 1] == h.drop_first()[i]);
                }
            }
        }
    }
}

} // verus!
