//! Maps from strings to strings, kept as a list of pairs with distinct keys.
//!
//! The list is the iteration order (keys in order of first insertion); the
//! map it describes is the view.

use vstd::prelude::*;
use crate::text::{str_eq, views};

verus! {

/// The map that a list of pairs describes, later pairs winning.
pub open spec fn pairs_to_map(s: Seq<(Seq<char>, Seq<char>)>) -> Map<Seq<char>, Seq<char>>
    decreases s.len(),
{
    if s.len() == 0 {
        Map::empty()
    } else {
        pairs_to_map(s.drop_last()).insert(s.last().0, s.last().1)
    }
}

/// No key occurs twice in `s`.
pub open spec fn unique_keys(s: Seq<(Seq<char>, Seq<char>)>) -> bool {
    forall|i: int, j: int| 0 <= i < j < s.len() ==> (#[trigger] s[i]).0 != (#[trigger] s[j]).0
}

pub proof fn lemma_map_contains(s: Seq<(Seq<char>, Seq<char>)>, k: Seq<char>)
    ensures
        pairs_to_map(s).contains_key(k) <==> exists|i: int| 0 <= i < s.len() && (#[trigger] s[i]).0 == k,
    decreases s.len(),
{
    if s.len() > 0 {
        lemma_map_contains(s.drop_last(), k);
        if pairs_to_map(s.drop_last()).contains_key(k) {
            let i = choose|i: int| 0 <= i < s.drop_last().len() && (#[trigger] s.drop_last()[i]).0 == k;
            assert(s[i] == s.drop_last()[i]);
        }
        if exists|i: int| 0 <= i < s.len() && (#[trigger] s[i]).0 == k {
            let i = choose|i: int| 0 <= i < s.len() && (#[trigger] s[i]).0 == k;
            if i < s.len() - 1 {
                assert(s.drop_last()[i] == s[i]);
            }
        }
    }
}

pub proof fn lemma_map_value(s: Seq<(Seq<char>, Seq<char>)>, i: int)
    requires
        unique_keys(s),
        0 <= i < s.len(),
    ensures
        pairs_to_map(s).contains_key(s[i].0),
        pairs_to_map(s)[s[i].0] == s[i].1,
    decreases s.len(),
{
    if i < s.len() - 1 {
        assert(s.drop_last()[i] == s[i]);
        assert(s[i].0 != s[s.len() - 1].0);
        lemma_map_value(s.drop_last(), i);
    }
}

/// A list of pairs describes a map with finitely many keys.
pub proof fn lemma_map_finite(s: Seq<(Seq<char>, Seq<char>)>)
    ensures
        pairs_to_map(s).dom().finite(),
    decreases s.len(),
{
    if s.len() > 0 {
        lemma_map_finite(s.drop_last());
    }
}

pub proof fn lemma_map_len(s: Seq<(Seq<char>, Seq<char>)>)
    requires
        unique_keys(s),
    ensures
        pairs_to_map(s).dom().finite(),
        pairs_to_map(s).len() == s.len(),
    decreases s.len(),
{
    if s.len() > 0 {
        let d = s.drop_last();
        assert(unique_keys(d)) by {
            assert forall|i: int, j: int| 0 <= i < j < d.len() implies (#[trigger] d[i]).0 != (
            #[trigger] d[j]).0 by {
                assert(d[i] == s[i] && d[j] == s[j]);
            }
        }
        lemma_map_len(d);
        lemma_map_contains(d, s.last().0);
        if pairs_to_map(d).contains_key(s.last().0) {
            let i = choose|i: int| 0 <= i < d.len() && (#[trigger] d[i]).0 == s.last().0;
            assert(d[i] == s[i]);
            assert(false);
        }
    }
}

/// Replacing the value of the pair at `i` updates the map at its key.
pub proof fn lemma_map_update(s: Seq<(Seq<char>, Seq<char>)>, i: int, v: Seq<char>)
    requires
        unique_keys(s),
        0 <= i < s.len(),
    ensures
        unique_keys(s.update(i, (s[i].0, v))),
        pairs_to_map(s.update(i, (s[i].0, v))) == pairs_to_map(s).insert(s[i].0, v),
{
    let t = s.update(i, (s[i].0, v));
    assert(unique_keys(t)) by {
        assert forall|a: int, b: int| 0 <= a < b < t.len() implies (#[trigger] t[a]).0 != (
        #[trigger] t[b]).0 by {
            assert(t[a].0 == s[a].0 && t[b].0 == s[b].0);
        }
    }
    let m1 = pairs_to_map(t);
    let m2 = pairs_to_map(s).insert(s[i].0, v);
    assert forall|k: Seq<char>| m1.contains_key(k) <==> m2.contains_key(k) by {
        lemma_map_contains(t, k);
        lemma_map_contains(s, k);
        if m2.contains_key(k) {
            if k == s[i].0 {
                assert(t[i].0 == k);
            } else {
                let j = choose|j: int| 0 <= j < s.len() && (#[trigger] s[j]).0 == k;
                assert(t[j].0 == k);
            }
        }
        if m1.contains_key(k) {
            let j = choose|j: int| 0 <= j < t.len() && (#[trigger] t[j]).0 == k;
            assert(s[j].0 == k);
        }
    }
    assert forall|k: Seq<char>| #[trigger] m1.contains_key(k) implies m1[k] == m2[k] by {
        lemma_map_contains(t, k);
        let j = choose|j: int| 0 <= j < t.len() && (#[trigger] t[j]).0 == k;
        lemma_map_value(t, j);
        if j != i {
            lemma_map_value(s, j);
            assert(s[j] == t[j]);
            assert(k != s[i].0);
        }
    }
    assert(m1 =~= m2);
}


/// Facts about a list of pairs with distinct keys.
pub proof fn lemma_pairs_facts(s: Seq<(Seq<char>, Seq<char>)>)
    requires
        unique_keys(s),
    ensures
        pairs_to_map(s).dom().finite(),
        pairs_to_map(s).len() == s.len(),
        forall|i: int|
            0 <= i < s.len() ==> pairs_to_map(s).contains_key((#[trigger] s[i]).0)
                && pairs_to_map(s)[s[i].0] == s[i].1,
        forall|k: Seq<char>| #[trigger]
            pairs_to_map(s).contains_key(k) ==> exists|i: int| 0 <= i < s.len() && (#[trigger] s[i]).0 == k,
{
    lemma_map_len(s);
    assert forall|i: int| 0 <= i < s.len() implies pairs_to_map(s).contains_key(
        (#[trigger] s[i]).0,
    ) && pairs_to_map(s)[s[i].0] == s[i].1 by {
        lemma_map_value(s, i);
    }
    assert forall|k: Seq<char>| #[trigger] pairs_to_map(s).contains_key(k) implies exists|i: int|
        0 <= i < s.len() && (#[trigger] s[i]).0 == k by {
        lemma_map_contains(s, k);
    }
}

/// A map from strings to strings.
#[derive(Debug)]
pub struct StringMap {
    entries: Vec<(String, String)>,
}

impl View for StringMap {
    type V = Map<Seq<char>, Seq<char>>;

    open spec fn view(&self) -> Map<Seq<char>, Seq<char>> {
        pairs_to_map(self.entry_seq())
    }
}

impl StringMap {
    /// The stored pairs, in order of first insertion of their keys.
    pub closed spec fn entry_seq(&self) -> Seq<(Seq<char>, Seq<char>)> {
        self.entries@.map_values(|e: (String, String)| (e.0@, e.1@))
    }

    #[verifier::type_invariant]
    spec fn inv(&self) -> bool {
        unique_keys(self.entry_seq())
    }

    /// An empty map.
    pub fn new() -> (r: Self)
        ensures
            r@ == Map::<Seq<char>, Seq<char>>::empty(),
            r.entry_seq() == Seq::<(Seq<char>, Seq<char>)>::empty(),
    {
        let r = StringMap { entries: Vec::new() };
        assert(r.entry_seq() =~= Seq::empty());
        r
    }

    /// Position of `key` among the stored pairs.
    fn position(&self, key: &str) -> (r: Option<usize>)
        ensures
            match r {
                Some(i) => i < self.entry_seq().len() && self.entry_seq()[i as int].0 == key@,
                None => forall|i: int|
                    0 <= i < self.entry_seq().len() ==> (#[trigger] self.entry_seq()[i]).0
                        != key@,
            },
    {
        let mut i: usize = 0;
        while i < self.entries.len()
            invariant
                i <= self.entries@.len(),
                forall|j: int| 0 <= j < i ==> (#[trigger] self.entry_seq()[j]).0 != key@,
            decreases self.entries@.len() - i,
        {
            if str_eq(self.entries[i].0.as_str(), key) {
                return Some(i);
            }
            i = i + 1;
        }
        None
    }

    /// Set `key` to `value`, replacing an earlier value.
    pub fn insert(&mut self, key: &str, value: &str)
        ensures
            final(self)@ == old(self)@.insert(key@, value@),
    {
        proof {
            use_type_invariant(&*self);
        }
        let pos = self.position(key);
        let ghost s = self.entry_seq();
        let mut entries: Vec<(String, String)> = Vec::new();
        std::mem::swap(&mut entries, &mut self.entries);
        assert(entries@.map_values(|e: (String, String)| (e.0@, e.1@)) == s);
        let k = key.to_owned();
        let v = value.to_owned();
        match pos {
            Some(i) => {
                entries.set(i, (k, v));
                proof {
                    lemma_map_update(s, i as int, value@);
                    assert(entries@.map_values(|e: (String, String)| (e.0@, e.1@)) =~= s.update(
                        i as int,
                        (s[i as int].0, value@),
                    ));
                }
            },
            None => {
                entries.push((k, v));
                proof {
                    let t = entries@.map_values(|e: (String, String)| (e.0@, e.1@));
                    assert(t =~= s.push((key@, value@)));
                    assert(t.drop_last() =~= s);
                }
            },
        }
        self.entries = entries;
    }

    /// The value stored under `key`.
    pub fn get(&self, key: &str) -> (r: Option<&str>)
        ensures
            match r {
                Some(v) => self@.contains_key(key@) && v@ == self@[key@],
                None => !self@.contains_key(key@),
            },
    {
        proof {
            use_type_invariant(self);
        }
        match self.position(key) {
            Some(i) => {
                proof {
                    lemma_map_value(self.entry_seq(), i as int);
                }
                Some(self.entries[i].1.as_str())
            },
            None => {
                proof {
                    lemma_map_contains(self.entry_seq(), key@);
                }
                None
            },
        }
    }

    /// Number of keys.
    pub fn len(&self) -> (r: usize)
        ensures
            r == self@.len(),
    {
        proof {
            use_type_invariant(self);
            lemma_map_len(self.entry_seq());
        }
        self.entries.len()
    }

    /// The stored `(key, value)` pairs.
    pub fn pairs(&self) -> (r: Vec<(&str, &str)>)
        ensures
            r@.map_values(|p: (&str, &str)| (p.0@, p.1@)) == self.entry_seq(),
            unique_keys(self.entry_seq()),
    {
        proof {
            use_type_invariant(self);
        }
        let mut out: Vec<(&str, &str)> = Vec::new();
        let mut i: usize = 0;
        while i < self.entries.len()
            invariant
                i <= self.entries@.len(),
                out@.map_values(|p: (&str, &str)| (p.0@, p.1@)) == self.entry_seq().take(i as int),
            decreases self.entries@.len() - i,
        {
            let e = &self.entries[i];
            out.push((e.0.as_str(), e.1.as_str()));
            assert(self.entry_seq()[i as int] == (e.0@, e.1@));
            assert(self.entry_seq().take(i + 1) =~= self.entry_seq().take(i as int).push((e.0@, e.1@)));
            assert(out@.map_values(|p: (&str, &str)| (p.0@, p.1@)) =~= self.entry_seq().take(
                i + 1,
            ));
            i = i + 1;
        }
        assert(self.entry_seq().take(self.entries@.len() as int) =~= self.entry_seq());
        out
    }

    /// The stored keys.
    pub fn keys(&self) -> (r: Vec<&str>)
        ensures
            views(r@) == self.entry_seq().map_values(|p: (Seq<char>, Seq<char>)| p.0),
            unique_keys(self.entry_seq()),
    {
        proof {
            use_type_invariant(self);
        }
        let mut out: Vec<&str> = Vec::new();
        let mut i: usize = 0;
        while i < self.entries.len()
            invariant
                i <= self.entries@.len(),
                views(out@) == self.entry_seq().map_values(|p: (Seq<char>, Seq<char>)| p.0).take(
                    i as int,
                ),
            decreases self.entries@.len() - i,
        {
            let ghost before = out@;
            let k = self.entries[i].0.as_str();
            out.push(k);
            assert(self.entry_seq()[i as int].0 == k@);
            assert(views(out@) =~= views(before).push(k@));
            assert(views(out@) =~= self.entry_seq().map_values(
                |p: (Seq<char>, Seq<char>)| p.0,
            ).take(i + 1));
            i = i + 1;
        }
        assert(self.entry_seq().map_values(|p: (Seq<char>, Seq<char>)| p.0).take(
            self.entries@.len() as int,
        ) =~= self.entry_seq().map_values(|p: (Seq<char>, Seq<char>)| p.0));
        out
    }
}

} // verus!
