//! Sorting by a string key, in code point order.
//!
//! The order is specified as selection: the smallest element (the first of
//! equal smallest ones) comes first, then the rest sorted the same way. This
//! is a stable sort by key.

use vstd::prelude::*;
use crate::text::{lex_lt, str_lt, lemma_lex_lt_total, lemma_lex_lt_trans};

verus! {

/// A value with a string key to sort by.
pub trait Keyed {
    spec fn key(&self) -> Seq<char>;

    fn key_str(&self) -> (r: &str)
        ensures
            r@ == self.key(),
    ;
}

impl Keyed for String {
    open spec fn key(&self) -> Seq<char> {
        self@
    }

    fn key_str(&self) -> (r: &str) {
        self.as_str()
    }
}

/// Index of the first element of `s` with the smallest key.
pub open spec fn min_index_by<T>(s: Seq<T>, key: spec_fn(T) -> Seq<char>) -> int
    decreases s.len(),
{
    if s.len() <= 1 {
        0
    } else {
        let k = min_index_by(s.drop_last(), key);
        if lex_lt(key(s.last()), key(s[k])) {
            s.len() - 1
        } else {
            k
        }
    }
}

pub proof fn lemma_min_index_range<T>(s: Seq<T>, key: spec_fn(T) -> Seq<char>)
    requires
        s.len() > 0,
    ensures
        0 <= min_index_by(s, key) < s.len(),
    decreases s.len(),
{
    if s.len() > 1 {
        lemma_min_index_range(s.drop_last(), key);
    }
}

/// `s` in key order (selection order: first smallest first).
pub open spec fn sorted_by<T>(s: Seq<T>, key: spec_fn(T) -> Seq<char>) -> Seq<T>
    decreases s.len(),
{
    if s.len() == 0 {
        Seq::empty()
    } else {
        let m = min_index_by(s, key);
        proof {
            lemma_min_index_range(s, key);
        }
        seq![s[m]] + sorted_by(s.remove(m), key)
    }
}

/// The key of a `Keyed` value, as a function.
pub open spec fn key_of<T: Keyed>() -> spec_fn(T) -> Seq<char> {
    |x: T| x.key()
}

/// The identity key on character sequences.
pub open spec fn chars_key() -> spec_fn(Seq<char>) -> Seq<char> {
    |x: Seq<char>| x
}

proof fn lemma_min_index_map<A, B>(
    s: Seq<A>,
    f: spec_fn(A) -> B,
    ka: spec_fn(A) -> Seq<char>,
    kb: spec_fn(B) -> Seq<char>,
)
    requires
        forall|x: A| #[trigger] kb(f(x)) == ka(x),
    ensures
        min_index_by(s.map_values(f), kb) == min_index_by(s, ka),
    decreases s.len(),
{
    if s.len() > 1 {
        assert(s.map_values(f).drop_last() =~= s.drop_last().map_values(f));
        lemma_min_index_map(s.drop_last(), f, ka, kb);
        lemma_min_index_range(s.drop_last(), ka);
        let k = min_index_by(s.drop_last(), ka);
        assert(kb(f(s.last())) == ka(s.last()));
        assert(kb(f(s[k])) == ka(s[k]));
    }
}

/// Sorting commutes with a map that keeps keys.
pub proof fn lemma_sorted_by_map<A, B>(
    s: Seq<A>,
    f: spec_fn(A) -> B,
    ka: spec_fn(A) -> Seq<char>,
    kb: spec_fn(B) -> Seq<char>,
)
    requires
        forall|x: A| #[trigger] kb(f(x)) == ka(x),
    ensures
        sorted_by(s.map_values(f), kb) == sorted_by(s, ka).map_values(f),
    decreases s.len(),
{
    if s.len() > 0 {
        lemma_min_index_map(s, f, ka, kb);
        lemma_min_index_range(s, ka);
        let m = min_index_by(s, ka);
        assert(s.map_values(f).remove(m) =~= s.remove(m).map_values(f));
        lemma_sorted_by_map(s.remove(m), f, ka, kb);
        assert(sorted_by(s.map_values(f), kb) =~= sorted_by(s, ka).map_values(f));
    } else {
        assert(sorted_by(s.map_values(f), kb) =~= sorted_by(s, ka).map_values(f));
    }
}

/// No element's key sorts before the key at `min_index_by`.
pub proof fn lemma_min_index_is_min<T>(s: Seq<T>, key: spec_fn(T) -> Seq<char>)
    requires
        s.len() > 0,
    ensures
        forall|j: int|
            0 <= j < s.len() ==> !lex_lt(#[trigger] key(s[j]), key(s[min_index_by(s, key)])),
    decreases s.len(),
{
    lemma_min_index_range(s, key);
    let m = min_index_by(s, key);
    lemma_lex_lt_total(key(s[m]), key(s[m]));
    if s.len() > 1 {
        let d = s.drop_last();
        lemma_min_index_is_min(d, key);
        lemma_min_index_range(d, key);
        let k = min_index_by(d, key);
        assert forall|j: int| 0 <= j < s.len() implies !lex_lt(#[trigger] key(s[j]), key(s[m])) by {
            if j < s.len() - 1 {
                assert(key(d[j]) == key(s[j]));
                if m == s.len() - 1 && lex_lt(key(s[j]), key(s[m])) {
                    lemma_lex_lt_trans(key(s[j]), key(s[m]), key(s[k]));
                }
            }
        }
    }
}

/// Sorting by key gives an ordering of the same elements in which no key
/// sorts before an earlier one.
pub proof fn lemma_sorted_by_sorted_permutation<T>(s: Seq<T>, key: spec_fn(T) -> Seq<char>)
    ensures
        sorted_by(s, key).to_multiset() == s.to_multiset(),
        forall|i: int, j: int|
            0 <= i < j < sorted_by(s, key).len() ==> !lex_lt(
                key(#[trigger] sorted_by(s, key)[j]),
                key(#[trigger] sorted_by(s, key)[i]),
            ),
    decreases s.len(),
{
    broadcast use vstd::seq_lib::group_to_multiset_ensures;
    broadcast use vstd::multiset::group_multiset_axioms;

    if s.len() > 0 {
        lemma_min_index_range(s, key);
        lemma_min_index_is_min(s, key);
        let m = min_index_by(s, key);
        let t = s.remove(m);
        lemma_sorted_by_sorted_permutation(t, key);
        let r = sorted_by(s, key);
        let st = sorted_by(t, key);
        assert(r =~= st.insert(0, s[m]));
        assert(s.to_multiset().count(s[m]) > 0);
        assert(r.to_multiset() =~= s.to_multiset());
        assert forall|i: int, j: int| 0 <= i < j < r.len() implies !lex_lt(
            key(#[trigger] r[j]),
            key(#[trigger] r[i]),
        ) by {
            assert(r[j] == st[j - 1]);
            if i == 0 {
                assert(st.to_multiset().count(st[j - 1]) > 0);
                assert(t.contains(st[j - 1]));
                let k = choose|k: int| 0 <= k < t.len() && t[k] == st[j - 1];
                let k2 = if k < m {
                    k
                } else {
                    k + 1
                };
                assert(t[k] == s[k2]);
                assert(!lex_lt(key(s[k2]), key(s[m])));
            } else {
                assert(r[i] == st[i - 1]);
            }
        }
    } else {
        assert(sorted_by(s, key) =~= s);
    }
}

/// Whether no two elements of `s` have the same key.
pub open spec fn distinct_keys<T>(s: Seq<T>, key: spec_fn(T) -> Seq<char>) -> bool {
    forall|i: int, j: int| 0 <= i < j < s.len() ==> key(#[trigger] s[i]) != key(#[trigger] s[j])
}

/// With distinct keys, the sorted order depends only on which elements there
/// are, not on the order they come in.
pub proof fn lemma_sorted_by_permutation<T>(s1: Seq<T>, s2: Seq<T>, key: spec_fn(T) -> Seq<char>)
    requires
        s1.to_multiset() == s2.to_multiset(),
        distinct_keys(s1, key),
    ensures
        sorted_by(s1, key) == sorted_by(s2, key),
    decreases s1.len(),
{
    broadcast use vstd::seq_lib::group_to_multiset_ensures;

    vstd::seq_lib::to_multiset_len(s1);
    vstd::seq_lib::to_multiset_len(s2);
    assert(s1.len() == s2.len());
    if s1.len() > 0 {
        lemma_min_index_range(s1, key);
        lemma_min_index_range(s2, key);
        lemma_min_index_is_min(s1, key);
        lemma_min_index_is_min(s2, key);
        let m1 = min_index_by(s1, key);
        let m2 = min_index_by(s2, key);
        let x1 = s1[m1];
        let x2 = s2[m2];
        assert(s1.to_multiset().count(x1) > 0);
        assert(s2.contains(x1));
        let i = choose|i: int| 0 <= i < s2.len() && s2[i] == x1;
        assert(s2.to_multiset().count(x2) > 0);
        assert(s1.contains(x2));
        let j = choose|j: int| 0 <= j < s1.len() && s1[j] == x2;
        assert(!lex_lt(key(s2[i]), key(s2[m2])));
        assert(!lex_lt(key(s1[j]), key(s1[m1])));
        lemma_lex_lt_total(key(x1), key(x2));
        if j != m1 {
            if j < m1 {
                assert(key(s1[j]) != key(s1[m1]));
            } else {
                assert(key(s1[m1]) != key(s1[j]));
            }
        }
        assert(x1 == x2);
        let r1 = s1.remove(m1);
        let r2 = s2.remove(m2);
        assert(r1.to_multiset() == r2.to_multiset());
        assert forall|a: int, b: int| 0 <= a < b < r1.len() implies key(#[trigger] r1[a]) != key(
            #[trigger] r1[b],
        ) by {
            let a1 = if a < m1 { a } else { a + 1 };
            let b1 = if b < m1 { b } else { b + 1 };
            assert(r1[a] == s1[a1]);
            assert(r1[b] == s1[b1]);
            assert(key(s1[a1]) != key(s1[b1]));
        }
        lemma_sorted_by_permutation(r1, r2, key);
    } else {
        assert(s1 =~= s2);
    }
}

/// Locate the first element with the smallest key.
fn find_min<T: Keyed>(v: &Vec<T>) -> (r: usize)
    requires
        v@.len() > 0,
    ensures
        r == min_index_by(v@, key_of::<T>()),
{
    let ghost key = key_of::<T>();
    let mut m: usize = 0;
    let mut i: usize = 1;
    while i < v.len()
        invariant
            1 <= i <= v@.len(),
            key == key_of::<T>(),
            m == min_index_by(v@.take(i as int), key),
            m < i,
        decreases v@.len() - i,
    {
        proof {
            assert(v@.take(i + 1).drop_last() =~= v@.take(i as int));
            lemma_min_index_range(v@.take(i as int), key);
        }
        if str_lt(v[i].key_str(), v[m].key_str()) {
            m = i;
        }
        i = i + 1;
    }
    assert(v@.take(v@.len() as int) =~= v@);
    m
}

/// Sort by key (stable).
pub fn sort_by_key<T: Keyed>(v: Vec<T>) -> (r: Vec<T>)
    ensures
        r@ == sorted_by(v@, key_of::<T>()),
{
    let ghost key = key_of::<T>();
    let ghost orig = v@;
    let mut rem = v;
    let mut out: Vec<T> = Vec::new();
    assert(out@ + sorted_by(rem@, key) =~= sorted_by(orig, key));
    while rem.len() > 0
        invariant
            key == key_of::<T>(),
            out@ + sorted_by(rem@, key) == sorted_by(orig, key),
        decreases rem@.len(),
    {
        let m = find_min(&rem);
        proof {
            lemma_min_index_range(rem@, key);
        }
        let ghost before = rem@;
        let x = rem.remove(m);
        assert(sorted_by(before, key) == seq![x] + sorted_by(rem@, key));
        let ghost out_before = out@;
        out.push(x);
        assert(out@ + sorted_by(rem@, key) =~= out_before + (seq![x] + sorted_by(rem@, key)));
    }
    assert(sorted_by(rem@, key) =~= Seq::<T>::empty());
    assert(out@ + sorted_by(rem@, key) =~= out@);
    out
}

/// The character views of a sequence of strings.
pub open spec fn string_views(s: Seq<String>) -> Seq<Seq<char>> {
    s.map_values(|x: String| x@)
}

/// Sort strings in code point order.
pub fn sort_strings(v: Vec<String>) -> (r: Vec<String>)
    ensures
        string_views(r@) == sorted_by(string_views(v@), chars_key()),
{
    let r = sort_by_key(v);
    proof {
        let f = |x: String| x@;
        lemma_sorted_by_map(v@, f, key_of::<String>(), chars_key());
    }
    r
}

} // verus!
