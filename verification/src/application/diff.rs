//! Comparing a bundle with the local harness installation (`pn diff`).
//!
//! Files are compared by relative path; the bundle's `manifest.yaml` and
//! its `secrets/` are left out. Each list of the report is sorted and free
//! of repeats.

use vstd::prelude::*;
use crate::text::{has_prefix, str_eq, starts_with, lex_lt, lemma_lex_lt_total};
use crate::sorting::{sorted_by, chars_key, string_views, sort_strings, lemma_sorted_by_sorted_permutation};
use crate::security::integrity::PayloadFile;

verus! {

/// Whether a bundle file takes part in the comparison.
pub open spec fn compared_in_bundle(p: Seq<char>) -> bool {
    p != "manifest.yaml"@ && !has_prefix(p, "secrets/"@)
}

/// The paths of a list of files.
pub open spec fn paths_of(fs: Seq<PayloadFile>) -> Seq<Seq<char>> {
    fs.map_values(|f: PayloadFile| f.path@)
}

/// The contents of the first file at `p`.
pub open spec fn first_content(fs: Seq<PayloadFile>, p: Seq<char>) -> Option<Seq<u8>>
    decreases fs.len(),
{
    if fs.len() == 0 {
        None
    } else if fs[0].path@ == p {
        Some(fs[0].content@)
    } else {
        first_content(fs.drop_first(), p)
    }
}

/// `s` without adjacent repeats.
pub open spec fn dedup(s: Seq<Seq<char>>) -> Seq<Seq<char>>
    decreases s.len(),
{
    if s.len() == 0 {
        s
    } else {
        let d = dedup(s.drop_last());
        if d.len() > 0 && d.last() == s.last() {
            d
        } else {
            d.push(s.last())
        }
    }
}

/// `s` sorted, without repeats.
pub open spec fn sorted_distinct(s: Seq<Seq<char>>) -> Seq<Seq<char>> {
    dedup(sorted_by(s, chars_key()))
}

/// The bundle paths that take part.
pub open spec fn bundle_paths(bundle: Seq<PayloadFile>) -> Seq<Seq<char>> {
    paths_of(bundle).filter(|p: Seq<char>| compared_in_bundle(p))
}

/// Files in both whose contents differ.
pub open spec fn changed_spec(bundle: Seq<PayloadFile>, harness: Seq<PayloadFile>) -> Seq<Seq<char>> {
    sorted_distinct(
        bundle_paths(bundle).filter(
            |p: Seq<char>|
                paths_of(harness).contains(p) && first_content(bundle, p) != first_content(
                    harness,
                    p,
                ),
        ),
    )
}

/// Files only in the bundle.
pub open spec fn only_in_bundle_spec(bundle: Seq<PayloadFile>, harness: Seq<PayloadFile>) -> Seq<
    Seq<char>,
> {
    sorted_distinct(bundle_paths(bundle).filter(|p: Seq<char>| !paths_of(harness).contains(p)))
}

/// Files only in the harness.
pub open spec fn only_in_harness_spec(bundle: Seq<PayloadFile>, harness: Seq<PayloadFile>) -> Seq<
    Seq<char>,
> {
    sorted_distinct(paths_of(harness).filter(|p: Seq<char>| !bundle_paths(bundle).contains(p)))
}

/// The outcome of a comparison.
#[derive(Debug)]
pub struct DiffReport {
    pub changed: Vec<String>,
    pub only_in_bundle: Vec<String>,
    pub only_in_harness: Vec<String>,
}

impl DiffReport {
    /// Whether the bundle is in sync with the harness.
    pub fn in_sync(&self) -> (r: bool)
        ensures
            r == (self.changed@.len() == 0 && self.only_in_bundle@.len() == 0
                && self.only_in_harness@.len() == 0),
    {
        self.changed.len() == 0 && self.only_in_bundle.len() == 0 && self.only_in_harness.len()
            == 0
    }
}

fn is_compared_in_bundle(p: &str) -> (r: bool)
    ensures
        r == compared_in_bundle(p@),
{
    !str_eq(p, "manifest.yaml") && !starts_with(p, "secrets/")
}

fn has_path(fs: &Vec<PayloadFile>, p: &str) -> (r: bool)
    ensures
        r == paths_of(fs@).contains(p@),
{
    let mut i: usize = 0;
    while i < fs.len()
        invariant
            i <= fs@.len(),
            forall|j: int| 0 <= j < i ==> (#[trigger] fs@[j]).path@ != p@,
        decreases fs@.len() - i,
    {
        if str_eq(fs[i].path.as_str(), p) {
            assert(paths_of(fs@)[i as int] == p@);
            return true;
        }
        i = i + 1;
    }
    proof {
        if paths_of(fs@).contains(p@) {
            let j = choose|j: int| 0 <= j < paths_of(fs@).len() && paths_of(fs@)[j] == p@;
            assert(fs@[j].path@ == p@);
        }
    }
    false
}

fn first_content_exec<'a>(fs: &'a Vec<PayloadFile>, p: &str) -> (r: Option<&'a Vec<u8>>)
    ensures
        match r {
            Some(c) => first_content(fs@, p@) == Some(c@),
            None => first_content(fs@, p@) is None,
        },
{
    let mut i: usize = 0;
    assert(fs@.skip(0) =~= fs@);
    while i < fs.len()
        invariant
            i <= fs@.len(),
            first_content(fs@, p@) == first_content(fs@.skip(i as int), p@),
        decreases fs@.len() - i,
    {
        assert(fs@.skip(i as int)[0] == fs@[i as int]);
        assert(fs@.skip(i as int).drop_first() =~= fs@.skip(i + 1));
        if str_eq(fs[i].path.as_str(), p) {
            return Some(&fs[i].content);
        }
        i = i + 1;
    }
    None
}

fn same_bytes(a: &Vec<u8>, b: &Vec<u8>) -> (r: bool)
    ensures
        r == (a@ == b@),
{
    if a.len() != b.len() {
        return false;
    }
    let mut i: usize = 0;
    while i < a.len()
        invariant
            a@.len() == b@.len(),
            i <= a@.len(),
            forall|j: int| 0 <= j < i ==> a@[j] == b@[j],
        decreases a@.len() - i,
    {
        if a[i] != b[i] {
            return false;
        }
        i = i + 1;
    }
    assert(a@ =~= b@);
    true
}

fn dedup_exec(v: Vec<String>) -> (r: Vec<String>)
    ensures
        string_views(r@) == dedup(string_views(v@)),
{
    let ghost s = string_views(v@);
    let mut out: Vec<String> = Vec::new();
    let mut i: usize = 0;
    assert(s.take(0) =~= Seq::<Seq<char>>::empty());
    while i < v.len()
        invariant
            i <= v@.len(),
            s == string_views(v@),
            string_views(out@) == dedup(s.take(i as int)),
        decreases v@.len() - i,
    {
        assert(s.take(i + 1).drop_last() =~= s.take(i as int));
        assert(s.take(i + 1).last() == v@[i as int]@);
        let n = out.len();
        let repeat = n > 0 && str_eq(out[n - 1].as_str(), v[i].as_str());
        if !repeat {
            let ghost before = out@;
            out.push(v[i].clone());
            assert(string_views(out@) =~= string_views(before).push(v@[i as int]@));
        }
        i = i + 1;
    }
    assert(s.take(v@.len() as int) =~= s);
    out
}

fn kept_paths(bundle: &Vec<PayloadFile>) -> (r: Vec<String>)
    ensures
        string_views(r@) == bundle_paths(bundle@),
{
    let mut kept: Vec<String> = Vec::new();
    let mut i: usize = 0;
    while i < bundle.len()
        invariant
            i <= bundle@.len(),
            string_views(kept@) == paths_of(bundle@.take(i as int)).filter(
                |p: Seq<char>| compared_in_bundle(p),
            ),
        decreases bundle@.len() - i,
    {
        reveal(Seq::filter);
        assert(paths_of(bundle@.take(i + 1)).drop_last() =~= paths_of(bundle@.take(i as int)));
        assert(paths_of(bundle@.take(i + 1)).last() == bundle@[i as int].path@);
        if is_compared_in_bundle(bundle[i].path.as_str()) {
            let ghost before = kept@;
            kept.push(bundle[i].path.clone());
            assert(string_views(kept@) =~= string_views(before).push(bundle@[i as int].path@));
        }
        i = i + 1;
    }
    assert(bundle@.take(bundle@.len() as int) =~= bundle@);
    kept
}

fn split_kept(kept: &Vec<String>, bundle: &Vec<PayloadFile>, harness: &Vec<PayloadFile>) -> (r: (
    Vec<String>,
    Vec<String>,
))
    ensures
        string_views(r.0@) == string_views(kept@).filter(
            |p: Seq<char>|
                paths_of(harness@).contains(p) && first_content(bundle@, p) != first_content(
                    harness@,
                    p,
                ),
        ),
        string_views(r.1@) == string_views(kept@).filter(
            |p: Seq<char>| !paths_of(harness@).contains(p),
        ),
{
    let ghost bp = string_views(kept@);
    let ghost hp = paths_of(harness@);
    let mut changed: Vec<String> = Vec::new();
    let mut only_b: Vec<String> = Vec::new();
    let mut k: usize = 0;
    while k < kept.len()
        invariant
            k <= kept@.len(),
            string_views(kept@) == bp,
            hp == paths_of(harness@),
            string_views(changed@) == bp.take(k as int).filter(
                |p: Seq<char>|
                    hp.contains(p) && first_content(bundle@, p) != first_content(harness@, p),
            ),
            string_views(only_b@) == bp.take(k as int).filter(|p: Seq<char>| !hp.contains(p)),
        decreases kept@.len() - k,
    {
        reveal(Seq::filter);
        let p = kept[k].as_str();
        assert(bp.take(k + 1).drop_last() =~= bp.take(k as int));
        assert(bp.take(k + 1).last() == p@);
        if has_path(harness, p) {
            let a = first_content_exec(bundle, p);
            let b = first_content_exec(harness, p);
            let differ = match (a, b) {
                (Some(x), Some(y)) => !same_bytes(x, y),
                (None, None) => false,
                _ => true,
            };
            if differ {
                let ghost before = changed@;
                changed.push(kept[k].clone());
                assert(string_views(changed@) =~= string_views(before).push(p@));
            }
        } else {
            let ghost before = only_b@;
            only_b.push(kept[k].clone());
            assert(string_views(only_b@) =~= string_views(before).push(p@));
        }
        k = k + 1;
    }
    assert(bp.take(kept@.len() as int) =~= bp);
    (changed, only_b)
}

fn harness_only(kept: &Vec<String>, harness: &Vec<PayloadFile>) -> (r: Vec<String>)
    ensures
        string_views(r@) == paths_of(harness@).filter(
            |p: Seq<char>| !string_views(kept@).contains(p),
        ),
{
    let ghost bp = string_views(kept@);
    let ghost hp = paths_of(harness@);
    let mut only_h: Vec<String> = Vec::new();
    let mut j: usize = 0;
    while j < harness.len()
        invariant
            j <= harness@.len(),
            string_views(kept@) == bp,
            hp == paths_of(harness@),
            string_views(only_h@) == hp.take(j as int).filter(|p: Seq<char>| !bp.contains(p)),
        decreases harness@.len() - j,
    {
        reveal(Seq::filter);
        assert(hp.take(j + 1).drop_last() =~= hp.take(j as int));
        assert(hp.take(j + 1).last() == harness@[j as int].path@);
        let p = harness[j].path.as_str();
        let mut found = false;
        let mut t: usize = 0;
        while t < kept.len()
            invariant
                t <= kept@.len(),
                string_views(kept@) == bp,
                found == exists|x: int| 0 <= x < t && bp[x] == p@,
            decreases kept@.len() - t,
        {
            assert(bp[t as int] == kept@[t as int]@);
            if str_eq(kept[t].as_str(), p) {
                found = true;
            }
            t = t + 1;
        }
        assert(found == bp.contains(p@));
        if !found {
            let ghost before = only_h@;
            only_h.push(harness[j].path.clone());
            assert(string_views(only_h@) =~= string_views(before).push(p@));
        }
        j = j + 1;
    }
    assert(hp.take(harness@.len() as int) =~= hp);
    only_h
}

/// Compare the bundle's files with the harness's files (paths relative to
/// each root; contents read, empty when unreadable).
pub fn diff_files(bundle: &Vec<PayloadFile>, harness: &Vec<PayloadFile>) -> (r: DiffReport)
    ensures
        string_views(r.changed@) == changed_spec(bundle@, harness@),
        string_views(r.only_in_bundle@) == only_in_bundle_spec(bundle@, harness@),
        string_views(r.only_in_harness@) == only_in_harness_spec(bundle@, harness@),
{
    let kept = kept_paths(bundle);
    let (changed, only_b) = split_kept(&kept, bundle, harness);
    let only_h = harness_only(&kept, harness);
    DiffReport {
        changed: dedup_exec(sort_strings(changed)),
        only_in_bundle: dedup_exec(sort_strings(only_b)),
        only_in_harness: dedup_exec(sort_strings(only_h)),
    }
}

proof fn lemma_filter_mem(s: Seq<Seq<char>>, pred: spec_fn(Seq<char>) -> bool, x: Seq<char>)
    ensures
        s.filter(pred).contains(x) <==> (s.contains(x) && pred(x)),
{
    broadcast use vstd::seq_lib::group_filter_ensures;

    if s.filter(pred).contains(x) {
        s.lemma_filter_contains_rev(pred, x);
        let i = choose|i: int| 0 <= i < s.filter(pred).len() && s.filter(pred)[i] == x;
        assert(pred(s.filter(pred)[i]));
    }
    if s.contains(x) && pred(x) {
        let i = choose|i: int| 0 <= i < s.len() && s[i] == x;
        s.lemma_filter_contains(pred, i);
    }
}

proof fn lemma_dedup_mem(s: Seq<Seq<char>>, x: Seq<char>)
    ensures
        dedup(s).contains(x) <==> s.contains(x),
    decreases s.len(),
{
    if s.len() > 0 {
        let t = s.drop_last();
        lemma_dedup_mem(t, x);
        let d = dedup(t);
        assert(s =~= t.push(s.last()));
        assert(s.contains(x) <==> (t.contains(x) || s.last() == x)) by {
            if s.contains(x) {
                let i = choose|i: int| 0 <= i < s.len() && s[i] == x;
                if i < t.len() {
                    assert(t[i] == x);
                }
            }
            if t.contains(x) {
                let i = choose|i: int| 0 <= i < t.len() && t[i] == x;
                assert(s[i] == x);
            }
            if s.last() == x {
                assert(s[s.len() - 1] == x);
            }
        }
        if d.len() > 0 && d.last() == s.last() {
            if s.last() == x {
                assert(d[d.len() - 1] == x);
            }
        } else {
            let e = d.push(s.last());
            if e.contains(x) {
                let i = choose|i: int| 0 <= i < e.len() && e[i] == x;
                if i < d.len() {
                    assert(d[i] == x);
                }
            }
            if d.contains(x) {
                let i = choose|i: int| 0 <= i < d.len() && d[i] == x;
                assert(e[i] == x);
            }
            if s.last() == x {
                assert(e[e.len() - 1] == x);
            }
        }
    }
}

proof fn lemma_sorted_distinct_mem(s: Seq<Seq<char>>, x: Seq<char>)
    ensures
        sorted_distinct(s).contains(x) <==> s.contains(x),
{
    lemma_sorted_by_sorted_permutation(s, chars_key());
    lemma_dedup_mem(sorted_by(s, chars_key()), x);
    vstd::seq_lib::to_multiset_contains(s, x);
    vstd::seq_lib::to_multiset_contains(sorted_by(s, chars_key()), x);
}

proof fn lemma_dedup_strict(t: Seq<Seq<char>>)
    requires
        forall|i: int, j: int| 0 <= i < j < t.len() ==> !lex_lt(#[trigger] t[j], #[trigger] t[i]),
    ensures
        forall|i: int, j: int|
            0 <= i < j < dedup(t).len() ==> lex_lt(#[trigger] dedup(t)[i], #[trigger] dedup(t)[j]),
        dedup(t).len() > 0 ==> t.len() > 0 && dedup(t).last() == t.last(),
    decreases t.len(),
{
    if t.len() > 0 {
        let u = t.drop_last();
        let x = t.last();
        assert forall|i: int, j: int| 0 <= i < j < u.len() implies !lex_lt(
            #[trigger] u[j],
            #[trigger] u[i],
        ) by {
            assert(u[i] == t[i] && u[j] == t[j]);
        }
        lemma_dedup_strict(u);
        let d = dedup(u);
        if !(d.len() > 0 && d.last() == x) {
            let e = d.push(x);
            assert(dedup(t) == e);
            assert forall|i: int| 0 <= i < d.len() implies lex_lt(#[trigger] d[i], x) by {
                lemma_dedup_mem(u, d[i]);
                assert(d.contains(d[i]));
                let k = choose|k: int| 0 <= k < u.len() && u[k] == d[i];
                assert(t[k] == d[i]);
                assert(!lex_lt(x, d[i]));
                lemma_lex_lt_total(d[i], x);
                if d[i] == x {
                    assert(i < d.len() - 1);
                    assert(lex_lt(d[i], d[d.len() - 1]));
                    assert(d.last() == u.last());
                    assert(u.last() == t[t.len() - 2]);
                    assert(!lex_lt(t[t.len() - 1], t[t.len() - 2]));
                }
            }
            assert forall|i: int, j: int| 0 <= i < j < e.len() implies lex_lt(
                #[trigger] e[i],
                #[trigger] e[j],
            ) by {
                if j < d.len() {
                    assert(e[i] == d[i] && e[j] == d[j]);
                } else {
                    assert(e[i] == d[i] && e[j] == x);
                }
            }
        }
    }
}

/// Each list of a comparison is in strictly ascending order: sorted, and
/// no path occurs twice.
pub proof fn lemma_sorted_distinct_ascending(s: Seq<Seq<char>>)
    ensures
        forall|i: int, j: int|
            0 <= i < j < sorted_distinct(s).len() ==> lex_lt(
                #[trigger] sorted_distinct(s)[i],
                #[trigger] sorted_distinct(s)[j],
            ),
        sorted_distinct(s).no_duplicates(),
{
    lemma_sorted_by_sorted_permutation(s, chars_key());
    let t = sorted_by(s, chars_key());
    assert forall|i: int, j: int| 0 <= i < j < t.len() implies !lex_lt(
        #[trigger] t[j],
        #[trigger] t[i],
    ) by {
        assert(chars_key()(t[j]) == t[j] && chars_key()(t[i]) == t[i]);
    }
    lemma_dedup_strict(t);
    let r = sorted_distinct(s);
    assert forall|i: int, j: int| 0 <= i < r.len() && 0 <= j < r.len() && i != j implies r[i]
        != r[j] by {
        if i < j {
            assert(lex_lt(r[i], r[j]));
            lemma_lex_lt_total(r[i], r[j]);
        } else {
            assert(lex_lt(r[j], r[i]));
            lemma_lex_lt_total(r[j], r[i]);
        }
    }
}

/// The lists of a comparison are each in strictly ascending order.
pub proof fn lemma_diff_lists_ascending(bundle: Seq<PayloadFile>, harness: Seq<PayloadFile>)
    ensures
        changed_spec(bundle, harness).no_duplicates(),
        only_in_bundle_spec(bundle, harness).no_duplicates(),
        only_in_harness_spec(bundle, harness).no_duplicates(),
        forall|i: int, j: int|
            0 <= i < j < changed_spec(bundle, harness).len() ==> lex_lt(
                #[trigger] changed_spec(bundle, harness)[i],
                #[trigger] changed_spec(bundle, harness)[j],
            ),
        forall|i: int, j: int|
            0 <= i < j < only_in_bundle_spec(bundle, harness).len() ==> lex_lt(
                #[trigger] only_in_bundle_spec(bundle, harness)[i],
                #[trigger] only_in_bundle_spec(bundle, harness)[j],
            ),
        forall|i: int, j: int|
            0 <= i < j < only_in_harness_spec(bundle, harness).len() ==> lex_lt(
                #[trigger] only_in_harness_spec(bundle, harness)[i],
                #[trigger] only_in_harness_spec(bundle, harness)[j],
            ),
{
    let bp = bundle_paths(bundle);
    lemma_sorted_distinct_ascending(
        bp.filter(
            |q: Seq<char>|
                paths_of(harness).contains(q) && first_content(bundle, q) != first_content(
                    harness,
                    q,
                ),
        ),
    );
    lemma_sorted_distinct_ascending(bp.filter(|q: Seq<char>| !paths_of(harness).contains(q)));
    lemma_sorted_distinct_ascending(paths_of(harness).filter(|q: Seq<char>| !bp.contains(q)));
}

/// What each list of the comparison holds, in terms of the two file lists.
/// A bundle file takes part unless it is `manifest.yaml` or lies under
/// `secrets/`; a path is changed when it is in both and its first contents
/// differ, only in the bundle when no harness file has it, and only in the
/// harness when no taking-part bundle file has it. So a bundle file under
/// `secrets/` never shows as changed or only in the bundle, and never hides
/// a harness file.
pub proof fn lemma_diff_membership(bundle: Seq<PayloadFile>, harness: Seq<PayloadFile>, p: Seq<char>)
    ensures
        changed_spec(bundle, harness).contains(p) <==> (paths_of(bundle).contains(p) && p
            != "manifest.yaml"@ && !has_prefix(p, "secrets/"@) && paths_of(harness).contains(p)
            && first_content(bundle, p) != first_content(harness, p)),
        only_in_bundle_spec(bundle, harness).contains(p) <==> (paths_of(bundle).contains(p) && p
            != "manifest.yaml"@ && !has_prefix(p, "secrets/"@) && !paths_of(harness).contains(p)),
        only_in_harness_spec(bundle, harness).contains(p) <==> (paths_of(harness).contains(p)
            && !(paths_of(bundle).contains(p) && p != "manifest.yaml"@ && !has_prefix(
            p,
            "secrets/"@,
        ))),
        has_prefix(p, "secrets/"@) ==> !changed_spec(bundle, harness).contains(p)
            && !only_in_bundle_spec(bundle, harness).contains(p),
{
    let bp = bundle_paths(bundle);
    lemma_filter_mem(paths_of(bundle), |q: Seq<char>| compared_in_bundle(q), p);
    let cpred = |q: Seq<char>|
        paths_of(harness).contains(q) && first_content(bundle, q) != first_content(harness, q);
    lemma_filter_mem(bp, cpred, p);
    lemma_sorted_distinct_mem(bp.filter(cpred), p);
    let bpred = |q: Seq<char>| !paths_of(harness).contains(q);
    lemma_filter_mem(bp, bpred, p);
    lemma_sorted_distinct_mem(bp.filter(bpred), p);
    let hpred = |q: Seq<char>| !bp.contains(q);
    lemma_filter_mem(paths_of(harness), hpred, p);
    lemma_sorted_distinct_mem(paths_of(harness).filter(hpred), p);
}

} // verus!
