//! Character-level string operations with exact specifications.
//!
//! Strings are modelled by their `Seq<char>` views. The operations here are
//! the small vocabulary that the parsers of the library are written in:
//! trimming, prefix/suffix tests, searching, splitting, ordering and
//! decimal formatting.

use vstd::prelude::*;

verus! {

// ---------------------------------------------------------------------------
// Whitespace and character patterns
// ---------------------------------------------------------------------------

/// Unicode `White_Space`, the set that `char::is_whitespace` recognises.
pub open spec fn is_ws(c: char) -> bool {
    let u = c as u32;
    ||| 0x09 <= u <= 0x0D
    ||| u == 0x20
    ||| u == 0x85
    ||| u == 0xA0
    ||| u == 0x1680
    ||| 0x2000 <= u <= 0x200A
    ||| u == 0x2028
    ||| u == 0x2029
    ||| u == 0x202F
    ||| u == 0x205F
    ||| u == 0x3000
}

/// Whether `c` is whitespace.
pub fn is_whitespace(c: char) -> (r: bool)
    ensures
        r == is_ws(c),
{
    let u = c as u32;
    (0x09 <= u && u <= 0x0D) || u == 0x20 || u == 0x85 || u == 0xA0 || u == 0x1680 || (0x2000
        <= u && u <= 0x200A) || u == 0x2028 || u == 0x2029 || u == 0x202F || u == 0x205F || u
        == 0x3000
}

/// A set of characters to strip: whitespace, or one given character.
#[derive(Clone, Copy)]
pub enum Pat {
    Whitespace,
    Char(char),
    AnyOf3(char, char, char),
}

impl Pat {
    pub open spec fn holds(self, c: char) -> bool {
        match self {
            Pat::Whitespace => is_ws(c),
            Pat::Char(x) => c == x,
            Pat::AnyOf3(x, y, z) => c == x || c == y || c == z,
        }
    }

    pub fn matches(&self, c: char) -> (r: bool)
        ensures
            r == self.holds(c),
    {
        match self {
            Pat::Whitespace => is_whitespace(c),
            Pat::Char(x) => c == *x,
            Pat::AnyOf3(x, y, z) => c == *x || c == *y || c == *z,
        }
    }
}

// ---------------------------------------------------------------------------
// Stripping
// ---------------------------------------------------------------------------

/// `s` without its leading characters that match `p`.
pub open spec fn strip_start(s: Seq<char>, p: Pat) -> Seq<char>
    decreases s.len(),
{
    if s.len() > 0 && p.holds(s[0]) {
        strip_start(s.drop_first(), p)
    } else {
        s
    }
}

/// `s` without its trailing characters that match `p`.
pub open spec fn strip_end(s: Seq<char>, p: Pat) -> Seq<char>
    decreases s.len(),
{
    if s.len() > 0 && p.holds(s.last()) {
        strip_end(s.drop_last(), p)
    } else {
        s
    }
}

/// `s` without leading and trailing characters that match `p`.
pub open spec fn strip(s: Seq<char>, p: Pat) -> Seq<char> {
    strip_end(strip_start(s, p), p)
}

/// `str::trim`: `s` without leading and trailing whitespace.
pub open spec fn trimmed(s: Seq<char>) -> Seq<char> {
    strip(s, Pat::Whitespace)
}

proof fn lemma_strip_start_skip(s: Seq<char>, p: Pat, i: int)
    requires
        0 <= i <= s.len(),
        forall|j: int| 0 <= j < i ==> p.holds(#[trigger] s[j]),
    ensures
        strip_start(s, p) == strip_start(s.skip(i), p),
    decreases i,
{
    if i > 0 {
        assert(s.drop_first().skip(i - 1) =~= s.skip(i));
        assert forall|j: int| 0 <= j < i - 1 implies p.holds(#[trigger] s.drop_first()[j]) by {
            assert(s.drop_first()[j] == s[j + 1]);
        }
        lemma_strip_start_skip(s.drop_first(), p, i - 1);
    } else {
        assert(s.skip(0) =~= s);
    }
}

proof fn lemma_strip_end_take(s: Seq<char>, p: Pat, i: int)
    requires
        0 <= i <= s.len(),
        forall|j: int| i <= j < s.len() ==> p.holds(#[trigger] s[j]),
    ensures
        strip_end(s, p) == strip_end(s.take(i), p),
    decreases s.len() - i,
{
    if i < s.len() {
        assert(s.drop_last().take(i) =~= s.take(i));
        lemma_strip_end_take(s.drop_last(), p, i);
    } else {
        assert(s.take(i) =~= s);
    }
}

/// Strip the leading characters of `s` that match `p`.
pub fn strip_start_exec(s: &str, p: Pat) -> (r: &str)
    ensures
        r@ == strip_start(s@, p),
{
    let n = s.unicode_len();
    let mut i: usize = 0;
    while i < n && p.matches(s.get_char(i))
        invariant
            n == s@.len(),
            i <= n,
            forall|j: int| 0 <= j < i ==> p.holds(#[trigger] s@[j]),
        decreases n - i,
    {
        i = i + 1;
    }
    proof {
        lemma_strip_start_skip(s@, p, i as int);
        if i < n {
            assert(s@.skip(i as int)[0] == s@[i as int]);
        }
    }
    s.substring_char(i, n)
}

/// Strip the trailing characters of `s` that match `p`.
pub fn strip_end_exec(s: &str, p: Pat) -> (r: &str)
    ensures
        r@ == strip_end(s@, p),
{
    let n = s.unicode_len();
    let mut i: usize = n;
    while i > 0 && p.matches(s.get_char(i - 1))
        invariant
            n == s@.len(),
            i <= n,
            forall|j: int| i <= j < n ==> p.holds(#[trigger] s@[j]),
        decreases i,
    {
        i = i - 1;
    }
    proof {
        lemma_strip_end_take(s@, p, i as int);
        if i > 0 {
            assert(s@.take(i as int).last() == s@[i - 1]);
        }
    }
    let r = s.substring_char(0, i);
    assert(r@ =~= s@.take(i as int));
    r
}

/// Strip leading and trailing characters of `s` that match `p`.
pub fn strip_exec(s: &str, p: Pat) -> (r: &str)
    ensures
        r@ == strip(s@, p),
{
    let a = strip_start_exec(s, p);
    strip_end_exec(a, p)
}

/// `str::trim`.
pub fn trim(s: &str) -> (r: &str)
    ensures
        r@ == trimmed(s@),
{
    strip_exec(s, Pat::Whitespace)
}

// ---------------------------------------------------------------------------
// Equality, prefixes, suffixes
// ---------------------------------------------------------------------------

/// Whether two strings are equal.
pub fn str_eq(a: &str, b: &str) -> (r: bool)
    ensures
        r == (a@ == b@),
{
    let n = a.unicode_len();
    let m = b.unicode_len();
    if n != m {
        return false;
    }
    let mut i: usize = 0;
    while i < n
        invariant
            n == a@.len(),
            n == b@.len(),
            i <= n,
            forall|j: int| 0 <= j < i ==> a@[j] == b@[j],
        decreases n - i,
    {
        if a.get_char(i) != b.get_char(i) {
            return false;
        }
        i = i + 1;
    }
    assert(a@ =~= b@);
    true
}

/// `prefix` is a prefix of `s`.
pub open spec fn has_prefix(s: Seq<char>, prefix: Seq<char>) -> bool {
    prefix.len() <= s.len() && s.take(prefix.len() as int) == prefix
}

/// `suffix` is a suffix of `s`.
pub open spec fn has_suffix(s: Seq<char>, suffix: Seq<char>) -> bool {
    suffix.len() <= s.len() && s.skip(s.len() - suffix.len()) == suffix
}

/// `str::starts_with` for a string pattern.
pub fn starts_with(s: &str, prefix: &str) -> (r: bool)
    ensures
        r == has_prefix(s@, prefix@),
{
    let n = s.unicode_len();
    let m = prefix.unicode_len();
    if m > n {
        return false;
    }
    let mut i: usize = 0;
    while i < m
        invariant
            n == s@.len(),
            m == prefix@.len(),
            m <= n,
            i <= m,
            forall|j: int| 0 <= j < i ==> s@[j] == prefix@[j],
        decreases m - i,
    {
        if s.get_char(i) != prefix.get_char(i) {
            assert(s@.take(m as int)[i as int] != prefix@[i as int]);
            return false;
        }
        i = i + 1;
    }
    assert(s@.take(m as int) =~= prefix@);
    true
}

/// `str::ends_with` for a string pattern.
pub fn ends_with(s: &str, suffix: &str) -> (r: bool)
    ensures
        r == has_suffix(s@, suffix@),
{
    let n = s.unicode_len();
    let m = suffix.unicode_len();
    if m > n {
        return false;
    }
    let d = n - m;
    let mut i: usize = 0;
    while i < m
        invariant
            n == s@.len(),
            m == suffix@.len(),
            d == n - m,
            i <= m,
            forall|j: int| 0 <= j < i ==> s@[d + j] == suffix@[j],
        decreases m - i,
    {
        if s.get_char(d + i) != suffix.get_char(i) {
            assert(s@.skip(d as int)[i as int] != suffix@[i as int]);
            return false;
        }
        i = i + 1;
    }
    assert(s@.skip(d as int) =~= suffix@);
    true
}

// ---------------------------------------------------------------------------
// Searching and splitting
// ---------------------------------------------------------------------------

/// Index of the first character of `s` matching `p`, or -1.
pub open spec fn find_pat(s: Seq<char>, p: Pat) -> int
    decreases s.len(),
{
    if s.len() == 0 {
        -1
    } else if p.holds(s[0]) {
        0
    } else {
        let k = find_pat(s.drop_first(), p);
        if k < 0 {
            -1
        } else {
            k + 1
        }
    }
}

/// Index of the first occurrence of `c` in `s`, or -1.
pub open spec fn find_char(s: Seq<char>, c: char) -> int {
    find_pat(s, Pat::Char(c))
}

pub proof fn lemma_find_pat(s: Seq<char>, p: Pat)
    ensures
        -1 <= find_pat(s, p) < s.len(),
        find_pat(s, p) >= 0 ==> p.holds(s[find_pat(s, p)]),
        forall|j: int| 0 <= j < find_pat(s, p) ==> !p.holds(#[trigger] s[j]),
        find_pat(s, p) < 0 ==> forall|j: int| 0 <= j < s.len() ==> !p.holds(#[trigger] s[j]),
    decreases s.len(),
{
    if s.len() > 0 && !p.holds(s[0]) {
        lemma_find_pat(s.drop_first(), p);
        assert forall|j: int| 1 <= j < s.len() implies s[j] == s.drop_first()[j - 1] by {}
    }
}

pub proof fn lemma_find_char(s: Seq<char>, c: char)
    ensures
        -1 <= find_char(s, c) < s.len(),
        find_char(s, c) >= 0 ==> s[find_char(s, c)] == c,
        forall|j: int| 0 <= j < find_char(s, c) ==> s[j] != c,
        find_char(s, c) < 0 ==> forall|j: int| 0 <= j < s.len() ==> s[j] != c,
{
    lemma_find_pat(s, Pat::Char(c));
    assert(forall|j: int| 0 <= j < s.len() ==> (Pat::Char(c).holds(#[trigger] s[j]) <==> s[j] == c));
}

/// The index of the first match is determined by where matches are.
pub proof fn lemma_find_pat_unique(s: Seq<char>, p: Pat, i: int)
    requires
        -1 <= i < s.len(),
        i >= 0 ==> p.holds(s[i]),
        forall|j: int| 0 <= j < s.len() && (i < 0 || j < i) ==> !p.holds(#[trigger] s[j]),
    ensures
        find_pat(s, p) == i,
{
    lemma_find_pat(s, p);
}

/// Position of the first character of `s` matching `p`.
pub fn find_pat_exec(s: &str, p: Pat) -> (r: Option<usize>)
    ensures
        match r {
            Some(i) => find_pat(s@, p) == i,
            None => find_pat(s@, p) == -1,
        },
{
    let n = s.unicode_len();
    let mut i: usize = 0;
    while i < n
        invariant
            n == s@.len(),
            i <= n,
            forall|j: int| 0 <= j < i ==> !p.holds(#[trigger] s@[j]),
        decreases n - i,
    {
        if p.matches(s.get_char(i)) {
            proof {
                lemma_find_pat_unique(s@, p, i as int);
            }
            return Some(i);
        }
        i = i + 1;
    }
    proof {
        lemma_find_pat_unique(s@, p, -1);
    }
    None
}

/// Position of the first `c` in `s`.
pub fn find_char_exec(s: &str, c: char) -> (r: Option<usize>)
    ensures
        match r {
            Some(i) => find_char(s@, c) == i,
            None => find_char(s@, c) == -1,
        },
{
    find_pat_exec(s, Pat::Char(c))
}

/// Whether `c` occurs in `s`.
pub fn contains_char(s: &str, c: char) -> (r: bool)
    ensures
        r == s@.contains(c),
{
    let f = find_char_exec(s, c);
    proof {
        lemma_find_char(s@, c);
        if f.is_none() {
            assert forall|j: int| 0 <= j < s@.len() implies s@[j] != c by {}
        } else {
            assert(s@[find_char(s@, c)] == c);
        }
    }
    f.is_some()
}

/// `str::split_once` on a character: the parts before and after the first `c`.
pub open spec fn split_once_spec(s: Seq<char>, c: char) -> Option<(Seq<char>, Seq<char>)> {
    let i = find_char(s, c);
    if i < 0 {
        None
    } else {
        Some((s.take(i), s.skip(i + 1)))
    }
}

/// `str::split_once` on a character.
pub fn split_once(s: &str, c: char) -> (r: Option<(&str, &str)>)
    ensures
        match r {
            Some((a, b)) => split_once_spec(s@, c) == Some((a@, b@)),
            None => split_once_spec(s@, c) is None,
        },
{
    match find_char_exec(s, c) {
        Some(i) => {
            proof {
                lemma_find_char(s@, c);
            }
            let n = s.unicode_len();
            let a = s.substring_char(0, i);
            let b = s.substring_char(i + 1, n);
            assert(a@ =~= s@.take(i as int));
            assert(b@ =~= s@.skip(i + 1));
            Some((a, b))
        },
        None => None,
    }
}

/// The pieces of `s` between characters matching `p` (`str::split`).
pub open spec fn split_pat(s: Seq<char>, p: Pat) -> Seq<Seq<char>>
    decreases s.len(),
{
    let i = find_pat(s, p);
    if i < 0 {
        seq![s]
    } else {
        proof {
            lemma_find_pat(s, p);
        }
        seq![s.take(i)] + split_pat(s.skip(i + 1), p)
    }
}

/// The pieces of `s` between occurrences of `c` (`str::split` on a char).
pub open spec fn split_char(s: Seq<char>, c: char) -> Seq<Seq<char>> {
    split_pat(s, Pat::Char(c))
}

/// Views of a sequence of string slices.
pub open spec fn views<'a>(v: Seq<&'a str>) -> Seq<Seq<char>> {
    v.map_values(|x: &'a str| x@)
}

/// `str::split` on the characters matching `p`.
pub fn split_by(s: &str, p: Pat) -> (r: Vec<&str>)
    ensures
        views(r@) == split_pat(s@, p),
    decreases s@.len(),
{
    match find_pat_exec(s, p) {
        None => {
            let mut v: Vec<&str> = Vec::new();
            v.push(s);
            assert(views(v@) =~= seq![s@]);
            v
        },
        Some(i) => {
            proof {
                lemma_find_pat(s@, p);
            }
            let n = s.unicode_len();
            let a = s.substring_char(0, i);
            let b = s.substring_char(i + 1, n);
            assert(a@ =~= s@.take(i as int));
            assert(b@ =~= s@.skip(i + 1));
            let rest = split_by(b, p);
            let mut v: Vec<&str> = Vec::new();
            v.push(a);
            let mut k: usize = 0;
            while k < rest.len()
                invariant
                    views(v@) == seq![a@] + views(rest@).take(k as int),
                    k <= rest@.len(),
                decreases rest@.len() - k,
            {
                let ghost before = v@;
                v.push(rest[k]);
                assert(views(v@) =~= views(before).push(rest@[k as int]@));
                assert(views(rest@).take(k + 1) =~= views(rest@).take(k as int).push(rest@[k as int]@));
                assert(views(v@) =~= seq![a@] + views(rest@).take(k + 1));
                k = k + 1;
            }
            assert(views(rest@).take(rest@.len() as int) =~= views(rest@));
            v
        },
    }
}

/// `str::split` on a character.
pub fn split(s: &str, c: char) -> (r: Vec<&str>)
    ensures
        views(r@) == split_char(s@, c),
{
    split_by(s, Pat::Char(c))
}

// ---------------------------------------------------------------------------
// Ordering
// ---------------------------------------------------------------------------

/// Lexicographic order on character sequences (code point order), as used by
/// `Ord for str`.
pub open spec fn lex_lt(a: Seq<char>, b: Seq<char>) -> bool
    decreases a.len(),
{
    if a.len() == 0 {
        b.len() > 0
    } else if b.len() == 0 {
        false
    } else if a[0] != b[0] {
        (a[0] as u32) < (b[0] as u32)
    } else {
        lex_lt(a.drop_first(), b.drop_first())
    }
}

proof fn lemma_lex_lt_skip(a: Seq<char>, b: Seq<char>, i: int)
    requires
        0 <= i <= a.len(),
        i <= b.len(),
        forall|j: int| 0 <= j < i ==> a[j] == b[j],
    ensures
        lex_lt(a, b) == lex_lt(a.skip(i), b.skip(i)),
    decreases i,
{
    if i > 0 {
        assert(a.drop_first().skip(i - 1) =~= a.skip(i));
        assert(b.drop_first().skip(i - 1) =~= b.skip(i));
        lemma_lex_lt_skip(a.drop_first(), b.drop_first(), i - 1);
    } else {
        assert(a.skip(0) =~= a);
        assert(b.skip(0) =~= b);
    }
}

/// `lex_lt` is a strict total order: irreflexive, and of two different
/// sequences exactly one sorts before the other.
pub proof fn lemma_lex_lt_total(a: Seq<char>, b: Seq<char>)
    ensures
        !lex_lt(a, a),
        a != b ==> (lex_lt(a, b) || lex_lt(b, a)),
        !(lex_lt(a, b) && lex_lt(b, a)),
    decreases a.len(),
{
    if a.len() > 0 {
        lemma_lex_lt_total(a.drop_first(), a.drop_first());
        if b.len() > 0 {
            lemma_lex_lt_total(a.drop_first(), b.drop_first());
            if a[0] != b[0] {
                vstd::utf8::char_u32_cast(a[0], a[0] as u32);
                vstd::utf8::char_u32_cast(b[0], b[0] as u32);
            } else if a.drop_first() == b.drop_first() {
                assert(a =~= seq![a[0]] + a.drop_first());
                assert(b =~= seq![b[0]] + b.drop_first());
            }
        }
    } else if b.len() == 0 {
        assert(a =~= b);
    }
}

/// `lex_lt` is transitive.
pub proof fn lemma_lex_lt_trans(a: Seq<char>, b: Seq<char>, c: Seq<char>)
    requires
        lex_lt(a, b),
        lex_lt(b, c),
    ensures
        lex_lt(a, c),
    decreases a.len(),
{
    if a.len() > 0 && a[0] == b[0] && b[0] == c[0] {
        lemma_lex_lt_trans(a.drop_first(), b.drop_first(), c.drop_first());
    }
}

/// Whether `a` sorts strictly before `b`.
pub fn str_lt(a: &str, b: &str) -> (r: bool)
    ensures
        r == lex_lt(a@, b@),
{
    let n = a.unicode_len();
    let m = b.unicode_len();
    let mut i: usize = 0;
    while i < n && i < m
        invariant
            n == a@.len(),
            m == b@.len(),
            i <= n,
            i <= m,
            forall|j: int| 0 <= j < i ==> a@[j] == b@[j],
        decreases n - i,
    {
        let x = a.get_char(i);
        let y = b.get_char(i);
        if x != y {
            proof {
                lemma_lex_lt_skip(a@, b@, i as int);
                assert(a@.skip(i as int)[0] == x);
                assert(b@.skip(i as int)[0] == y);
            }
            return (x as u32) < (y as u32);
        }
        i = i + 1;
    }
    proof {
        lemma_lex_lt_skip(a@, b@, i as int);
    }
    i < m
}

// ---------------------------------------------------------------------------
// Decimal numbers
// ---------------------------------------------------------------------------

/// A non-empty run of ASCII digits.
pub open spec fn all_digits(s: Seq<char>) -> bool {
    s.len() > 0 && forall|i: int| 0 <= i < s.len() ==> '0' <= #[trigger] s[i] && s[i] <= '9'
}

/// The value of a run of ASCII digits.
pub open spec fn digits_value(s: Seq<char>) -> nat
    decreases s.len(),
{
    if s.len() == 0 {
        0
    } else {
        digits_value(s.drop_last()) * 10 + ((s.last() as u32) - 48) as nat
    }
}

/// `u64::from_str`: an optional `+`, then decimal digits, within range.
pub open spec fn parse_u64_spec(s: Seq<char>) -> Option<u64> {
    let t = if s.len() > 0 && s[0] == '+' {
        s.drop_first()
    } else {
        s
    };
    if all_digits(t) && digits_value(t) <= u64::MAX {
        Some(digits_value(t) as u64)
    } else {
        None
    }
}

proof fn lemma_digits_value_prefix(s: Seq<char>, i: int)
    requires
        0 <= i <= s.len(),
        forall|j: int| 0 <= j < s.len() ==> '0' <= #[trigger] s[j] && s[j] <= '9',
    ensures
        digits_value(s.take(i)) <= digits_value(s),
    decreases s.len() - i,
{
    if i < s.len() {
        lemma_digits_value_prefix(s, i + 1);
        assert(s.take(i + 1).drop_last() =~= s.take(i));
    } else {
        assert(s.take(i) =~= s);
    }
}

/// Whether `s` is a non-empty run of ASCII digits.
pub fn is_all_digits(s: &str) -> (r: bool)
    ensures
        r == all_digits(s@),
{
    let n = s.unicode_len();
    if n == 0 {
        return false;
    }
    let mut i: usize = 0;
    while i < n
        invariant
            n == s@.len(),
            i <= n,
            forall|j: int| 0 <= j < i ==> '0' <= #[trigger] s@[j] && s@[j] <= '9',
        decreases n - i,
    {
        let c = s.get_char(i);
        if !('0' <= c && c <= '9') {
            return false;
        }
        i = i + 1;
    }
    true
}

/// `u64::from_str`.
pub fn parse_u64(s: &str) -> (r: Option<u64>)
    ensures
        r == parse_u64_spec(s@),
{
    let n0 = s.unicode_len();
    let t = if n0 > 0 && s.get_char(0) == '+' {
        s.substring_char(1, n0)
    } else {
        s.substring_char(0, n0)
    };
    assert(s@.subrange(0, n0 as int) =~= s@);
    assert(n0 > 0 ==> s@.subrange(1, n0 as int) =~= s@.drop_first());
    if !is_all_digits(t) {
        return None;
    }
    let n = t.unicode_len();
    let mut v: u64 = 0;
    let mut i: usize = 0;
    while i < n
        invariant
            n == t@.len(),
            i <= n,
            all_digits(t@),
            v == digits_value(t@.take(i as int)),
            t@ == (if s@.len() > 0 && s@[0] == '+' {
                s@.drop_first()
            } else {
                s@
            }),
        decreases n - i,
    {
        assert(t@.take(i + 1).drop_last() =~= t@.take(i as int));
        let c = t.get_char(i);
        assert('0' <= t@[i as int] <= '9');
        let d = ((c as u32) - 48) as u64;
        assert(t@.take(i + 1).last() == c);
        assert(digits_value(t@.take(i + 1)) == v * 10 + d);
        let next = match v.checked_mul(10) {
            Some(x) => x.checked_add(d),
            None => None,
        };
        match next {
            Some(x) => {
                v = x;
            },
            None => {
                proof {
                    lemma_digits_value_prefix(t@, i + 1);
                    assert(v * 10 + d > u64::MAX) by (nonlinear_arith)
                        requires
                            v * 10 > u64::MAX || v * 10 + d > u64::MAX,
                            d >= 0,
                    ;
                }
                return None;
            },
        }
        i = i + 1;
    }
    assert(t@.take(n as int) =~= t@);
    Some(v)
}

// ---------------------------------------------------------------------------
// Decimal formatting
// ---------------------------------------------------------------------------

/// The decimal digit for `d < 10`.
pub open spec fn digit_char(d: nat) -> char {
    (48 + d) as char
}

/// Decimal representation of `n` without leading zeros.
pub open spec fn decimal(n: nat) -> Seq<char>
    decreases n,
{
    if n < 10 {
        seq![digit_char(n)]
    } else {
        decimal(n / 10) + seq![digit_char(n % 10)]
    }
}

/// `decimal(n)` left-padded with zeros to at least `width` characters.
pub open spec fn decimal_padded(n: nat, width: nat) -> Seq<char> {
    let d = decimal(n);
    if d.len() >= width {
        d
    } else {
        Seq::new((width - d.len()) as nat, |i: int| '0') + d
    }
}

proof fn lemma_digit_char(d: nat)
    requires
        d < 10,
    ensures
        '0' <= digit_char(d) <= '9',
        (digit_char(d) as u32) - 48 == d,
{
}

proof fn lemma_decimal_value(n: nat)
    ensures
        all_digits(decimal(n)),
        digits_value(decimal(n)) == n,
    decreases n,
{
    lemma_digit_char(n % 10);
    let d = decimal(n);
    if n >= 10 {
        lemma_decimal_value(n / 10);
        assert(d.drop_last() =~= decimal(n / 10));
        assert(d.last() == digit_char(n % 10));
        assert(n == (n / 10) * 10 + n % 10);
        assert(digits_value(d) == digits_value(d.drop_last()) * 10 + ((d.last() as u32) - 48) as nat);
        assert forall|i: int| 0 <= i < d.len() implies '0' <= #[trigger] d[i] && d[i] <= '9' by {
            if i < d.len() - 1 {
                assert(d[i] == decimal(n / 10)[i]);
            }
        }
    } else {
        assert(d.drop_last() =~= Seq::<char>::empty());
        assert(digits_value(d) == digits_value(d.drop_last()) * 10 + ((d.last() as u32) - 48) as nat);
        assert(digits_value(d.drop_last()) == 0);
    }
}

/// The decimal text of a number reads back as that number, and has no
/// surrounding whitespace.
pub proof fn lemma_decimal_parses(n: nat)
    ensures
        all_digits(decimal(n)),
        digits_value(decimal(n)) == n,
        n <= u64::MAX ==> parse_u64_spec(decimal(n)) == Some(n as u64),
        trimmed(decimal(n)) == decimal(n),
{
    lemma_decimal_value(n);
    let d = decimal(n);
    assert('0' <= d[0] <= '9');
    assert('0' <= d[d.len() - 1] <= '9');
    assert(!is_ws(d[0]));
    assert(!is_ws(d.last()));
    assert(strip_start(d, Pat::Whitespace) == d);
    assert(strip_end(d, Pat::Whitespace) == d);
}

proof fn lemma_zeros_value(z: Seq<char>, d: Seq<char>)
    requires
        forall|i: int| 0 <= i < z.len() ==> #[trigger] z[i] == '0',
    ensures
        digits_value(z + d) == digits_value(d),
    decreases z.len() + d.len(),
{
    if d.len() > 0 {
        assert((z + d).drop_last() =~= z + d.drop_last());
        lemma_zeros_value(z, d.drop_last());
    } else if z.len() > 0 {
        assert(z + d =~= z);
        assert(z.drop_last() + d =~= z.drop_last());
        lemma_zeros_value(z.drop_last(), d);
    } else {
        assert(z + d =~= d);
    }
}

/// A zero-padded decimal is a run of digits that reads back as the number.
pub proof fn lemma_decimal_padded_value(n: nat, width: nat)
    ensures
        all_digits(decimal_padded(n, width)),
        digits_value(decimal_padded(n, width)) == n,
{
    lemma_decimal_value(n);
    let d = decimal(n);
    if d.len() < width {
        let z = Seq::new((width - d.len()) as nat, |i: int| '0');
        lemma_zeros_value(z, d);
        let p = z + d;
        assert forall|i: int| 0 <= i < p.len() implies '0' <= #[trigger] p[i] && p[i] <= '9' by {
            if i >= z.len() {
                assert(p[i] == d[i - z.len()]);
            }
        }
    }
}

/// Splitting at the first separator, when the first piece holds none.
pub proof fn lemma_split_pat_cons(a: Seq<char>, c: char, rest: Seq<char>, p: Pat)
    requires
        forall|i: int| 0 <= i < a.len() ==> !p.holds(#[trigger] a[i]),
        p.holds(c),
    ensures
        split_pat(a + seq![c] + rest, p) == seq![a] + split_pat(rest, p),
{
    let s = a + seq![c] + rest;
    assert forall|j: int| 0 <= j < s.len() && j < a.len() implies !p.holds(#[trigger] s[j]) by {
        assert(s[j] == a[j]);
    }
    assert(s[a.len() as int] == c);
    lemma_find_pat_unique(s, p, a.len() as int);
    assert(s.take(a.len() as int) =~= a);
    assert(s.skip(a.len() as int + 1) =~= rest);
}

/// Splitting two texts joined at a separator gives the pieces of the one
/// followed by the pieces of the other.
pub proof fn lemma_split_pat_append(a: Seq<char>, c: char, b: Seq<char>, p: Pat)
    requires
        p.holds(c),
    ensures
        split_pat(a + seq![c] + b, p) == split_pat(a, p) + split_pat(b, p),
    decreases a.len(),
{
    lemma_find_pat(a, p);
    let i = find_pat(a, p);
    if i < 0 {
        lemma_split_pat_cons(a, c, b, p);
        lemma_split_pat_none(a, p);
    } else {
        let whole = a + seq![c] + b;
        let a1 = a.take(i);
        let a2 = a.skip(i + 1);
        assert forall|j: int| 0 <= j < whole.len() && j < i implies !p.holds(#[trigger] whole[j]) by {
            assert(whole[j] == a[j]);
        }
        assert(whole[i] == a[i]);
        lemma_find_pat_unique(whole, p, i);
        assert(whole.take(i) =~= a1);
        assert(whole.skip(i + 1) =~= a2 + seq![c] + b);
        lemma_split_pat_append(a2, c, b, p);
        assert(split_pat(a, p) == seq![a1] + split_pat(a2, p));
        assert(split_pat(whole, p) =~= split_pat(a, p) + split_pat(b, p));
    }
}

/// A sequence without separators is a single piece.
pub proof fn lemma_split_pat_none(a: Seq<char>, p: Pat)
    requires
        forall|i: int| 0 <= i < a.len() ==> !p.holds(#[trigger] a[i]),
    ensures
        split_pat(a, p) == seq![a],
{
    lemma_find_pat_unique(a, p, -1);
}

fn digit_str(d: u64) -> (r: &'static str)
    requires
        d < 10,
    ensures
        r@ == seq![digit_char(d as nat)],
{
    let r = if d == 0 {
        "0"
    } else if d == 1 {
        "1"
    } else if d == 2 {
        "2"
    } else if d == 3 {
        "3"
    } else if d == 4 {
        "4"
    } else if d == 5 {
        "5"
    } else if d == 6 {
        "6"
    } else if d == 7 {
        "7"
    } else if d == 8 {
        "8"
    } else {
        "9"
    };
    proof {
        reveal_strlit("0");
        reveal_strlit("1");
        reveal_strlit("2");
        reveal_strlit("3");
        reveal_strlit("4");
        reveal_strlit("5");
        reveal_strlit("6");
        reveal_strlit("7");
        reveal_strlit("8");
        reveal_strlit("9");
    }
    assert(r@ =~= seq![digit_char(d as nat)]);
    r
}

/// Decimal representation of `n`.
pub fn u64_to_decimal(n: u64) -> (r: String)
    ensures
        r@ == decimal(n as nat),
    decreases n,
{
    if n < 10 {
        String::from_str(digit_str(n))
    } else {
        let head = u64_to_decimal(n / 10);
        head.concat(digit_str(n % 10))
    }
}

/// Decimal representation of `n`, zero-padded to `width` characters.
pub fn u64_to_decimal_padded(n: u64, width: usize) -> (r: String)
    ensures
        r@ == decimal_padded(n as nat, width as nat),
{
    let d = u64_to_decimal(n);
    let len = d.as_str().unicode_len();
    if len >= width {
        return d;
    }
    let mut r = String::new();
    let mut i: usize = 0;
    while i < width - len
        invariant
            len < width,
            len == d@.len(),
            i <= width - len,
            r@ == Seq::new(i as nat, |j: int| '0'),
        decreases width - len - i,
    {
        r.append("0");
        proof {
            reveal_strlit("0");
        }
        assert(r@ =~= Seq::new((i + 1) as nat, |j: int| '0'));
        i = i + 1;
    }
    r.append(d.as_str());
    r
}


// ---------------------------------------------------------------------------
// Substrings and words
// ---------------------------------------------------------------------------

/// `pat` occurs in `s` as a contiguous run.
pub open spec fn contains_sub(s: Seq<char>, pat: Seq<char>) -> bool {
    exists|i: int| 0 <= i <= s.len() - pat.len() && #[trigger] s.subrange(i, i + pat.len()) == pat
}

/// `str::contains` for a string pattern.
pub fn contains_str(s: &str, pat: &str) -> (r: bool)
    ensures
        r == contains_sub(s@, pat@),
{
    let n = s.unicode_len();
    let m = pat.unicode_len();
    if m > n {
        proof {
            assert forall|i: int| !(0 <= i <= s@.len() - pat@.len() && #[trigger] s@.subrange(
                i,
                i + pat@.len(),
            ) == pat@) by {}
        }
        return false;
    }
    let mut i: usize = 0;
    while i <= n - m
        invariant
            n == s@.len(),
            m == pat@.len(),
            m <= n,
            i <= n - m + 1,
            forall|k: int| 0 <= k < i ==> #[trigger] s@.subrange(k, k + m) != pat@,
        decreases n - m + 1 - i,
    {
        let mut j: usize = 0;
        let mut same = true;
        while j < m
            invariant
                n == s@.len(),
                m == pat@.len(),
                i + m <= n,
                j <= m,
                same == forall|t: int| 0 <= t < j ==> s@[i + t] == pat@[t],
            decreases m - j,
        {
            if s.get_char(i + j) != pat.get_char(j) {
                same = false;
            }
            j = j + 1;
        }
        if same {
            assert(s@.subrange(i as int, i + m) =~= pat@);
            return true;
        }
        proof {
            let t = choose|t: int| 0 <= t < m && s@[i + t] != pat@[t];
            assert(s@.subrange(i as int, i + m)[t] != pat@[t]);
        }
        i = i + 1;
    }
    proof {
        assert forall|k: int| !(0 <= k <= s@.len() - pat@.len() && #[trigger] s@.subrange(
            k,
            k + pat@.len(),
        ) == pat@) by {}
    }
    false
}

} // verus!
