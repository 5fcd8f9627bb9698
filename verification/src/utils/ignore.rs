//! `.hitchhikeignore` patterns: which relative paths are left out of a pack.
//!
//! The file has `.gitignore` syntax; one pattern per line, `#` comments and
//! blank lines skipped. Matching is a simplified gitignore:
//! - a pattern equal to the file name ignores that file anywhere;
//! - `*.ext` ignores file names ending in `.ext` (with something before);
//! - a pattern without `*` ignores the path it names and everything below it
//!   (a leading `/` is dropped);
//! - a bare name (no `/`, no `*`) ignores every path with a segment of that
//!   name.

use vstd::prelude::*;
use crate::text::{Pat, strip_start, strip_end, trimmed, split_char, split_pat, has_prefix, has_suffix, views, lemma_split_pat_append};
use crate::text::{strip_start_exec, strip_end_exec, trim, split, starts_with, ends_with, str_eq, contains_char};

verus! {

/// The patterns of a file's lines: each line trimmed, blank lines and
/// lines starting with `#` dropped.
pub open spec fn pattern_lines(lines: Seq<Seq<char>>) -> Seq<Seq<char>>
    decreases lines.len(),
{
    if lines.len() == 0 {
        Seq::empty()
    } else {
        let before = pattern_lines(lines.drop_last());
        let t = trimmed(lines.last());
        if t.len() == 0 || t[0] == '#' {
            before
        } else {
            before.push(t)
        }
    }
}

/// The last `/`-separated segment of `path` (`rsplit('/').next()`).
pub open spec fn file_name_of(path: Seq<char>) -> Seq<char> {
    split_char(path, '/').last()
}

/// Whether one raw pattern ignores `path` (already stripped of leading
/// `/`).
pub open spec fn pattern_matches(raw: Seq<char>, path: Seq<char>) -> bool {
    let pat = strip_end(raw, Pat::Char('/'));
    let filename = file_name_of(path);
    let has_star = pat.contains('*');
    let clean = strip_start(pat, Pat::Char('/'));
    let suffix = pat.skip(1);
    ||| pat == filename
    ||| (has_prefix(pat, seq!['*', '.']) && has_suffix(filename, suffix) && filename.len()
        > suffix.len())
    ||| (!has_star && (path == clean || has_prefix(path, clean + seq!['/'])))
    ||| (!pat.contains('/') && !has_star && split_char(path, '/').contains(pat))
}

/// Whether any of `patterns` ignores `rel_path`.
pub open spec fn ignored_by(patterns: Seq<Seq<char>>, rel_path: Seq<char>) -> bool {
    exists|i: int|
        0 <= i < patterns.len() && pattern_matches(
            #[trigger] patterns[i],
            strip_start(rel_path, Pat::Char('/')),
        )
}

/// A set of ignore patterns.
#[derive(Debug, Clone)]
pub struct IgnorePatterns {
    patterns: Vec<String>,
}

impl View for IgnorePatterns {
    type V = Seq<Seq<char>>;

    closed spec fn view(&self) -> Seq<Seq<char>> {
        self.patterns@.map_values(|p: String| p@)
    }
}

proof fn lemma_split_nonempty(s: Seq<char>, p: Pat)
    ensures
        split_pat(s, p).len() >= 1,
{
}

impl IgnorePatterns {
    /// No patterns.
    pub fn new() -> (r: Self)
        ensures
            r@ == Seq::<Seq<char>>::empty(),
    {
        let r = IgnorePatterns { patterns: Vec::new() };
        assert(r@ =~= Seq::<Seq<char>>::empty());
        r
    }

    /// The patterns of a bundle source directory: those of the content of
    /// its `.hitchhikeignore` file, or none when it has no such file.
    pub fn load(file_content: Option<&str>) -> (r: Self)
        ensures
            match file_content {
                Some(c) => r@ == pattern_lines(split_char(c@, '\n')),
                None => r@ == Seq::<Seq<char>>::empty(),
            },
    {
        match file_content {
            Some(c) => Self::from_str(c),
            None => Self::new(),
        }
    }

    /// Parse patterns from the content of an ignore file.
    pub fn from_str(content: &str) -> (r: Self)
        ensures
            r@ == pattern_lines(split_char(content@, '\n')),
    {
        let lines = split(content, '\n');
        let ghost ls = split_char(content@, '\n');
        let mut patterns: Vec<String> = Vec::new();
        let mut i: usize = 0;
        assert(ls.take(0) =~= Seq::<Seq<char>>::empty());
        while i < lines.len()
            invariant
                views(lines@) == ls,
                i <= lines@.len(),
                patterns@.map_values(|p: String| p@) == pattern_lines(ls.take(i as int)),
            decreases lines@.len() - i,
        {
            let t = trim(lines[i]);
            assert(ls.take(i + 1).drop_last() =~= ls.take(i as int));
            assert(ls.take(i + 1).last() == lines@[i as int]@);
            if t.unicode_len() > 0 && t.get_char(0) != '#' {
                let ghost before = patterns@;
                patterns.push(String::from_str(t));
                assert(patterns@.map_values(|p: String| p@) =~= before.map_values(
                    |p: String| p@,
                ).push(t@));
            }
            i = i + 1;
        }
        assert(ls.take(lines@.len() as int) =~= ls);
        IgnorePatterns { patterns }
    }

    /// Whether one pattern ignores `path` (stripped of leading `/`).
    fn matches_one(raw: &str, path: &str) -> (r: bool)
        ensures
            r == pattern_matches(raw@, path@),
    {
        let pat = strip_end_exec(raw, Pat::Char('/'));
        let parts = split(path, '/');
        proof {
            lemma_split_nonempty(path@, Pat::Char('/'));
        }
        let filename = parts[parts.len() - 1];
        assert(filename@ == file_name_of(path@));
        if str_eq(pat, filename) {
            return true;
        }
        proof {
            reveal_strlit("*.");
            assert("*."@ =~= seq!['*', '.']);
        }
        let has_star = contains_char(pat, '*');
        if starts_with(pat, "*.") {
            let n = pat.unicode_len();
            let suffix = pat.substring_char(1, n);
            assert(suffix@ =~= pat@.skip(1));
            if ends_with(filename, suffix) && filename.unicode_len() > suffix.unicode_len() {
                return true;
            }
        }
        if !has_star {
            let clean = strip_start_exec(pat, Pat::Char('/'));
            proof {
                reveal_strlit("/");
            }
            let with_slash = String::from_str(clean).concat("/");
            assert(with_slash@ =~= clean@ + seq!['/']);
            if str_eq(path, clean) || starts_with(path, with_slash.as_str()) {
                return true;
            }
        }
        if !contains_char(pat, '/') && !has_star {
            let mut j: usize = 0;
            while j < parts.len()
                invariant
                    j <= parts@.len(),
                    views(parts@) == split_char(path@, '/'),
                    forall|k: int| 0 <= k < j ==> (#[trigger] parts@[k])@ != pat@,
                    pat@ == strip_end(raw@, Pat::Char('/')),
                    !pat@.contains('/'),
                    !pat@.contains('*'),
                decreases parts@.len() - j,
            {
                if str_eq(parts[j], pat) {
                    assert(split_char(path@, '/')[j as int] == pat@);
                    assert(split_char(path@, '/').contains(pat@));
                    return true;
                }
                j = j + 1;
            }
            proof {
                if split_char(path@, '/').contains(pat@) {
                    let k = choose|k: int|
                        0 <= k < split_char(path@, '/').len() && split_char(path@, '/')[k]
                            == pat@;
                    assert(parts@[k]@ == pat@);
                }
            }
        }
        false
    }

    /// Whether `rel_path` is excluded by any pattern.
    pub fn is_ignored(&self, rel_path: &str) -> (r: bool)
        ensures
            r == ignored_by(self@, rel_path@),
    {
        let path = strip_start_exec(rel_path, Pat::Char('/'));
        let mut i: usize = 0;
        while i < self.patterns.len()
            invariant
                i <= self.patterns@.len(),
                path@ == strip_start(rel_path@, Pat::Char('/')),
                forall|k: int| 0 <= k < i ==> !pattern_matches(#[trigger] self@[k], path@),
            decreases self.patterns@.len() - i,
        {
            if Self::matches_one(self.patterns[i].as_str(), path) {
                assert(self@[i as int] == self.patterns@[i as int]@);
                return true;
            }
            assert(self@[i as int] == self.patterns@[i as int]@);
            i = i + 1;
        }
        false
    }

    /// Whether there are no patterns.
    pub fn is_empty(&self) -> (r: bool)
        ensures
            r == (self@.len() == 0),
    {
        self.patterns.len() == 0
    }

    /// Number of patterns.
    pub fn len(&self) -> (r: usize)
        ensures
            r == self@.len(),
    {
        self.patterns.len()
    }
}

impl Default for IgnorePatterns {
    fn default() -> (r: Self)
        ensures
            r@ == Seq::<Seq<char>>::empty(),
    {
        Self::new()
    }
}

/// A pattern set that is empty ignores nothing.
pub proof fn lemma_empty_ignores_nothing(p: &IgnorePatterns, rel_path: Seq<char>)
    ensures
        p@.len() == 0 ==> !ignored_by(p@, rel_path),
{
}

/// A pattern equal to a file's name ignores that file in any directory.
pub proof fn lemma_file_name_pattern(patterns: Seq<Seq<char>>, i: int, rel_path: Seq<char>)
    requires
        0 <= i < patterns.len(),
        strip_end(patterns[i], Pat::Char('/')) == file_name_of(strip_start(rel_path, Pat::Char('/'))),
    ensures
        ignored_by(patterns, rel_path),
{
    assert(pattern_matches(patterns[i], strip_start(rel_path, Pat::Char('/'))));
}

proof fn lemma_pattern_lines_append(x: Seq<Seq<char>>, y: Seq<Seq<char>>)
    ensures
        pattern_lines(x + y) == pattern_lines(x) + pattern_lines(y),
    decreases y.len(),
{
    if y.len() == 0 {
        assert(x + y =~= x);
        assert(pattern_lines(x) + pattern_lines(y) =~= pattern_lines(x));
    } else {
        assert((x + y).drop_last() =~= x + y.drop_last());
        assert((x + y).last() == y.last());
        lemma_pattern_lines_append(x, y.drop_last());
        let t = trimmed(y.last());
        if !(t.len() == 0 || t[0] == '#') {
            assert(pattern_lines(x) + pattern_lines(y) =~= (pattern_lines(x) + pattern_lines(
                y.drop_last(),
            )).push(t));
        }
    }
}

proof fn lemma_ignored_by_append(p: Seq<Seq<char>>, q: Seq<Seq<char>>, rel_path: Seq<char>)
    ensures
        ignored_by(p + q, rel_path) == (ignored_by(p, rel_path) || ignored_by(q, rel_path)),
{
    let path = strip_start(rel_path, Pat::Char('/'));
    if ignored_by(p + q, rel_path) {
        let i = choose|i: int| 0 <= i < (p + q).len() && pattern_matches(#[trigger] (p + q)[i], path);
        if i < p.len() {
            assert((p + q)[i] == p[i]);
        } else {
            assert((p + q)[i] == q[i - p.len()]);
        }
    }
    if ignored_by(p, rel_path) {
        let i = choose|i: int| 0 <= i < p.len() && pattern_matches(#[trigger] p[i], path);
        assert((p + q)[i] == p[i]);
    }
    if ignored_by(q, rel_path) {
        let i = choose|i: int| 0 <= i < q.len() && pattern_matches(#[trigger] q[i], path);
        assert((p + q)[i + p.len()] == q[i]);
    }
}

/// The patterns of two ignore files joined line by line ignore exactly what
/// the patterns of either file ignore.
pub proof fn lemma_joined_patterns(a: Seq<char>, b: Seq<char>, rel_path: Seq<char>)
    ensures
        ignored_by(pattern_lines(split_char(a + seq!['\n'] + b, '\n')), rel_path) == (ignored_by(
            pattern_lines(split_char(a, '\n')),
            rel_path,
        ) || ignored_by(pattern_lines(split_char(b, '\n')), rel_path)),
{
    lemma_split_pat_append(a, '\n', b, Pat::Char('\n'));
    lemma_pattern_lines_append(split_char(a, '\n'), split_char(b, '\n'));
    lemma_ignored_by_append(
        pattern_lines(split_char(a, '\n')),
        pattern_lines(split_char(b, '\n')),
        rel_path,
    );
}

proof fn lemma_strip_end_contains(s: Seq<char>, p: Pat, x: char)
    ensures
        strip_end(s, p).contains(x) ==> s.contains(x),
    decreases s.len(),
{
    if s.len() > 0 && p.holds(s.last()) {
        lemma_strip_end_contains(s.drop_last(), p, x);
        if s.drop_last().contains(x) {
            let k = choose|k: int| 0 <= k < s.drop_last().len() && s.drop_last()[k] == x;
            assert(s[k] == x);
        }
    }
}

/// A trailing `/` changes nothing: a pattern and the same pattern followed
/// by `/` ignore exactly the same paths.
pub proof fn lemma_trailing_slash_ignored(raw: Seq<char>, path: Seq<char>)
    ensures
        pattern_matches(raw + seq!['/'], path) == pattern_matches(raw, path),
{
    assert((raw + seq!['/']).drop_last() =~= raw);
    assert((raw + seq!['/']).last() == '/');
}

/// A pattern without `*` names a directory or file: with its trailing and
/// leading `/` dropped, it ignores the path it names and every path below
/// it.
pub proof fn lemma_plain_pattern_ignores_subtree(raw: Seq<char>, path: Seq<char>)
    requires
        !raw.contains('*'),
        path == strip_start(strip_end(raw, Pat::Char('/')), Pat::Char('/')) || has_prefix(
            path,
            strip_start(strip_end(raw, Pat::Char('/')), Pat::Char('/')) + seq!['/'],
        ),
    ensures
        pattern_matches(raw, path),
{
    lemma_strip_end_contains(raw, Pat::Char('/'), '*');
}

/// `*.ext` ignores every file, in any directory, whose name ends in `.ext`
/// with something before it.
pub proof fn lemma_extension_glob(ext: Seq<char>, path: Seq<char>)
    requires
        !ext.contains('/'),
        has_suffix(file_name_of(path), seq!['.'] + ext),
        file_name_of(path).len() > ext.len() + 1,
    ensures
        pattern_matches(seq!['*', '.'] + ext, path),
{
    let raw = seq!['*', '.'] + ext;
    if ext.len() > 0 {
        assert(raw.last() == ext[ext.len() - 1]);
    } else {
        assert(raw.last() == '.');
    }
    assert(strip_end(raw, Pat::Char('/')) == raw);
    assert(raw.take(2) =~= seq!['*', '.']);
    assert(raw.skip(1) =~= seq!['.'] + ext);
}

/// A bare name (no `/`, no `*`) ignores every path that has a segment of
/// that name.
pub proof fn lemma_bare_name_ignores_segment(raw: Seq<char>, path: Seq<char>)
    requires
        !raw.contains('/'),
        !raw.contains('*'),
        split_char(path, '/').contains(raw),
    ensures
        pattern_matches(raw, path),
{
    if raw.len() > 0 {
        assert(raw[raw.len() - 1] != '/');
    }
    assert(strip_end(raw, Pat::Char('/')) == raw);
}

} // verus!
