//! An in-memory collection of named secrets.
//!
//! Keys are environment-variable names (`[A-Za-z_][A-Za-z0-9_]*`); a key
//! occurs at most once. The collection is never written in plaintext: it is
//! serialised to JSON and sealed with the passphrase envelope of `crypto`.

use vstd::prelude::*;
use crate::text::{Pat, strip, trimmed, split_char, split_once_spec, views};
use crate::text::{trim, strip_exec, split, split_once, starts_with, ends_with, str_eq};
use crate::sorting::{sorted_by, chars_key, string_views, sort_strings, lemma_sorted_by_sorted_permutation};
use crate::text::lex_lt;
use crate::pairmap::{StringMap, pairs_to_map, unique_keys, lemma_pairs_facts, lemma_map_finite};
use crate::security::crypto::{
    CryptoError, encrypt_secrets, decrypt_secrets, passphrase_bytes, sealed_envelope,
    decrypt_spec, lemma_encrypt_decrypt_roundtrip, zeroize_bytes, MAX_PASSWORD_LEN,
    MAX_PLAINTEXT_LEN,
};

verus! {

// ---------------------------------------------------------------------------
// Keys
// ---------------------------------------------------------------------------

/// A character that may start an environment-variable name.
pub open spec fn is_key_start(c: char) -> bool {
    ('a' <= c && c <= 'z') || ('A' <= c && c <= 'Z') || c == '_'
}

/// A character that may continue an environment-variable name.
pub open spec fn is_key_char(c: char) -> bool {
    is_key_start(c) || ('0' <= c && c <= '9')
}

/// `k` matches `[A-Za-z_][A-Za-z0-9_]*`.
pub open spec fn valid_env_key(k: Seq<char>) -> bool {
    &&& k.len() > 0
    &&& is_key_start(k[0])
    &&& forall|i: int| 1 <= i < k.len() ==> is_key_char(#[trigger] k[i])
}

/// Whether `key` is a valid environment-variable name.
pub fn is_valid_env_key(key: &str) -> (r: bool)
    ensures
        r == valid_env_key(key@),
{
    let n = key.unicode_len();
    if n == 0 {
        return false;
    }
    let c0 = key.get_char(0);
    if !(('a' <= c0 && c0 <= 'z') || ('A' <= c0 && c0 <= 'Z') || c0 == '_') {
        return false;
    }
    let mut i: usize = 1;
    while i < n
        invariant
            n == key@.len(),
            1 <= i <= n,
            forall|j: int| 1 <= j < i ==> is_key_char(#[trigger] key@[j]),
        decreases n - i,
    {
        let c = key.get_char(i);
        if !(('a' <= c && c <= 'z') || ('A' <= c && c <= 'Z') || c == '_' || ('0' <= c && c
            <= '9')) {
            return false;
        }
        i = i + 1;
    }
    true
}

// ---------------------------------------------------------------------------
// The map model
// ---------------------------------------------------------------------------

/// Every key of `s` is a valid environment-variable name.
pub open spec fn valid_keys(s: Seq<(Seq<char>, Seq<char>)>) -> bool {
    forall|i: int| 0 <= i < s.len() ==> valid_env_key((#[trigger] s[i]).0)
}

/// Inserting into the collection: valid keys are stored (replacing an
/// earlier value), other keys are ignored.
pub open spec fn insert_spec(m: Map<Seq<char>, Seq<char>>, k: Seq<char>, v: Seq<char>) -> Map<
    Seq<char>,
    Seq<char>,
> {
    if valid_env_key(k) {
        m.insert(k, v)
    } else {
        m
    }
}

// ---------------------------------------------------------------------------
// Masking and display lines
// ---------------------------------------------------------------------------

/// `(empty)`
pub open spec fn empty_marker() -> Seq<char> {
    seq!['(', 'e', 'm', 'p', 't', 'y', ')']
}

/// `****`
pub open spec fn stars() -> Seq<char> {
    seq!['*', '*', '*', '*']
}

/// A value masked for display: `(empty)` when empty, `****` when at most
/// six characters long, otherwise its first two characters, `****` and its
/// last two.
pub open spec fn mask_spec(v: Seq<char>) -> Seq<char> {
    if v.len() == 0 {
        empty_marker()
    } else if v.len() <= 6 {
        stars()
    } else {
        v.take(2) + stars() + v.skip(v.len() - 2)
    }
}

/// `  KEY = <masked value>`
pub open spec fn masked_line(p: (Seq<char>, Seq<char>)) -> Seq<char> {
    seq![' ', ' '] + p.0 + seq![' ', '=', ' '] + mask_spec(p.1)
}

/// `  KEY = value`
pub open spec fn full_line(p: (Seq<char>, Seq<char>)) -> Seq<char> {
    seq![' ', ' '] + p.0 + seq![' ', '=', ' '] + p.1
}

/// `KEY=value`
pub open spec fn env_line(p: (Seq<char>, Seq<char>)) -> Seq<char> {
    p.0 + seq!['='] + p.1
}

/// Which of the three line shapes to build.
#[derive(Clone, Copy)]
enum LineStyle {
    Masked,
    Full,
    Env,
}

spec fn style_line(style: LineStyle, p: (Seq<char>, Seq<char>)) -> Seq<char> {
    match style {
        LineStyle::Masked => masked_line(p),
        LineStyle::Full => full_line(p),
        LineStyle::Env => env_line(p),
    }
}

// ---------------------------------------------------------------------------
// `.env` content
// ---------------------------------------------------------------------------

/// The assignment on one line of an `.env` file: the line is trimmed;
/// blank lines and `#` comments carry none; otherwise the text before the
/// first `=` (trimmed) is the key and the text after it, trimmed and
/// stripped of surrounding `"` and then `'` characters, the value. Lines
/// without `=` or with an empty key carry none.
pub open spec fn env_assignment(line: Seq<char>) -> Option<(Seq<char>, Seq<char>)> {
    let t = trimmed(line);
    if t.len() == 0 || t[0] == '#' {
        None
    } else {
        match split_once_spec(t, '=') {
            None => None,
            Some((k, v)) => {
                let key = trimmed(k);
                let value = strip(strip(trimmed(v), Pat::Char('"')), Pat::Char('\''));
                if key.len() == 0 {
                    None
                } else {
                    Some((key, value))
                }
            },
        }
    }
}

/// The collection after applying the assignments of `lines` in order.
pub open spec fn apply_env_lines(m: Map<Seq<char>, Seq<char>>, lines: Seq<Seq<char>>) -> Map<
    Seq<char>,
    Seq<char>,
>
    decreases lines.len(),
{
    if lines.len() == 0 {
        m
    } else {
        let before = apply_env_lines(m, lines.drop_last());
        match env_assignment(lines.last()) {
            Some((k, v)) => insert_spec(before, k, v),
            None => before,
        }
    }
}

/// Whether a file name marks a file of `KEY=value` lines: it starts with
/// `.`, ends with `.env`, or is `env`.
pub open spec fn env_file_name(name: Seq<char>) -> bool {
    ||| (name.len() > 0 && name[0] == '.')
    ||| (name.len() >= 4 && name.skip(name.len() - 4) == seq!['.', 'e', 'n', 'v'])
    ||| name == seq!['e', 'n', 'v']
}

/// Whether the directory scan reads the file called `name` as `.env`
/// content.
pub fn is_env_file_name(name: &str) -> (r: bool)
    ensures
        r == env_file_name(name@),
{
    proof {
        reveal_strlit(".");
        reveal_strlit(".env");
        reveal_strlit("env");
    }
    let dot = starts_with(name, ".");
    let suffix = ends_with(name, ".env");
    let exact = str_eq(name, "env");
    proof {
        assert("."@ =~= seq!['.']);
        assert(".env"@ =~= seq!['.', 'e', 'n', 'v']);
        assert("env"@ =~= seq!['e', 'n', 'v']);
        if name@.len() > 0 && name@[0] == '.' {
            assert(name@.take(1) =~= "."@);
        }
        if dot {
            assert(name@.take(1)[0] == name@[0]);
        }
    }
    dot || suffix || exact
}

// ---------------------------------------------------------------------------
// JSON serialisation
// ---------------------------------------------------------------------------

/// What `serde_json::to_vec` returns for a string: the JSON string literal,
/// quoted and escaped.
pub uninterp spec fn json_string(s: Seq<char>) -> Seq<u8>;

/// `serde_json::to_vec` on a `&str`.
/// Claims: the result is the named JSON literal of the string. Serialising
/// a string into a vector cannot fail.
#[verifier::external_body]
fn json_string_bytes(s: &str) -> (r: Vec<u8>)
    ensures
        r@ == json_string(s@),
{
    match serde_json::to_vec(s) {
        Ok(v) => v,
        Err(_) => Vec::new(),
    }
}

/// The members `"KEY":"value"` of a JSON object, separated by commas.
pub open spec fn json_members(s: Seq<(Seq<char>, Seq<char>)>) -> Seq<u8>
    decreases s.len(),
{
    if s.len() == 0 {
        Seq::empty()
    } else {
        let m = json_string(s.last().0) + seq![58u8] + json_string(s.last().1);
        if s.len() == 1 {
            m
        } else {
            json_members(s.drop_last()) + seq![44u8] + m
        }
    }
}

/// `{"entries":{`
pub open spec fn json_open() -> Seq<u8> {
    seq![123u8, 34u8, 101u8, 110u8, 116u8, 114u8, 105u8, 101u8, 115u8, 34u8, 58u8, 123u8]
}

/// The serialised collection: `{"entries":{"KEY":"value",...}}`, the
/// layout `serde_json` gives a struct with one map field `entries`.
pub open spec fn secrets_json(s: Seq<(Seq<char>, Seq<char>)>) -> Seq<u8> {
    json_open() + json_members(s) + seq![125u8, 125u8]
}

fn push_all(out: &mut Vec<u8>, b: &Vec<u8>)
    ensures
        final(out)@ == old(out)@ + b@,
{
    let mut i: usize = 0;
    let ghost start = out@;
    while i < b.len()
        invariant
            i <= b@.len(),
            out@ == start + b@.take(i as int),
        decreases b@.len() - i,
    {
        out.push(b[i]);
        assert(out@ =~= start + b@.take(i + 1));
        i = i + 1;
    }
    assert(b@.take(b@.len() as int) =~= b@);
}

// ---------------------------------------------------------------------------
// Errors
// ---------------------------------------------------------------------------

/// Why sealing, opening or re-keying the secrets failed.
#[derive(Debug, Clone, Copy, PartialEq, Eq, Structural)]
pub enum SecretsError {
    /// There is nothing to save.
    NoSecrets,
    /// The new passphrase is empty.
    EmptyNewPassphrase,
    /// Encryption failed.
    Encrypt(CryptoError),
    /// Decryption failed (wrong passphrase or corrupted data).
    Decrypt(CryptoError),
}

// ---------------------------------------------------------------------------
// The collection
// ---------------------------------------------------------------------------

/// An in-memory collection of named secrets.
pub struct SecretsBundle {
    map: StringMap,
}

impl View for SecretsBundle {
    type V = Map<Seq<char>, Seq<char>>;

    closed spec fn view(&self) -> Map<Seq<char>, Seq<char>> {
        self.map@
    }
}

impl SecretsBundle {
    /// The stored pairs, in the order in which their keys were first
    /// inserted; the collection is the map they describe.
    pub closed spec fn entry_seq(&self) -> Seq<(Seq<char>, Seq<char>)> {
        self.map.entry_seq()
    }

    #[verifier::type_invariant]
    spec fn inv(&self) -> bool {
        forall|k: Seq<char>| #[trigger] self.map@.contains_key(k) ==> valid_env_key(k)
    }

    /// The collection is the map its pairs describe.
    pub proof fn lemma_view(&self)
        ensures
            self@ == pairs_to_map(self.entry_seq()),
    {
    }

    /// The collection holds finitely many keys.
    pub proof fn lemma_finite(&self)
        ensures
            self@.dom().finite(),
    {
        lemma_map_finite(self.entry_seq());
    }

    proof fn lemma_valid_keys(&self)
        requires
            self.inv(),
            unique_keys(self.entry_seq()),
        ensures
            valid_keys(self.entry_seq()),
    {
        let es = self.entry_seq();
        lemma_pairs_facts(es);
        assert forall|i: int| 0 <= i < es.len() implies valid_env_key((#[trigger] es[i]).0) by {
            assert(self.map@.contains_key(es[i].0));
        }
    }

    /// An empty collection.
    pub fn new() -> (r: Self)
        ensures
            r@ == Map::<Seq<char>, Seq<char>>::empty(),
    {
        SecretsBundle { map: StringMap::new() }
    }

    /// Store a secret. A key that is not a valid environment-variable name
    /// is skipped; an existing value for the key is replaced.
    pub fn insert(&mut self, key: &str, value: &str)
        ensures
            final(self)@ == insert_spec(old(self)@, key@, value@),
    {
        if !is_valid_env_key(key) {
            return;
        }
        proof {
            use_type_invariant(&*self);
        }
        let mut m = StringMap::new();
        std::mem::swap(&mut m, &mut self.map);
        m.insert(key, value);
        self.map = m;
    }

    /// The value stored under `key`.
    pub fn get(&self, key: &str) -> (r: Option<&str>)
        ensures
            match r {
                Some(v) => self@.contains_key(key@) && v@ == self@[key@],
                None => !self@.contains_key(key@),
            },
    {
        self.map.get(key)
    }

    /// Number of secrets stored.
    pub fn len(&self) -> (r: usize)
        ensures
            r == self@.len(),
    {
        self.map.len()
    }

    /// Whether the collection is empty.
    pub fn is_empty(&self) -> (r: bool)
        ensures
            r == (self@.len() == 0),
    {
        self.len() == 0
    }

    /// The stored `(key, value)` pairs; their keys are distinct valid names.
    pub fn iter(&self) -> (r: Vec<(&str, &str)>)
        ensures
            r@.map_values(|p: (&str, &str)| (p.0@, p.1@)) == self.entry_seq(),
            unique_keys(self.entry_seq()),
            valid_keys(self.entry_seq()),
    {
        proof {
            use_type_invariant(self);
        }
        let r = self.map.pairs();
        proof {
            self.lemma_valid_keys();
        }
        r
    }

    /// The stored keys.
    pub fn keys(&self) -> (r: Vec<&str>)
        ensures
            views(r@) == self.entry_seq().map_values(|p: (Seq<char>, Seq<char>)| p.0),
            unique_keys(self.entry_seq()),
            valid_keys(self.entry_seq()),
    {
        proof {
            use_type_invariant(self);
        }
        let r = self.map.keys();
        proof {
            self.lemma_valid_keys();
        }
        r
    }

    /// Mask a secret value for display: `(empty)`, `****` for values of at
    /// most six characters, otherwise the first two characters, `****` and
    /// the last two.
    pub fn mask_value(value: &str) -> (r: String)
        ensures
            r@ == mask_spec(value@),
    {
        let n = value.unicode_len();
        if n == 0 {
            proof {
                reveal_strlit("(empty)");
            }
            let r = String::from_str("(empty)");
            assert(r@ =~= empty_marker());
            return r;
        }
        proof {
            reveal_strlit("****");
        }
        if n <= 6 {
            let r = String::from_str("****");
            assert(r@ =~= stars());
            return r;
        }
        let first = value.substring_char(0, 2);
        let last = value.substring_char(n - 2, n);
        let mut r = String::from_str(first);
        r.append("****");
        r.append(last);
        assert(r@ =~= mask_spec(value@));
        r
    }

    /// One display line for a pair.
    fn line(style: LineStyle, key: &str, value: &str) -> (r: String)
        requires
        ensures
            r@ == style_line(style, (key@, value@)),
    {
        proof {
            reveal_strlit("  ");
            reveal_strlit(" = ");
            reveal_strlit("=");
        }
        match style {
            LineStyle::Masked => {
                let mut r = String::from_str("  ");
                r.append(key);
                r.append(" = ");
                let m = Self::mask_value(value);
                r.append(m.as_str());
                assert(r@ =~= masked_line((key@, value@)));
                r
            },
            LineStyle::Full => {
                let mut r = String::from_str("  ");
                r.append(key);
                r.append(" = ");
                r.append(value);
                assert(r@ =~= full_line((key@, value@)));
                r
            },
            LineStyle::Env => {
                let mut r = String::from_str(key);
                r.append("=");
                r.append(value);
                assert(r@ =~= env_line((key@, value@)));
                r
            },
        }
    }

    /// The lines for all pairs, sorted.
    fn lines(&self, style: LineStyle) -> (r: Vec<String>)
        ensures
            string_views(r@) == sorted_by(
                self.entry_seq().map_values(|p: (Seq<char>, Seq<char>)| style_line(style, p)),
                chars_key(),
            ),
    {
        let pairs = self.map.pairs();
        proof {
            lemma_pairs_facts(self.entry_seq());
        }
        let ghost es = self.entry_seq();
        let ghost target = es.map_values(|p: (Seq<char>, Seq<char>)| style_line(style, p));
        let mut out: Vec<String> = Vec::new();
        let mut i: usize = 0;
        while i < pairs.len()
            invariant
                i <= pairs@.len(),
                pairs@.map_values(|p: (&str, &str)| (p.0@, p.1@)) == es,
                target == es.map_values(|p: (Seq<char>, Seq<char>)| style_line(style, p)),
                self@ == pairs_to_map(es),
                forall|j: int|
                    0 <= j < es.len() ==> pairs_to_map(es).contains_key((#[trigger] es[j]).0)
                        && pairs_to_map(es)[es[j].0] == es[j].1,
                string_views(out@) == target.take(i as int),
            decreases pairs@.len() - i,
        {
            let (k, v) = pairs[i];
            proof {
                assert(es[i as int] == (k@, v@));
            }
            let l = Self::line(style, k, v);
            let ghost before = out@;
            let ghost lv = l@;
            out.push(l);
            assert(string_views(out@) =~= string_views(before).push(lv));
            assert(target[i as int] == style_line(style, (k@, v@)));
            assert(string_views(out@) =~= target.take(i + 1));
            i = i + 1;
        }
        assert(target.take(pairs@.len() as int) =~= target);
        sort_strings(out)
    }

    /// The secrets as `  KEY = <masked>` lines, sorted.
    pub fn display_masked(&self) -> (r: Vec<String>)
        ensures
            string_views(r@) == sorted_by(
                self.entry_seq().map_values(|p: (Seq<char>, Seq<char>)| masked_line(p)),
                chars_key(),
            ),
    {
        let r = self.lines(LineStyle::Masked);
        assert(self.entry_seq().map_values(
            |p: (Seq<char>, Seq<char>)| style_line(LineStyle::Masked, p),
        ) =~= self.entry_seq().map_values(|p: (Seq<char>, Seq<char>)| masked_line(p)));
        r
    }

    /// The secrets as `  KEY = value` lines, sorted.
    pub fn display_full(&self) -> (r: Vec<String>)
        ensures
            string_views(r@) == sorted_by(
                self.entry_seq().map_values(|p: (Seq<char>, Seq<char>)| full_line(p)),
                chars_key(),
            ),
    {
        let r = self.lines(LineStyle::Full);
        assert(self.entry_seq().map_values(
            |p: (Seq<char>, Seq<char>)| style_line(LineStyle::Full, p),
        ) =~= self.entry_seq().map_values(|p: (Seq<char>, Seq<char>)| full_line(p)));
        r
    }

    /// The secrets as `KEY=value` lines (for sourcing), sorted.
    pub fn display_env(&self) -> (r: Vec<String>)
        ensures
            string_views(r@) == sorted_by(
                self.entry_seq().map_values(|p: (Seq<char>, Seq<char>)| env_line(p)),
                chars_key(),
            ),
    {
        let r = self.lines(LineStyle::Env);
        assert(self.entry_seq().map_values(
            |p: (Seq<char>, Seq<char>)| style_line(LineStyle::Env, p),
        ) =~= self.entry_seq().map_values(|p: (Seq<char>, Seq<char>)| env_line(p)));
        r
    }

    /// Read the `KEY=value` lines of `.env` content into the collection:
    /// blank lines and `#` comments are skipped, values lose surrounding
    /// quotes, and keys that are not valid names are skipped.
    pub fn parse_env_content(&mut self, content: &str)
        ensures
            final(self)@ == apply_env_lines(old(self)@, split_char(content@, '\n')),
    {
        let lines = split(content, '\n');
        let ghost ls = split_char(content@, '\n');
        let ghost m0 = self@;
        let mut i: usize = 0;
        assert(ls.take(0) =~= Seq::<Seq<char>>::empty());
        while i < lines.len()
            invariant
                views(lines@) == ls,
                i <= lines@.len(),
                self@ == apply_env_lines(m0, ls.take(i as int)),
            decreases lines@.len() - i,
        {
            assert(ls.take(i + 1).drop_last() =~= ls.take(i as int));
            assert(ls.take(i + 1).last() == lines@[i as int]@);
            self.apply_env_line(lines[i]);
            i = i + 1;
        }
        assert(ls.take(lines@.len() as int) =~= ls);
    }

    /// Apply the assignment on one `.env` line, if it carries one.
    fn apply_env_line(&mut self, raw: &str)
        ensures
            final(self)@ == match env_assignment(raw@) {
                Some((k, v)) => insert_spec(old(self)@, k, v),
                None => old(self)@,
            },
    {
        let line = trim(raw);
        proof {
            reveal_strlit("#");
        }
        if line.unicode_len() == 0 || line.get_char(0) == '#' {
            return;
        }
        match split_once(line, '=') {
            Some((k, v)) => {
                let key = trim(k);
                let value = strip_exec(strip_exec(trim(v), Pat::Char('"')), Pat::Char('\''));
                if key.unicode_len() > 0 {
                    self.insert(key, value);
                }
            },
            None => {},
        }
    }

    /// The collection as JSON bytes.
    fn to_json(&self) -> (r: Vec<u8>)
        ensures
            r@ == secrets_json(self.entry_seq()),
    {
        let mut out: Vec<u8> = Vec::new();
        out.push(123u8);
        out.push(34u8);
        out.push(101u8);
        out.push(110u8);
        out.push(116u8);
        out.push(114u8);
        out.push(105u8);
        out.push(101u8);
        out.push(115u8);
        out.push(34u8);
        out.push(58u8);
        out.push(123u8);
        assert(out@ =~= json_open());
        let pairs = self.map.pairs();
        let ghost es = self.entry_seq();
        let mut i: usize = 0;
        while i < pairs.len()
            invariant
                i <= pairs@.len(),
                pairs@.map_values(|p: (&str, &str)| (p.0@, p.1@)) == es,
                out@ == json_open() + json_members(es.take(i as int)),
            decreases pairs@.len() - i,
        {
            let ghost before = out@;
            if i > 0 {
                out.push(44u8);
            }
            let (k, v) = pairs[i];
            let kb = json_string_bytes(k);
            push_all(&mut out, &kb);
            out.push(58u8);
            let vb = json_string_bytes(v);
            push_all(&mut out, &vb);
            proof {
                let t = es.take(i + 1);
                assert(t.drop_last() =~= es.take(i as int));
                assert(t.last() == (k@, v@));
                if i == 0 {
                    assert(json_members(es.take(0)) =~= Seq::<u8>::empty());
                }
                assert(out@ =~= json_open() + json_members(t));
            }
            i = i + 1;
        }
        assert(es.take(pairs@.len() as int) =~= es);
        out.push(125u8);
        out.push(125u8);
        assert(out@ =~= secrets_json(self.entry_seq()));
        out
    }

    /// Seal the collection with a passphrase: the JSON form, encrypted.
    /// The plaintext is wiped after use.
    pub fn save_encrypted(&self, passphrase: &str) -> (r: Result<Vec<u8>, SecretsError>)
        ensures
            self@.len() == 0 <==> r == Err::<Vec<u8>, SecretsError>(SecretsError::NoSecrets),
            self@.len() > 0 && passphrase@.len() == 0 ==> r == Err::<Vec<u8>, SecretsError>(
                SecretsError::Encrypt(CryptoError::EmptyPassphrase),
            ),
            r matches Ok(out) ==> sealed_envelope(
                passphrase_bytes(passphrase@),
                secrets_json(self.entry_seq()),
                out@,
            ),
            r matches Err(SecretsError::Encrypt(e)) ==> e == CryptoError::EmptyPassphrase
                || e == CryptoError::KeyDerivationFailed || e == CryptoError::EncryptionFailed,
            !(r matches Err(SecretsError::Decrypt(_))),
            r != Err::<Vec<u8>, SecretsError>(SecretsError::EmptyNewPassphrase),
            self@.len() > 0 && passphrase@.len() > 0 && passphrase_bytes(passphrase@).len()
                <= MAX_PASSWORD_LEN && secrets_json(self.entry_seq()).len() <= MAX_PLAINTEXT_LEN
                ==> r is Ok,
    {
        if self.is_empty() {
            return Err(SecretsError::NoSecrets);
        }
        let mut json = self.to_json();
        let res = encrypt_secrets(passphrase, json.as_slice());
        zeroize_bytes(&mut json);
        match res {
            Ok(out) => Ok(out),
            Err(e) => Err(SecretsError::Encrypt(e)),
        }
    }

    /// Change the passphrase of sealed secrets: open with the old
    /// passphrase, seal again with the new one.
    pub fn rekey(encrypted: &[u8], old_passphrase: &str, new_passphrase: &str) -> (r: Result<
        Vec<u8>,
        SecretsError,
    >)
        ensures
            new_passphrase@.len() == 0 ==> r == Err::<Vec<u8>, SecretsError>(
                SecretsError::EmptyNewPassphrase,
            ),
            new_passphrase@.len() > 0 ==> match decrypt_spec(
                passphrase_bytes(old_passphrase@),
                encrypted@,
            ) {
                Err(e) => r == Err::<Vec<u8>, SecretsError>(SecretsError::Decrypt(e)),
                Ok(plain) => match r {
                    Ok(out) => sealed_envelope(passphrase_bytes(new_passphrase@), plain, out@),
                    Err(SecretsError::Encrypt(e)) => (e == CryptoError::KeyDerivationFailed || e
                        == CryptoError::EncryptionFailed) && !(passphrase_bytes(
                        new_passphrase@,
                    ).len() <= MAX_PASSWORD_LEN && plain.len() <= MAX_PLAINTEXT_LEN),
                    Err(_) => false,
                },
            },
    {
        if new_passphrase.unicode_len() == 0 {
            return Err(SecretsError::EmptyNewPassphrase);
        }
        let mut plain = match decrypt_secrets(old_passphrase, encrypted) {
            Ok(p) => p,
            Err(e) => {
                return Err(SecretsError::Decrypt(e));
            },
        };
        let res = encrypt_secrets(new_passphrase, plain.as_slice());
        zeroize_bytes(&mut plain);
        match res {
            Ok(out) => Ok(out),
            Err(e) => Err(SecretsError::Encrypt(e)),
        }
    }

    /// Open sealed secrets: the JSON form of the collection.
    pub fn load_decrypted(encrypted: &[u8], passphrase: &str) -> (r: Result<Vec<u8>, SecretsError>)
        ensures
            match decrypt_spec(passphrase_bytes(passphrase@), encrypted@) {
                Ok(p) => r matches Ok(v) && v@ == p,
                Err(e) => r == Err::<Vec<u8>, SecretsError>(SecretsError::Decrypt(e)),
            },
    {
        match decrypt_secrets(passphrase, encrypted) {
            Ok(p) => Ok(p),
            Err(e) => Err(SecretsError::Decrypt(e)),
        }
    }
}

impl Default for SecretsBundle {
    fn default() -> (r: Self)
        ensures
            r@ == Map::<Seq<char>, Seq<char>>::empty(),
    {
        Self::new()
    }
}

// ---------------------------------------------------------------------------
// Laws
// ---------------------------------------------------------------------------

/// What `save_encrypted` seals opens, under the same passphrase, to the JSON
/// form of the same collection.
pub proof fn lemma_save_load_roundtrip(b: &SecretsBundle, passphrase: Seq<char>, sealed: Seq<u8>)
    requires
        sealed_envelope(passphrase_bytes(passphrase), secrets_json(b.entry_seq()), sealed),
    ensures
        decrypt_spec(passphrase_bytes(passphrase), sealed) == Ok::<Seq<u8>, CryptoError>(
            secrets_json(b.entry_seq()),
        ),
{
    lemma_encrypt_decrypt_roundtrip(passphrase_bytes(passphrase), secrets_json(b.entry_seq()), sealed);
}

/// Re-keying keeps the contents: what `rekey` returns opens under the new
/// passphrase to exactly what the input opened to under the old one.
pub proof fn lemma_rekey_preserves_contents(
    encrypted: Seq<u8>,
    old_pw: Seq<char>,
    new_pw: Seq<char>,
    plain: Seq<u8>,
    out: Seq<u8>,
)
    requires
        decrypt_spec(passphrase_bytes(old_pw), encrypted) == Ok::<Seq<u8>, CryptoError>(plain),
        sealed_envelope(passphrase_bytes(new_pw), plain, out),
    ensures
        decrypt_spec(passphrase_bytes(new_pw), out) == decrypt_spec(
            passphrase_bytes(old_pw),
            encrypted,
        ),
{
    lemma_encrypt_decrypt_roundtrip(passphrase_bytes(new_pw), plain, out);
}

/// Inserting into a collection: under a valid key the value is stored,
/// replacing an earlier one, every other key keeps its value, and the size
/// grows by one exactly when the key was new; under an invalid key nothing
/// changes.
pub proof fn lemma_insert_law(b: &SecretsBundle, k: Seq<char>, v: Seq<char>)
    ensures
        valid_env_key(k) ==> insert_spec(b@, k, v).contains_key(k) && insert_spec(b@, k, v)[k]
            == v,
        forall|other: Seq<char>|
            other != k ==> (#[trigger] insert_spec(b@, k, v).contains_key(other) == b@.contains_key(
                other,
            ) && (b@.contains_key(other) ==> insert_spec(b@, k, v)[other] == b@[other])),
        valid_env_key(k) ==> insert_spec(b@, k, v).len() == b@.len() + if b@.contains_key(k) {
            0int
        } else {
            1int
        },
        !valid_env_key(k) ==> insert_spec(b@, k, v) == b@,
{
    b.lemma_finite();
}

/// A collection is empty exactly when it holds no key.
pub proof fn lemma_empty_iff_no_keys(b: &SecretsBundle)
    ensures
        (b@.len() == 0) == (b@ == Map::<Seq<char>, Seq<char>>::empty()),
{
    b.lemma_finite();
    if b@.len() == 0 {
        assert(b@.dom() =~= Set::<Seq<char>>::empty());
        assert(b@ =~= Map::<Seq<char>, Seq<char>>::empty());
    }
}

/// Each listing of the secrets (masked, full, `.env`) holds one line per
/// stored pair, in ascending order: it is a sorted permutation of the
/// formatted pairs.
pub proof fn lemma_listings_sorted_permutations(b: &SecretsBundle)
    ensures
        ({
            let ms = b.entry_seq().map_values(|p: (Seq<char>, Seq<char>)| masked_line(p));
            let fs = b.entry_seq().map_values(|p: (Seq<char>, Seq<char>)| full_line(p));
            let es = b.entry_seq().map_values(|p: (Seq<char>, Seq<char>)| env_line(p));
            &&& sorted_by(ms, chars_key()).to_multiset() == ms.to_multiset()
            &&& sorted_by(fs, chars_key()).to_multiset() == fs.to_multiset()
            &&& sorted_by(es, chars_key()).to_multiset() == es.to_multiset()
            &&& forall|i: int, j: int|
                0 <= i < j < sorted_by(ms, chars_key()).len() ==> !lex_lt(
                    #[trigger] sorted_by(ms, chars_key())[j],
                    #[trigger] sorted_by(ms, chars_key())[i],
                )
            &&& forall|i: int, j: int|
                0 <= i < j < sorted_by(fs, chars_key()).len() ==> !lex_lt(
                    #[trigger] sorted_by(fs, chars_key())[j],
                    #[trigger] sorted_by(fs, chars_key())[i],
                )
            &&& forall|i: int, j: int|
                0 <= i < j < sorted_by(es, chars_key()).len() ==> !lex_lt(
                    #[trigger] sorted_by(es, chars_key())[j],
                    #[trigger] sorted_by(es, chars_key())[i],
                )
        }),
{
    let ms = b.entry_seq().map_values(|p: (Seq<char>, Seq<char>)| masked_line(p));
    let fs = b.entry_seq().map_values(|p: (Seq<char>, Seq<char>)| full_line(p));
    let es = b.entry_seq().map_values(|p: (Seq<char>, Seq<char>)| env_line(p));
    lemma_sorted_by_sorted_permutation(ms, chars_key());
    lemma_sorted_by_sorted_permutation(fs, chars_key());
    lemma_sorted_by_sorted_permutation(es, chars_key());
}

/// Masking hides all but at most four characters: an empty value shows
/// `(empty)`, a value of one to six characters shows only `****`, and a
/// longer one shows its first two and last two characters around `****`.
pub proof fn lemma_mask_hides_value(v: Seq<char>)
    ensures
        v.len() == 0 ==> mask_spec(v) == "(empty)"@,
        1 <= v.len() <= 6 ==> mask_spec(v) == "****"@,
        v.len() > 6 ==> mask_spec(v).len() == 8 && mask_spec(v).take(2) == v.take(2)
            && mask_spec(v).subrange(2, 6) == "****"@ && mask_spec(v).skip(6) == v.skip(
            v.len() - 2,
        ),
{
    reveal_strlit("(empty)");
    reveal_strlit("****");
    assert(empty_marker() =~= "(empty)"@);
    assert(stars() =~= "****"@);
    if v.len() > 6 {
        let r = mask_spec(v);
        assert(r.take(2) =~= v.take(2));
        assert(r.subrange(2, 6) =~= stars());
        assert(r.skip(6) =~= v.skip(v.len() - 2));
    }
}

/// Reading `.env` lines: blank lines and `#` comments change nothing, and
/// an assignment to a valid key sets it, replacing what earlier lines set.
pub proof fn lemma_env_lines_law(
    m: Map<Seq<char>, Seq<char>>,
    lines: Seq<Seq<char>>,
    line: Seq<char>,
)
    ensures
        trimmed(line).len() == 0 || trimmed(line)[0] == '#' ==> apply_env_lines(
            m,
            lines.push(line),
        ) == apply_env_lines(m, lines),
        env_assignment(line) is Some && valid_env_key(env_assignment(line)->Some_0.0)
            ==> apply_env_lines(m, lines.push(line)).contains_key(env_assignment(line)->Some_0.0)
            && apply_env_lines(m, lines.push(line))[env_assignment(line)->Some_0.0]
            == env_assignment(line)->Some_0.1,
{
    assert(lines.push(line).drop_last() =~= lines);
    assert(lines.push(line).last() == line);
}

/// The serialised collection is the JSON object `{"entries":{...}}`: with
/// no secrets it is `{"entries":{}}`, with one it is
/// `{"entries":{"KEY":"value"}}`, and each further pair adds a comma and its
/// `"KEY":"value"` member before the closing braces.
pub proof fn lemma_secrets_json_layout(
    s: Seq<(Seq<char>, Seq<char>)>,
    k: Seq<char>,
    v: Seq<char>,
)
    ensures
        secrets_json(Seq::empty()) == seq![
            123u8, 34u8, 101u8, 110u8, 116u8, 114u8, 105u8, 101u8, 115u8, 34u8, 58u8, 123u8, 125u8, 125u8,
        ],
        secrets_json(seq![(k, v)]) == seq![
            123u8, 34u8, 101u8, 110u8, 116u8, 114u8, 105u8, 101u8, 115u8, 34u8, 58u8, 123u8,
        ] + json_string(k) + seq![58u8] + json_string(v) + seq![125u8, 125u8],
        s.len() > 0 ==> secrets_json(s.push((k, v))) == seq![
            123u8, 34u8, 101u8, 110u8, 116u8, 114u8, 105u8, 101u8, 115u8, 34u8, 58u8, 123u8,
        ] + json_members(s) + seq![44u8] + json_string(k) + seq![58u8] + json_string(v) + seq![
            125u8,
            125u8,
        ],
{
    let e = Seq::<(Seq<char>, Seq<char>)>::empty();
    assert(secrets_json(e) =~= json_open() + seq![125u8, 125u8]);
    let one = seq![(k, v)];
    assert(one.last() == (k, v));
    assert(secrets_json(one) =~= json_open() + json_string(k) + seq![58u8] + json_string(v) + seq![
        125u8,
        125u8,
    ]);
    if s.len() > 0 {
        let t = s.push((k, v));
        assert(t.drop_last() =~= s);
        assert(t.last() == (k, v));
        assert(secrets_json(t) =~= json_open() + json_members(s) + seq![44u8] + json_string(k)
            + seq![58u8] + json_string(v) + seq![125u8, 125u8]);
    }
}

} // verus!
