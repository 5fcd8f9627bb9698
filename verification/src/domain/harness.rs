//! Harness identification — which agent runtime a bundle targets.

use vstd::prelude::*;

verus! {

/// Identifier for a supported agent harness.
#[derive(Debug, Clone, Copy, PartialEq, Eq, Hash, Structural)]
pub enum HarnessId {
    Pi,
    Aider,
}

/// ASCII lower-casing of one character.
pub open spec fn ascii_lower(c: char) -> char {
    if 'A' <= c && c <= 'Z' {
        ((c as u32) + 32) as char
    } else {
        c
    }
}

/// `s` equals the lower-case ASCII word `word` when case is ignored.
pub open spec fn eq_ignore_case(s: Seq<char>, word: Seq<char>) -> bool {
    s.len() == word.len() && forall|i: int| 0 <= i < s.len() ==> ascii_lower(#[trigger] s[i]) == word[i]
}

/// The canonical (lower-case) name of a harness.
pub open spec fn harness_name(id: HarnessId) -> Seq<char> {
    match id {
        HarnessId::Pi => "pi"@,
        HarnessId::Aider => "aider"@,
    }
}

/// The harness named by `name`, case-insensitively.
pub open spec fn harness_from_name(name: Seq<char>) -> Option<HarnessId> {
    if eq_ignore_case(name, "pi"@) {
        Some(HarnessId::Pi)
    } else if eq_ignore_case(name, "aider"@) {
        Some(HarnessId::Aider)
    } else {
        None
    }
}

/// The message given for a name that names no harness.
pub open spec fn unknown_harness_message(name: Seq<char>) -> Seq<char> {
    "unknown harness '"@ + name + "'\n  supported: pi, aider"@
}

fn lower_char(c: char) -> (r: char)
    ensures
        r == ascii_lower(c),
{
    if 'A' <= c && c <= 'Z' {
        let b = (c as u8) + 32;
        b as char
    } else {
        c
    }
}

/// Whether `s` equals the lower-case word `word` when ASCII case is ignored.
fn matches_ignore_case(s: &str, word: &str) -> (r: bool)
    ensures
        r == eq_ignore_case(s@, word@),
{
    let n = s.unicode_len();
    if n != word.unicode_len() {
        return false;
    }
    let mut i: usize = 0;
    while i < n
        invariant
            n == s@.len(),
            n == word@.len(),
            i <= n,
            forall|j: int| 0 <= j < i ==> ascii_lower(#[trigger] s@[j]) == word@[j],
        decreases n - i,
    {
        if lower_char(s.get_char(i)) != word.get_char(i) {
            return false;
        }
        i = i + 1;
    }
    true
}

impl HarnessId {
    /// Parse a harness name into a HarnessId (ASCII case is ignored).
    pub fn from_name(name: &str) -> (r: Option<Self>)
        ensures
            r == harness_from_name(name@),
    {
        if matches_ignore_case(name, "pi") {
            Some(HarnessId::Pi)
        } else if matches_ignore_case(name, "aider") {
            Some(HarnessId::Aider)
        } else {
            None
        }
    }

    /// All supported harnesses.
    pub fn all() -> (r: Vec<HarnessId>)
        ensures
            r@ == seq![HarnessId::Pi, HarnessId::Aider],
    {
        let r = vec![HarnessId::Pi, HarnessId::Aider];
        assert(r@ =~= seq![HarnessId::Pi, HarnessId::Aider]);
        r
    }

    /// Whether this harness is fully supported (not just scaffolded).
    pub fn is_fully_supported(&self) -> (r: bool)
        ensures
            r == (*self == HarnessId::Pi),
    {
        match self {
            HarnessId::Pi => true,
            HarnessId::Aider => false,
        }
    }

    /// The canonical name of this harness, as displayed.
    pub fn name(&self) -> (r: &'static str)
        ensures
            r@ == harness_name(*self),
    {
        match self {
            HarnessId::Pi => "pi",
            HarnessId::Aider => "aider",
        }
    }

    /// Parse a harness name, with a message listing the supported ones.
    pub fn parse(s: &str) -> (r: Result<Self, String>)
        ensures
            match harness_from_name(s@) {
                Some(id) => r == Ok::<HarnessId, String>(id),
                None => r matches Err(m) && m@ == unknown_harness_message(s@),
            },
    {
        match HarnessId::from_name(s) {
            Some(id) => Ok(id),
            None => {
                let m = String::from_str("unknown harness '").concat(s).concat(
                    "'\n  supported: pi, aider",
                );
                Err(m)
            },
        }
    }

    /// Whether two identifiers are the same harness.
    pub fn same(&self, other: &HarnessId) -> (r: bool)
        ensures
            r == (*self == *other),
    {
        match (self, other) {
            (HarnessId::Pi, HarnessId::Pi) => true,
            (HarnessId::Aider, HarnessId::Aider) => true,
            _ => false,
        }
    }
}

impl std::str::FromStr for HarnessId {
    type Err = String;

    fn from_str(s: &str) -> (r: Result<Self, Self::Err>)
        ensures
            match harness_from_name(s@) {
                Some(id) => r == Ok::<HarnessId, String>(id),
                None => r matches Err(m) && m@ == unknown_harness_message(s@),
            },
    {
        HarnessId::parse(s)
    }
}

/// Harness names are read without regard to case: `pi`, `Pi`, `pI` and
/// `PI` name Pi and nothing else does; each harness's own name names it.
pub proof fn lemma_harness_names(name: Seq<char>)
    ensures
        harness_from_name(name) == Some(HarnessId::Pi) <==> (name.len() == 2 && (name[0] == 'p'
            || name[0] == 'P') && (name[1] == 'i' || name[1] == 'I')),
        harness_from_name(harness_name(HarnessId::Pi)) == Some(HarnessId::Pi),
        harness_from_name(harness_name(HarnessId::Aider)) == Some(HarnessId::Aider),
{
    reveal_strlit("pi");
    reveal_strlit("aider");
    if name.len() == 2 && (name[0] == 'p' || name[0] == 'P') && (name[1] == 'i' || name[1] == 'I') {
        assert(ascii_lower(name[0]) == 'p');
        assert(ascii_lower(name[1]) == 'i');
        assert(eq_ignore_case(name, "pi"@));
    }
    if eq_ignore_case(name, "pi"@) {
        assert(ascii_lower(name[0]) == "pi"@[0]);
        assert(ascii_lower(name[1]) == "pi"@[1]);
    }
    assert(eq_ignore_case("pi"@, "pi"@)) by {
        assert(forall|i: int| 0 <= i < 2 ==> ascii_lower(#[trigger] "pi"@[i]) == "pi"@[i]);
    }
    assert(eq_ignore_case("aider"@, "aider"@)) by {
        assert(forall|i: int| 0 <= i < 5 ==> ascii_lower(#[trigger] "aider"@[i]) == "aider"@[i]);
    }
    assert(!eq_ignore_case("aider"@, "pi"@));
}

} // verus!
