//! The isolated environment of an agent process.
//!
//! The child starts with a cleared environment; only variables put here are
//! passed to it: a short list of system variables, the agent's own
//! variables and the injected secrets.

use vstd::prelude::*;
use crate::pairmap::{StringMap, unique_keys};
use crate::text::views;

verus! {

/// The system variables passed through on Windows.
pub open spec fn windows_default_keys() -> Seq<Seq<char>> {
    seq![
        seq!['P', 'A', 'T', 'H'],
        seq!['H', 'O', 'M', 'E'],
        seq!['U', 'S', 'E', 'R'],
        seq!['S', 'y', 's', 't', 'e', 'm', 'R', 'o', 'o', 't'],
        seq!['C', 'O', 'M', 'S', 'P', 'E', 'C'],
        seq!['P', 'A', 'T', 'H', 'E', 'X', 'T'],
        seq!['T', 'E', 'M', 'P'],
        seq!['T', 'M', 'P'],
    ]
}

/// The system variables passed through elsewhere.
pub open spec fn unix_default_keys() -> Seq<Seq<char>> {
    seq![
        seq!['P', 'A', 'T', 'H'],
        seq!['H', 'O', 'M', 'E'],
        seq!['U', 'S', 'E', 'R'],
        seq!['S', 'H', 'E', 'L', 'L'],
        seq!['L', 'A', 'N', 'G'],
        seq!['L', 'C', '_', 'A', 'L', 'L'],
        seq!['T', 'M', 'P', 'D', 'I', 'R'],
    ]
}

/// The names of the system variables that pass through to the agent.
pub fn system_default_keys(windows: bool) -> (r: Vec<&'static str>)
    ensures
        views(r@) == if windows {
            windows_default_keys()
        } else {
            unix_default_keys()
        },
{
    let mut v: Vec<&'static str> = Vec::new();
    proof {
        reveal_strlit("PATH");
        reveal_strlit("HOME");
        reveal_strlit("USER");
        reveal_strlit("SystemRoot");
        reveal_strlit("COMSPEC");
        reveal_strlit("PATHEXT");
        reveal_strlit("TEMP");
        reveal_strlit("TMP");
        reveal_strlit("SHELL");
        reveal_strlit("LANG");
        reveal_strlit("LC_ALL");
        reveal_strlit("TMPDIR");
        assert("PATH"@ =~= seq!['P', 'A', 'T', 'H']);
        assert("HOME"@ =~= seq!['H', 'O', 'M', 'E']);
        assert("USER"@ =~= seq!['U', 'S', 'E', 'R']);
        assert("SystemRoot"@ =~= seq!['S', 'y', 's', 't', 'e', 'm', 'R', 'o', 'o', 't']);
        assert("COMSPEC"@ =~= seq!['C', 'O', 'M', 'S', 'P', 'E', 'C']);
        assert("PATHEXT"@ =~= seq!['P', 'A', 'T', 'H', 'E', 'X', 'T']);
        assert("TEMP"@ =~= seq!['T', 'E', 'M', 'P']);
        assert("TMP"@ =~= seq!['T', 'M', 'P']);
        assert("SHELL"@ =~= seq!['S', 'H', 'E', 'L', 'L']);
        assert("LANG"@ =~= seq!['L', 'A', 'N', 'G']);
        assert("LC_ALL"@ =~= seq!['L', 'C', '_', 'A', 'L', 'L']);
        assert("TMPDIR"@ =~= seq!['T', 'M', 'P', 'D', 'I', 'R']);
    }
    if windows {
        v.push("PATH");
        v.push("HOME");
        v.push("USER");
        v.push("SystemRoot");
        v.push("COMSPEC");
        v.push("PATHEXT");
        v.push("TEMP");
        v.push("TMP");
        assert(views(v@) =~= windows_default_keys());
    } else {
        v.push("PATH");
        v.push("HOME");
        v.push("USER");
        v.push("SHELL");
        v.push("LANG");
        v.push("LC_ALL");
        v.push("TMPDIR");
        assert(views(v@) =~= unix_default_keys());
    }
    v
}

/// The map after inserting `vars` in order (later pairs win).
pub open spec fn insert_all(m: Map<Seq<char>, Seq<char>>, vars: Seq<(Seq<char>, Seq<char>)>) -> Map<
    Seq<char>,
    Seq<char>,
>
    decreases vars.len(),
{
    if vars.len() == 0 {
        m
    } else {
        insert_all(m, vars.drop_last()).insert(vars.last().0, vars.last().1)
    }
}

/// Injecting variables into an environment gives the union of the two, the
/// injected values winning: the variable names become those already set
/// together with the injected ones, and each injected name is bound to its
/// (last) injected value.
pub proof fn lemma_inject_all_union(
    m: Map<Seq<char>, Seq<char>>,
    vars: Seq<(Seq<char>, Seq<char>)>,
)
    ensures
        insert_all(m, vars) == m.union_prefer_right(crate::pairmap::pairs_to_map(vars)),
        insert_all(m, vars).dom() == m.dom() + crate::pairmap::pairs_to_map(vars).dom(),
        forall|k: Seq<char>|
            #[trigger] crate::pairmap::pairs_to_map(vars).contains_key(k) ==> insert_all(m, vars)[k]
                == crate::pairmap::pairs_to_map(vars)[k],
    decreases vars.len(),
{
    if vars.len() > 0 {
        lemma_inject_all_union(m, vars.drop_last());
    }
    assert(insert_all(m, vars) =~= m.union_prefer_right(crate::pairmap::pairs_to_map(vars)));
    assert(insert_all(m, vars).dom() =~= m.dom() + crate::pairmap::pairs_to_map(vars).dom());
}

/// An isolated runtime environment for executing an agent.
#[derive(Debug)]
pub struct RuntimeEnvironment {
    variables: StringMap,
}

impl View for RuntimeEnvironment {
    type V = Map<Seq<char>, Seq<char>>;

    closed spec fn view(&self) -> Map<Seq<char>, Seq<char>> {
        self.variables@
    }
}

impl RuntimeEnvironment {
    /// The variables in the order they were first set.
    pub closed spec fn entry_seq(&self) -> Seq<(Seq<char>, Seq<char>)> {
        self.variables.entry_seq()
    }

    /// The environment is the map its pairs describe.
    pub proof fn lemma_view(&self)
        ensures
            self@ == crate::pairmap::pairs_to_map(self.entry_seq()),
    {
    }

    /// An environment with no variables (nothing inherited).
    pub fn clean() -> (r: Self)
        ensures
            r@ == Map::<Seq<char>, Seq<char>>::empty(),
    {
        RuntimeEnvironment { variables: StringMap::new() }
    }

    /// Set a variable.
    pub fn inject(&mut self, key: &str, value: &str)
        ensures
            final(self)@ == old(self)@.insert(key@, value@),
    {
        self.variables.insert(key, value);
    }

    /// Set several variables, in order.
    pub fn inject_all(&mut self, vars: &Vec<(String, String)>)
        ensures
            final(self)@ == insert_all(
                old(self)@,
                vars@.map_values(|p: (String, String)| (p.0@, p.1@)),
            ),
    {
        let ghost vs = vars@.map_values(|p: (String, String)| (p.0@, p.1@));
        let ghost m0 = self@;
        let mut i: usize = 0;
        assert(vs.take(0) =~= Seq::<(Seq<char>, Seq<char>)>::empty());
        while i < vars.len()
            invariant
                i <= vars@.len(),
                vs == vars@.map_values(|p: (String, String)| (p.0@, p.1@)),
                self@ == insert_all(m0, vs.take(i as int)),
            decreases vars@.len() - i,
        {
            assert(vs.take(i + 1).drop_last() =~= vs.take(i as int));
            assert(vs.take(i + 1).last() == (vars@[i as int].0@, vars@[i as int].1@));
            self.inject(vars[i].0.as_str(), vars[i].1.as_str());
            i = i + 1;
        }
        assert(vs.take(vars@.len() as int) =~= vs);
    }

    /// Number of variables.
    pub fn len(&self) -> (r: usize)
        ensures
            r == self@.len(),
    {
        self.variables.len()
    }

    /// Whether no variable is set.
    pub fn is_empty(&self) -> (r: bool)
        ensures
            r == (self@.len() == 0),
    {
        self.variables.len() == 0
    }

    /// The variable names.
    pub fn keys(&self) -> (r: Vec<&str>)
        ensures
            views(r@) == self.entry_seq().map_values(|p: (Seq<char>, Seq<char>)| p.0),
            unique_keys(self.entry_seq()),
    {
        self.variables.keys()
    }

    /// The `(name, value)` pairs, for handing to the child process.
    pub fn pairs(&self) -> (r: Vec<(&str, &str)>)
        ensures
            r@.map_values(|p: (&str, &str)| (p.0@, p.1@)) == self.entry_seq(),
            unique_keys(self.entry_seq()),
    {
        self.variables.pairs()
    }
}

impl Default for RuntimeEnvironment {
    fn default() -> (r: Self)
        ensures
            r@ == Map::<Seq<char>, Seq<char>>::empty(),
    {
        Self::clean()
    }
}

} // verus!
