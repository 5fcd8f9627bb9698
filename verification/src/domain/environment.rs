//! AgentEnvironment — the discovered state of an agent installation.

use vstd::prelude::*;
use super::component::{all_component_kinds, ComponentKind, ComponentState};
use super::harness::HarnessId;

verus! {

/// Index of the first component of kind `kind`, or -1.
pub open spec fn find_kind(s: Seq<ComponentState>, kind: ComponentKind) -> int
    decreases s.len(),
{
    if s.len() == 0 {
        -1
    } else if s[0].kind == kind {
        0
    } else {
        let k = find_kind(s.drop_first(), kind);
        if k < 0 {
            -1
        } else {
            k + 1
        }
    }
}

pub proof fn lemma_find_kind(s: Seq<ComponentState>, kind: ComponentKind)
    ensures
        -1 <= find_kind(s, kind) < s.len(),
        find_kind(s, kind) >= 0 ==> s[find_kind(s, kind)].kind == kind,
        forall|j: int| 0 <= j < find_kind(s, kind) ==> s[j].kind != kind,
        find_kind(s, kind) < 0 ==> forall|j: int| 0 <= j < s.len() ==> s[j].kind != kind,
    decreases s.len(),
{
    if s.len() > 0 && s[0].kind != kind {
        lemma_find_kind(s.drop_first(), kind);
        assert forall|j: int| 1 <= j < s.len() implies s[j] == s.drop_first()[j - 1] by {}
    }
}

/// Locate the first component of kind `kind`.
pub fn find_kind_exec(s: &Vec<ComponentState>, kind: ComponentKind) -> (r: Option<usize>)
    ensures
        match r {
            Some(i) => find_kind(s@, kind) == i,
            None => find_kind(s@, kind) == -1,
        },
{
    let mut i: usize = 0;
    while i < s.len()
        invariant
            i <= s@.len(),
            forall|j: int| 0 <= j < i ==> s@[j].kind != kind,
        decreases s@.len() - i,
    {
        if s[i].kind == kind {
            proof {
                lemma_find_kind(s@, kind);
            }
            return Some(i);
        }
        i = i + 1;
    }
    proof {
        lemma_find_kind(s@, kind);
    }
    None
}

/// Number of packed components.
pub open spec fn count_packed(s: Seq<ComponentState>) -> nat
    decreases s.len(),
{
    if s.len() == 0 {
        0
    } else {
        count_packed(s.drop_last()) + (if s.last().packed {
            1nat
        } else {
            0nat
        })
    }
}

/// Sum of the file counts of all components.
pub open spec fn sum_files(s: Seq<ComponentState>) -> nat
    decreases s.len(),
{
    if s.len() == 0 {
        0
    } else {
        sum_files(s.drop_last()) + (s.last().file_count as nat)
    }
}

/// Whether some component of kind `kind` is packed.
pub open spec fn any_packed(s: Seq<ComponentState>, kind: ComponentKind) -> bool {
    exists|i: int| 0 <= i < s.len() && s[i].kind == kind && s[i].packed
}

pub proof fn lemma_count_packed_bound(s: Seq<ComponentState>)
    ensures
        count_packed(s) <= s.len(),
    decreases s.len(),
{
    if s.len() > 0 {
        lemma_count_packed_bound(s.drop_last());
    }
}

/// Count the packed components of a list.
pub fn count_packed_exec(s: &Vec<ComponentState>) -> (r: usize)
    ensures
        r == count_packed(s@),
{
    let mut n: usize = 0;
    let mut i: usize = 0;
    while i < s.len()
        invariant
            i <= s@.len(),
            n == count_packed(s@.take(i as int)),
        decreases s@.len() - i,
    {
        assert(s@.take(i + 1).drop_last() =~= s@.take(i as int));
        proof {
            lemma_count_packed_bound(s@.take(i as int));
        }
        if s[i].packed {
            n = n + 1;
        }
        i = i + 1;
    }
    assert(s@.take(s@.len() as int) =~= s@);
    n
}

/// The discovered state of an agent installation.
#[derive(Debug, Clone)]
pub struct AgentEnvironment {
    /// Which harness this environment belongs to.
    pub harness: HarnessId,
    /// Root path of the harness installation.
    pub root: String,
    /// Detected version of the harness.
    pub version: String,
    /// Components found in this environment.
    pub components: Vec<ComponentState>,
}

/// Every component kind, unpacked, in canonical order.
pub open spec fn unpacked_components() -> Seq<ComponentState> {
    all_component_kinds().map_values(
        |k: ComponentKind| ComponentState { kind: k, packed: false, file_count: 0 },
    )
}

impl AgentEnvironment {
    /// Create a new empty environment for a given harness.
    pub fn new(harness: HarnessId, root: String, version: String) -> (r: Self)
        ensures
            r.harness == harness,
            r.root@ == root@,
            r.version@ == version@,
            r.components@ == unpacked_components(),
    {
        let kinds = ComponentKind::all();
        let mut components: Vec<ComponentState> = Vec::new();
        let mut i: usize = 0;
        while i < kinds.len()
            invariant
                kinds@ == all_component_kinds(),
                i <= kinds@.len(),
                components@ == unpacked_components().take(i as int),
            decreases kinds@.len() - i,
        {
            components.push(ComponentState::new(kinds[i]));
            assert(components@ =~= unpacked_components().take(i + 1));
            i = i + 1;
        }
        assert(components@ =~= unpacked_components());
        AgentEnvironment { harness, root, version, components }
    }

    /// Mark the first component of kind `kind` as packed with a file count.
    /// Nothing changes when no component has that kind.
    pub fn mark_packed(&mut self, kind: ComponentKind, file_count: u64)
        ensures
            final(self).harness == old(self).harness,
            final(self).root == old(self).root,
            final(self).version == old(self).version,
            find_kind(old(self).components@, kind) >= 0 ==> final(self).components@
                == old(self).components@.update(
                find_kind(old(self).components@, kind),
                ComponentState { kind, packed: true, file_count },
            ),
            find_kind(old(self).components@, kind) < 0 ==> final(self).components@
                == old(self).components@,
    {
        match find_kind_exec(&self.components, kind) {
            Some(i) => {
                proof {
                    lemma_find_kind(self.components@, kind);
                }
                self.components.set(i, ComponentState::packed(kind, file_count));
            },
            None => {},
        }
    }

    /// Check if a component is packed.
    pub fn has_component(&self, kind: ComponentKind) -> (r: bool)
        ensures
            r == any_packed(self.components@, kind),
    {
        let mut i: usize = 0;
        while i < self.components.len()
            invariant
                i <= self.components@.len(),
                forall|j: int|
                    0 <= j < i ==> !(#[trigger] self.components@[j].kind == kind
                        && self.components@[j].packed),
            decreases self.components@.len() - i,
        {
            if self.components[i].kind == kind && self.components[i].packed {
                return true;
            }
            i = i + 1;
        }
        false
    }

    /// Count of packed components.
    pub fn packed_count(&self) -> (r: usize)
        ensures
            r == count_packed(self.components@),
    {
        count_packed_exec(&self.components)
    }

    /// Total number of files across all components.
    pub fn total_files(&self) -> (r: u64)
        requires
            sum_files(self.components@) <= u64::MAX,
        ensures
            r == sum_files(self.components@),
    {
        let mut total: u64 = 0;
        let mut i: usize = 0;
        while i < self.components.len()
            invariant
                i <= self.components@.len(),
                total == sum_files(self.components@.take(i as int)),
                sum_files(self.components@) <= u64::MAX,
            decreases self.components@.len() - i,
        {
            assert(self.components@.take(i + 1).drop_last() =~= self.components@.take(i as int));
            proof {
                lemma_sum_files_prefix(self.components@, i + 1);
            }
            total = total + self.components[i].file_count;
            i = i + 1;
        }
        assert(self.components@.take(self.components@.len() as int) =~= self.components@);
        total
    }
}

/// Sums over prefixes never exceed the sum over the whole list.
pub proof fn lemma_sum_files_prefix(s: Seq<ComponentState>, k: int)
    requires
        0 <= k <= s.len(),
    ensures
        sum_files(s.take(k)) <= sum_files(s),
    decreases s.len() - k,
{
    if k < s.len() {
        lemma_sum_files_prefix(s, k + 1);
        assert(s.take(k + 1).drop_last() =~= s.take(k));
    } else {
        assert(s.take(k) =~= s);
    }
}

/// A new environment holds one component of every kind, none of them
/// packed; marking a kind that it holds as packed makes `has_component`
/// report it and leaves whether every other kind is packed as it was.
pub proof fn lemma_mark_packed_law(s: Seq<ComponentState>, kind: ComponentKind, other: ComponentKind, n: u64)
    ensures
        find_kind(unpacked_components(), kind) >= 0,
        !any_packed(unpacked_components(), kind),
        count_packed(unpacked_components()) == 0,
        find_kind(s, kind) >= 0 ==> any_packed(
            s.update(find_kind(s, kind), ComponentState { kind, packed: true, file_count: n }),
            kind,
        ),
        find_kind(s, kind) >= 0 && other != kind ==> any_packed(
            s.update(find_kind(s, kind), ComponentState { kind, packed: true, file_count: n }),
            other,
        ) == any_packed(s, other),
{
    let u = unpacked_components();
    assert(u.len() == 6);
    assert(u[0].kind == ComponentKind::Config);
    assert(u[1].kind == ComponentKind::Memory);
    assert(u[2].kind == ComponentKind::Skills);
    assert(u[3].kind == ComponentKind::Extensions);
    assert(u[4].kind == ComponentKind::Themes);
    assert(u[5].kind == ComponentKind::Secrets);
    lemma_find_kind(u, kind);
    if find_kind(u, kind) < 0 {
        match kind {
            ComponentKind::Config => assert(u[0].kind == kind),
            ComponentKind::Memory => assert(u[1].kind == kind),
            ComponentKind::Skills => assert(u[2].kind == kind),
            ComponentKind::Extensions => assert(u[3].kind == kind),
            ComponentKind::Themes => assert(u[4].kind == kind),
            ComponentKind::Secrets => assert(u[5].kind == kind),
        }
    }
    assert(!any_packed(u, kind)) by {
        assert(forall|i: int| 0 <= i < u.len() ==> !(#[trigger] u[i]).packed);
    }
    assert(count_packed(u) == 0) by {
        assert(u.drop_last().drop_last().drop_last().drop_last().drop_last().drop_last() =~= Seq::<
            ComponentState,
        >::empty());
        reveal_with_fuel(count_packed, 7);
    }
    lemma_find_kind(s, kind);
    if find_kind(s, kind) >= 0 {
        let k = find_kind(s, kind);
        let t = s.update(k, ComponentState { kind, packed: true, file_count: n });
        assert(t[k].kind == kind && t[k].packed);
        if other != kind {
            if any_packed(t, other) {
                let j = choose|j: int| 0 <= j < t.len() && t[j].kind == other && t[j].packed;
                assert(j != k);
                assert(s[j] == t[j]);
            }
            if any_packed(s, other) {
                let j = choose|j: int| 0 <= j < s.len() && s[j].kind == other && s[j].packed;
                assert(j != k);
                assert(s[j] == t[j]);
            }
        }
    }
}

} // verus!
