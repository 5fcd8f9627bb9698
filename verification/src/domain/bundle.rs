//! Bundle — a portable, reproducible agent environment.

use vstd::prelude::*;
use super::component::{ComponentKind, ComponentState};
use super::environment::{count_packed, count_packed_exec, find_kind, find_kind_exec, lemma_find_kind};
use super::harness::HarnessId;
use crate::paths::{join, join_spec};

verus! {

/// A portable agent environment bundle.
#[derive(Debug, Clone)]
pub struct Bundle {
    /// Path to the bundle root directory.
    pub root: String,
    /// Harness this bundle targets.
    pub harness: HarnessId,
    /// Bundle name (human-readable).
    pub name: String,
    /// Components packed into this bundle.
    pub components: Vec<ComponentState>,
}

/// The first component of kind `kind` in `s`, if any.
pub open spec fn component_of(s: Seq<ComponentState>, kind: ComponentKind) -> Option<ComponentState> {
    let i = find_kind(s, kind);
    if i < 0 {
        None
    } else {
        Some(s[i])
    }
}

impl Bundle {
    /// Create a new Bundle reference from a directory path (nothing is loaded).
    pub fn new(root: String, name: String, harness: HarnessId) -> (r: Self)
        ensures
            r.root@ == root@,
            r.name@ == name@,
            r.harness == harness,
            r.components@.len() == 0,
    {
        Bundle { root, harness, name, components: Vec::new() }
    }

    /// Path to the manifest file.
    pub fn manifest_path(&self) -> (r: String)
        ensures
            r@ == join_spec(self.root@, "manifest.yaml"@),
    {
        join(self.root.as_str(), "manifest.yaml")
    }

    /// Path to the signature file.
    pub fn signature_path(&self) -> (r: String)
        ensures
            r@ == join_spec(self.root@, "manifest.sig"@),
    {
        join(self.root.as_str(), "manifest.sig")
    }

    /// Path to the encrypted secrets file.
    pub fn secrets_path(&self) -> (r: String)
        ensures
            r@ == join_spec(self.root@, "secrets/keys.enc"@),
    {
        join(self.root.as_str(), "secrets/keys.enc")
    }

    /// The state of the first component of kind `kind`.
    pub fn component(&self, kind: ComponentKind) -> (r: Option<&ComponentState>)
        ensures
            match r {
                Some(c) => component_of(self.components@, kind) == Some(*c),
                None => component_of(self.components@, kind) is None,
            },
    {
        match find_kind_exec(&self.components, kind) {
            Some(i) => {
                proof {
                    lemma_find_kind(self.components@, kind);
                }
                Some(&self.components[i])
            },
            None => None,
        }
    }

    /// Whether the component of kind `kind` is present and packed.
    pub fn has_component(&self, kind: ComponentKind) -> (r: bool)
        ensures
            r == (component_of(self.components@, kind) matches Some(c) && c.packed),
    {
        match self.component(kind) {
            Some(c) => c.packed,
            None => false,
        }
    }

    /// Count of packed components.
    pub fn packed_count(&self) -> (r: usize)
        ensures
            r == count_packed(self.components@),
    {
        count_packed_exec(&self.components)
    }

    /// Total component count.
    pub fn component_count(&self) -> (r: usize)
        ensures
            r == self.components@.len(),
    {
        self.components.len()
    }
}

} // verus!
