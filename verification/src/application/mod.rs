//! Application layer: the use cases and the decisions they take.

pub mod run_bundle;
pub mod trust;
pub mod pack_bundle;
pub mod components;
pub mod init_bundle;
pub mod info;
pub mod diff;

use vstd::prelude::*;
use crate::harness::registry::HarnessRegistry;
use crate::domain::harness::HarnessId;

verus! {

/// Shared application context: the registered harnesses.
pub struct Application {
    pub harnesses: HarnessRegistry,
}

impl Application {
    /// The application with the built-in harnesses registered.
    pub fn build() -> (r: Self)
        ensures
            r.harnesses@ == seq![HarnessId::Pi, HarnessId::Aider],
    {
        Application { harnesses: HarnessRegistry::with_defaults() }
    }
}

} // verus!
