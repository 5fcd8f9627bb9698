//! Domain types: components, harness identities, environments, bundles and
//! the manifest.

pub mod component;
pub mod harness;
pub mod environment;
pub mod bundle;
pub mod manifest;
pub mod error;
