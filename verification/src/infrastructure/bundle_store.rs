//! Bundle storage: where a bundle lives and how its manifest is read and
//! written. The program around the library provides the filesystem
//! storage; other kinds (archives, remote registries) can implement the same
//! trait.

use vstd::prelude::*;
use crate::domain::manifest::Manifest;
use crate::paths::{join, join_spec};

verus! {

/// Storage operations on bundles, addressed by path. Inside a bundle the
/// signature and the encrypted secrets have fixed places.
pub trait BundleRepository: Send + Sync {
    /// Whether a bundle exists at `path`.
    fn has_bundle(&self, path: &str) -> bool;

    /// Read the manifest of the bundle at `bundle_path`.
    fn load_manifest(&self, bundle_path: &str) -> Result<Manifest, String>;

    /// Write the manifest of the bundle at `bundle_path`.
    fn save_manifest(&self, bundle_path: &str, manifest: &Manifest) -> Result<(), String>;

    /// The signature file of a bundle: `manifest.sig`.
    fn signature_path(&self, bundle_path: &str) -> (r: String)
        ensures
            r@ == join_spec(bundle_path@, "manifest.sig"@),
    {
        join(bundle_path, "manifest.sig")
    }

    /// The encrypted secrets of a bundle: `secrets/keys.enc`.
    fn secrets_path(&self, bundle_path: &str) -> (r: String)
        ensures
            r@ == join_spec(bundle_path@, "secrets/keys.enc"@),
    {
        join(bundle_path, "secrets/keys.enc")
    }
}

} // verus!
