//! Structured domain errors.

use vstd::prelude::*;

verus! {

/// Business-logic failures of the domain layer.
#[derive(Debug, Clone, PartialEq, Eq)]
pub enum DomainError {
    ManifestNotFound { path: String },
    UnsupportedSchemaVersion { expected: String, got: String },
    MissingField { field: &'static str },
    InvalidBundle { path: String },
    BundleAlreadyExists { path: String },
    ComponentNotPacked { component: String },
    UnsupportedHarness { name: String, supported: String },
    HarnessNotFound { name: String },
    ChecksumMismatch { expected: String, got: String },
    InvalidSignature,
    SignatureVerificationFailed { reason: String },
    DecryptionFailed,
    EmptyPassphrase,
    PassphraseMismatch,
    RuntimeMissing { name: String, install_hint: String },
    RuntimeVersionTooOld { name: String, got: String, min: String },
}

} // verus!
