//! The harness contract: what a harness describes about its environment.
//!
//! The core owns bundle construction, manifests, secret encryption,
//! integrity, signatures and process spawning. A harness identifies itself,
//! recognises its installation, says which resources make up its portable
//! environment, and says how its runtime is launched. Nothing here carries
//! decrypted secrets.

use vstd::prelude::*;
use crate::domain::harness::HarnessId;
use crate::domain::manifest::{Launch, RuntimeRequirement};
use crate::text::views;

verus! {

/// Read-only inputs for a harness operation: the optional `--path`
/// override.
#[derive(Debug, Clone)]
pub struct HarnessContext {
    pub explicit_path: Option<String>,
}

impl HarnessContext {
    pub fn new(explicit_path: Option<String>) -> (r: Self)
        ensures
            r.explicit_path == explicit_path,
    {
        HarnessContext { explicit_path }
    }
}

/// A detected installation of a harness.
#[derive(Debug)]
pub struct DetectionResult {
    pub harness_id: HarnessId,
    /// Root of the portable environment.
    pub root: String,
    /// The version the installation reports.
    pub version: String,
}

/// The kinds of portable resources.
#[derive(Debug, Clone, Copy, PartialEq, Eq, Structural)]
pub enum PortableKind {
    Config,
    Memory,
    Extensions,
    Skills,
    Themes,
    /// Credential sources: encrypted by the core, never copied as
    /// plaintext.
    SecretSource,
}

/// How the content of a secret source is read.
#[derive(Debug, Clone, Copy, PartialEq, Eq, Structural)]
pub enum SecretFormat {
    /// One JSON file whose top-level string fields are secrets.
    AuthJsonFile,
    /// A directory of `.env`-style files.
    DotEnvDir,
    /// A directory where each file is a secret named by its file name.
    KeyFileDir,
}

/// `secrets/keys.enc`, where every secret source lands (encrypted).
pub open spec fn keys_enc_path() -> Seq<char> {
    "secrets/keys.enc"@
}

/// One portable resource: what it is, where it comes from and where it
/// lands in the bundle.
#[derive(Debug)]
pub struct PortableComponent {
    pub kind: PortableKind,
    /// Source path in the installation (file or directory).
    pub source: String,
    /// Bundle-relative destination.
    pub destination: String,
    /// Whether a missing source is an error (else it is skipped).
    pub required: bool,
    /// Relative names left out when copying the source tree.
    pub excludes: Vec<String>,
    /// Present exactly for secret sources.
    pub secret_format: Option<SecretFormat>,
}

/// A component as values: kind, source, destination, required, excludes
/// and secret format.
pub open spec fn component_view(c: PortableComponent) -> (
    PortableKind,
    Seq<char>,
    Seq<char>,
    bool,
    Seq<Seq<char>>,
    Option<SecretFormat>,
) {
    (
        c.kind,
        c.source@,
        c.destination@,
        c.required,
        c.excludes@.map_values(|e: String| e@),
        c.secret_format,
    )
}

impl PortableComponent {
    /// A directory (or file) component copied as-is.
    pub fn dir(
        kind: PortableKind,
        source: String,
        destination: &str,
        required: bool,
        excludes: &[&str],
    ) -> (r: Self)
        ensures
            r.kind == kind,
            r.source@ == source@,
            r.destination@ == destination@,
            r.required == required,
            r.excludes@.map_values(|e: String| e@) == views(excludes@),
            r.secret_format is None,
    {
        let mut ex: Vec<String> = Vec::new();
        let mut i: usize = 0;
        while i < excludes.len()
            invariant
                i <= excludes@.len(),
                ex@.map_values(|e: String| e@) == views(excludes@).take(i as int),
            decreases excludes@.len() - i,
        {
            let ghost before = ex@;
            ex.push(String::from_str(excludes[i]));
            assert(ex@.map_values(|e: String| e@) =~= before.map_values(|e: String| e@).push(
                excludes@[i as int]@,
            ));
            assert(views(excludes@).take(i + 1) =~= views(excludes@).take(i as int).push(
                excludes@[i as int]@,
            ));
            i = i + 1;
        }
        assert(views(excludes@).take(excludes@.len() as int) =~= views(excludes@));
        PortableComponent {
            kind,
            source,
            destination: String::from_str(destination),
            required,
            excludes: ex,
            secret_format: None,
        }
    }

    /// A secret source, encrypted into `secrets/keys.enc`; optional.
    pub fn secret_source(source: String, format: SecretFormat) -> (r: Self)
        ensures
            r.kind == PortableKind::SecretSource,
            r.source@ == source@,
            r.destination@ == keys_enc_path(),
            !r.required,
            r.excludes@.len() == 0,
            r.secret_format == Some(format),
    {
        PortableComponent {
            kind: PortableKind::SecretSource,
            source,
            destination: String::from_str("secrets/keys.enc"),
            required: false,
            excludes: Vec::new(),
            secret_format: Some(format),
        }
    }
}

/// The portable environment a harness describes.
#[derive(Debug)]
pub struct PortableEnvironment {
    pub version: String,
    /// Root of the source installation.
    pub source_root: String,
    pub components: Vec<PortableComponent>,
    /// How the environment is launched.
    pub launch: Launch,
    /// What the environment needs installed to run.
    pub runtime_requirements: Vec<RuntimeRequirement>,
}

/// Input for preparing a runtime. Never carries secrets.
#[derive(Debug)]
pub struct PrepareRuntimeRequest {
    pub bundle_root: String,
    /// The manifest's launch specification.
    pub launch: Launch,
}

/// The prepared launch.
#[derive(Debug)]
pub struct PreparedRuntime {
    pub command: String,
    pub args: Vec<String>,
    /// Bundle-relative working directory; `None` is the bundle root.
    pub working_directory: Option<String>,
}

/// Why a harness operation failed.
#[derive(Debug, Clone, PartialEq, Eq)]
pub enum HarnessError {
    /// No harness with this id is registered.
    NotRegistered { id: HarnessId },
    /// The name names no harness.
    Unsupported { name: String },
    /// The harness does not offer this operation yet.
    NotImplemented { id: HarnessId },
    /// The runtime the harness needs is not installed.
    RuntimeMissing,
    /// The installed runtime is older than required.
    RuntimeTooOld { found: String, required_major: u32 },
    /// The launch command embeds its arguments (the bundle must be packed
    /// again with structured arguments).
    EmbeddedArguments { command: String },
    /// The harness executable was not found.
    BinaryNotFound,
    /// The given project path is not a directory.
    NotADirectory { path: String },
}

/// A harness: it knows its identity.
pub trait Harness {
    spec fn harness_id(&self) -> HarnessId;

    /// The identity of this harness.
    fn identity(&self) -> (r: HarnessId)
        ensures
            r == self.harness_id(),
    ;
}

/// Copy a list of strings.
pub fn clone_strings(v: &Vec<String>) -> (r: Vec<String>)
    ensures
        r@.map_values(|s: String| s@) == v@.map_values(|s: String| s@),
{
    let mut out: Vec<String> = Vec::new();
    let mut i: usize = 0;
    while i < v.len()
        invariant
            i <= v@.len(),
            out@.map_values(|s: String| s@) == v@.map_values(|s: String| s@).take(i as int),
        decreases v@.len() - i,
    {
        let ghost before = out@;
        out.push(v[i].clone());
        assert(out@.map_values(|s: String| s@) =~= before.map_values(|s: String| s@).push(
            v@[i as int]@,
        ));
        assert(v@.map_values(|s: String| s@).take(i + 1) =~= v@.map_values(|s: String| s@).take(
            i as int,
        ).push(v@[i as int]@));
        i = i + 1;
    }
    assert(v@.map_values(|s: String| s@).take(v@.len() as int) =~= v@.map_values(
        |s: String| s@,
    ));
    out
}

} // verus!
