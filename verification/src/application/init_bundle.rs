//! Initialising a bundle from a harness installation.

use vstd::prelude::*;
use crate::domain::harness::{HarnessId, harness_from_name};
use crate::domain::manifest::{Manifest, PlatformMeta, RuntimeRequirement, default_pi, is_default_pi};
use crate::text::views;
use crate::application::Application;

verus! {

/// Request to initialise a new bundle.
#[derive(Debug)]
pub struct InitBundleRequest {
    pub harness: HarnessId,
    pub name: String,
    pub output_dir: String,
    pub source_path: Option<String>,
}

/// Result of initialising a bundle.
#[derive(Debug)]
pub struct InitBundleResult {
    pub bundle_path: String,
    pub harness_version: String,
}

/// Why a bundle could not be initialised.
#[derive(Debug, Clone, PartialEq, Eq)]
pub enum InitError {
    /// The name names no harness.
    UnsupportedHarness { name: String },
    /// The harness is known but not fully supported.
    NotFullySupported { name: String },
    /// The harness is not registered.
    NotRegistered { id: HarnessId },
}

/// What `pn init` will create: the harness, the bundle name and the output
/// directory.
#[derive(Debug)]
pub struct InitPlan {
    pub harness: HarnessId,
    pub name: String,
    pub output_dir: String,
}

/// Resolve the harness and names of `pn init`: the harness must be fully
/// supported; the name defaults to `my-agent` and the output directory to
/// the name.
pub fn resolve_init(harness: &str, name: Option<&str>, output: Option<&str>) -> (r: Result<
    InitPlan,
    InitError,
>)
    ensures
        match harness_from_name(harness@) {
            None => r matches Err(InitError::UnsupportedHarness { name: n }) && n@ == harness@,
            Some(id) => if id != HarnessId::Pi {
                r matches Err(InitError::NotFullySupported { name: n }) && n@ == harness@
            } else {
                r matches Ok(p) && p.harness == id && p.name@ == match name {
                    Some(n) => n@,
                    None => "my-agent"@,
                } && p.output_dir@ == match output {
                    Some(o) => o@,
                    None => p.name@,
                }
            },
        },
{
    let id = match HarnessId::from_name(harness) {
        None => {
            return Err(InitError::UnsupportedHarness { name: String::from_str(harness) });
        },
        Some(id) => id,
    };
    if !id.is_fully_supported() {
        return Err(InitError::NotFullySupported { name: String::from_str(harness) });
    }
    let agent_name = match name {
        Some(n) => String::from_str(n),
        None => String::from_str("my-agent"),
    };
    let out_dir = match output {
        Some(o) => String::from_str(o),
        None => agent_name.clone(),
    };
    Ok(InitPlan { harness: id, name: agent_name, output_dir: out_dir })
}

/// The directories of a fresh bundle.
pub open spec fn bundle_dirs_spec() -> Seq<Seq<char>> {
    seq![
        "agent/config"@,
        "agent/memory"@,
        "agent/packages/extensions"@,
        "agent/packages/skills"@,
        "agent/packages/themes"@,
        "agent/workspace"@,
        "secrets"@,
    ]
}

/// The directories created in a fresh bundle, relative to its root.
pub fn bundle_dirs() -> (r: Vec<&'static str>)
    ensures
        views(r@) == bundle_dirs_spec(),
{
    let mut v: Vec<&'static str> = Vec::new();
    v.push("agent/config");
    v.push("agent/memory");
    v.push("agent/packages/extensions");
    v.push("agent/packages/skills");
    v.push("agent/packages/themes");
    v.push("agent/workspace");
    v.push("secrets");
    assert(views(v@) =~= bundle_dirs_spec());
    v
}

/// The manifest of a fresh bundle: the default Pi manifest, with the
/// detected harness version as the runtime's minimum version.
pub fn init_manifest(name: &str, detected_version: &str, created_by: &str, platform: PlatformMeta) -> (r:
    Manifest)
    ensures
        r.runtime.required@.len() == 1,
        r.runtime.required@[0].name@ == "pi-runtime"@,
        r.runtime.required@[0].min_version@ == detected_version@,
        exists|d: Manifest|
            is_default_pi(d, name@, detected_version@, created_by@) && r.bundle == d.bundle
                && r.harness == d.harness && r.contents == d.contents && r.launch == d.launch
                && r.security == d.security && r.integrity == d.integrity && r.schema_version
                == d.schema_version && r.bundle_version == d.bundle_version && r.crypto == d.crypto
                && r.origin == d.origin && r.compatibility == d.compatibility,
        r.platform matches Some(p) && p.os@ == platform.os@ && p.arch@ == platform.arch@,
{
    let m0 = default_pi(name, detected_version, created_by, platform);
    let ghost d = m0;
    let mut m = m0;
    let mut reqs: Vec<RuntimeRequirement> = Vec::new();
    reqs.push(
        RuntimeRequirement {
            name: String::from_str("pi-runtime"),
            min_version: String::from_str(detected_version),
        },
    );
    m.runtime.required = reqs;
    assert(is_default_pi(d, name@, detected_version@, created_by@));
    m
}

/// Initialise a bundle: the requested harness must be registered and fully
/// supported.
pub fn execute(app: &Application, request: InitBundleRequest) -> (r: Result<
    InitBundleResult,
    InitError,
>)
    ensures
        !app.harnesses@.contains(request.harness) ==> r == Err::<InitBundleResult, InitError>(
            InitError::NotRegistered { id: request.harness },
        ),
        app.harnesses@.contains(request.harness) && request.harness != HarnessId::Pi ==> (
        r matches Err(InitError::NotFullySupported { .. })),
        app.harnesses@.contains(request.harness) && request.harness == HarnessId::Pi ==> (
        r matches Ok(res) && res.bundle_path@ == request.output_dir@ && res.harness_version@
            == "detected"@),
{
    match app.harnesses.get(request.harness) {
        Err(_) => {
            return Err(InitError::NotRegistered { id: request.harness });
        },
        Ok(_) => {},
    }
    if !request.harness.is_fully_supported() {
        return Err(InitError::NotFullySupported { name: String::from_str(request.harness.name()) });
    }
    Ok(
        InitBundleResult {
            bundle_path: request.output_dir,
            harness_version: String::from_str("detected"),
        },
    )
}

} // verus!
