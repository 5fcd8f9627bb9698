use agentpacknest::domain::component::{ComponentKind, ComponentState};
use agentpacknest::domain::environment::AgentEnvironment;
use agentpacknest::domain::harness::HarnessId;
use agentpacknest::domain::manifest::{
    default_pi, BundleMeta, Compatibility, Contents, CryptoMeta, HarnessMeta, Integrity, Launch,
    Manifest, PackageEntry, Packages, PlatformMeta, Runtime, RuntimeRequirement, Security,
    SCHEMA_VERSION,
};

fn platform() -> PlatformMeta {
    PlatformMeta { os: "linux".to_string(), arch: "x86_64".to_string() }
}

fn pi(name: &str, version: &str) -> Manifest {
    default_pi(name, version, "tester", platform())
}

fn sample_manifest() -> Manifest {
    Manifest {
        schema_version: SCHEMA_VERSION.to_string(),
        agentpacknest_version: Some("0.1.0".to_string()),
        bundle_version: 1,
        bundle: BundleMeta {
            name: "test-agent".to_string(),
            id: "f47ac10b-58cc-4372-a567-0e02b2c3d479".to_string(),
            created_at: "2025-01-15T12:00:00Z".to_string(),
            created_by: "tester".to_string(),
            description: Some("A test agent".to_string()),
        },
        harness: HarnessMeta {
            name: "pi".to_string(),
            version: "0.1.0".to_string(),
            source: Some("https://example.com".to_string()),
        },
        platform: Some(PlatformMeta { os: "linux".to_string(), arch: "x86_64".to_string() }),
        contents: Contents { config: true, memory: true, skills: true, secrets: false },
        packages: Packages {
            extensions: vec![PackageEntry {
                name: "ext-a".to_string(),
                version: "1.0.0".to_string(),
                source: None,
                path: None,
            }],
            skills: vec![],
            themes: vec![],
        },
        runtime: Runtime {
            required: vec![RuntimeRequirement {
                name: "pi-runtime".to_string(),
                min_version: "0.1.0".to_string(),
            }],
        },
        launch: Launch {
            command: "pn run .".to_string(),
            args: vec![],
            working_directory: Some(".".to_string()),
        },
        security: Security { secrets_encrypted: false, encryption: None },
        integrity: Integrity { algorithm: "sha256".to_string(), checksum: None, format_version: 1 },
        crypto: None,
        origin: None,
        compatibility: None,
    }
}

fn validation_message(m: &Manifest) -> String {
    m.validate().unwrap_err().message()
}

// ── components ──────────────────────────────────────────────────────────

#[test]
fn component_kind_all_has_six() {
    assert_eq!(ComponentKind::all().len(), 6);
}

#[test]
fn component_kind_dir_names() {
    assert_eq!(ComponentKind::Config.dir_name(), "config");
    assert_eq!(ComponentKind::Secrets.dir_name(), "secrets");
}

#[test]
fn component_state_defaults_unpacked() {
    let c = ComponentState::new(ComponentKind::Config);
    assert!(!c.packed);
    assert_eq!(c.file_count, 0);
}

#[test]
fn component_state_packed() {
    let c = ComponentState::packed(ComponentKind::Skills, 42);
    assert!(c.packed);
    assert_eq!(c.file_count, 42);
}

// ── environment ─────────────────────────────────────────────────────────

#[test]
fn new_environment_has_all_components_unpacked() {
    let env = AgentEnvironment::new(HarnessId::Pi, "/tmp/test".to_string(), "0.84.4".to_string());
    assert_eq!(env.components.len(), 6);
    assert_eq!(env.packed_count(), 0);
}

#[test]
fn mark_packed_tracks_files() {
    let mut env = AgentEnvironment::new(HarnessId::Pi, "/tmp".to_string(), "1.0".to_string());
    env.mark_packed(ComponentKind::Config, 5);
    env.mark_packed(ComponentKind::Skills, 3);
    assert!(env.has_component(ComponentKind::Config));
    assert!(env.has_component(ComponentKind::Skills));
    assert!(!env.has_component(ComponentKind::Memory));
    assert_eq!(env.packed_count(), 2);
    assert_eq!(env.total_files(), 8);
}

// ── harness ids ─────────────────────────────────────────────────────────

#[test]
fn parse_pi() {
    assert_eq!("pi".parse::<HarnessId>().unwrap(), HarnessId::Pi);
}

#[test]
fn parse_aider() {
    assert_eq!("aider".parse::<HarnessId>().unwrap(), HarnessId::Aider);
}

#[test]
fn parse_unknown_fails() {
    assert!("docker".parse::<HarnessId>().is_err());
}

#[test]
fn case_insensitive() {
    assert_eq!("PI".parse::<HarnessId>().unwrap(), HarnessId::Pi);
    assert_eq!("Aider".parse::<HarnessId>().unwrap(), HarnessId::Aider);
}

#[test]
fn pi_is_fully_supported() {
    assert!(HarnessId::Pi.is_fully_supported());
}

#[test]
fn aider_is_not_fully_supported() {
    assert!(!HarnessId::Aider.is_fully_supported());
}

#[test]
fn unknown_harness_message_lists_supported() {
    let err = HarnessId::parse("docker").unwrap_err();
    assert_eq!(err, "unknown harness 'docker'\n  supported: pi, aider");
}

// ── manifest validation ─────────────────────────────────────────────────

#[test]
fn sample_manifest_is_valid() {
    assert!(sample_manifest().validate().is_ok());
}

#[test]
fn test_validation_bad_version() {
    let mut manifest = sample_manifest();
    manifest.schema_version = "9.9".to_string();
    let result = manifest.validate();
    assert!(result.is_err());
    let err = result.unwrap_err().message();
    assert!(err.contains("unsupported schema_version"));
}

#[test]
fn test_validation_missing_name() {
    let mut manifest = sample_manifest();
    manifest.bundle.name = String::new();
    let result = manifest.validate();
    assert!(result.is_err());
    let err = result.unwrap_err().message();
    assert!(err.contains("bundle.name is empty"));
}

#[test]
fn test_validation_missing_launch_command() {
    let mut manifest = sample_manifest();
    manifest.launch.command = String::new();
    let result = manifest.validate();
    assert!(result.is_err());
    let err = result.unwrap_err().message();
    assert!(err.contains("launch.command is empty"));
}

#[test]
fn test_validation_unknown_harness() {
    let mut manifest = sample_manifest();
    manifest.harness.name = "docker".to_string();
    let result = manifest.validate();
    assert!(result.is_err());
    let err = result.unwrap_err().message();
    assert!(err.contains("unknown harness 'docker'"));
}

#[test]
fn test_validation_bad_uuid() {
    let mut manifest = sample_manifest();
    manifest.bundle.id = "not-a-uuid".to_string();
    let result = manifest.validate();
    assert!(result.is_err());
    let err = result.unwrap_err().message();
    assert!(err.contains("does not look like a valid UUID"));
}

#[test]
fn test_validation_bad_created_at() {
    let mut manifest = sample_manifest();
    manifest.bundle.created_at = "yesterday".to_string();
    let result = manifest.validate();
    assert!(result.is_err());
    let err = result.unwrap_err().message();
    assert!(err.contains("not valid ISO 8601"));
}

#[test]
fn test_validation_bad_algorithm() {
    let mut manifest = sample_manifest();
    manifest.integrity.algorithm = "md5".to_string();
    let result = manifest.validate();
    assert!(result.is_err());
    let err = result.unwrap_err().message();
    assert!(err.contains("unknown integrity algorithm 'md5'"));
}

#[test]
fn test_validation_empty_harness_version() {
    let mut manifest = sample_manifest();
    manifest.harness.version = String::new();
    let result = manifest.validate();
    assert!(result.is_err());
    let err = result.unwrap_err().message();
    assert!(err.contains("harness.version is empty"));
}

#[test]
fn test_default_pi() {
    let manifest = pi("my-pi-agent", "0.3.1");
    assert_eq!(manifest.schema_version, SCHEMA_VERSION);
    assert_eq!(manifest.bundle.name, "my-pi-agent");
    assert_eq!(manifest.harness.name, "pi");
    assert_eq!(manifest.harness.version, "0.3.1");
    assert!(!manifest.bundle.id.is_empty());
    assert!(!manifest.bundle.created_at.is_empty());
    assert!(manifest.validate().is_ok());
}

#[test]
fn default_pi_has_fresh_ids() {
    let a = pi("a", "1.0");
    let b = pi("a", "1.0");
    assert_eq!(a.bundle.id.len(), 36);
    assert_eq!(a.bundle.id.as_bytes()[14], b'4');
    assert_ne!(a.bundle.id, b.bundle.id);
    assert!(a.bundle.created_at.ends_with('Z'));
    assert_eq!(a.bundle.created_by, "tester");
    assert_eq!(a.platform.as_ref().unwrap().os, "linux");
}

// ── validation matrix ───────────────────────────────────────────────────

#[test]
fn unsupported_future_schema_fails() {
    let mut m = pi("matrix-agent", "0.1.0");
    m.schema_version = "9.9".to_string();
    assert!(validation_message(&m).contains("unsupported schema_version"));
}

#[test]
fn unsupported_old_schema_fails() {
    let mut m = pi("matrix-agent", "0.1.0");
    m.schema_version = "0.0".to_string();
    assert!(validation_message(&m).contains("unsupported schema_version"));
}

#[test]
fn legacy_schema_01_is_accepted() {
    let mut m = pi("matrix-agent", "0.1.0");
    m.schema_version = "0.1".to_string();
    assert!(m.validate().is_ok());
}

#[test]
fn unsupported_bundle_format_fails() {
    let mut m = pi("matrix-agent", "0.1.0");
    m.bundle_version = 2;
    assert!(validation_message(&m).contains("unsupported bundle format version: 2"));
}

#[test]
fn unsupported_integrity_format_fails() {
    let mut m = pi("matrix-agent", "0.1.0");
    m.integrity.format_version = 2;
    assert!(validation_message(&m).contains("unsupported integrity format version: 2"));
}

#[test]
fn unsupported_crypto_format_fails() {
    let mut m = pi("matrix-agent", "0.1.0");
    m.crypto = Some(CryptoMeta { format_version: 2 });
    assert!(validation_message(&m).contains("unsupported crypto format version: 2"));
}

#[test]
fn unsupported_integrity_algorithm_fails() {
    let mut m = pi("matrix-agent", "0.1.0");
    m.integrity.algorithm = "md5".to_string();
    assert!(validation_message(&m).contains("unknown integrity algorithm"));
}

#[test]
fn empty_harness_name_fails() {
    let mut m = pi("matrix-agent", "0.1.0");
    m.harness.name = String::new();
    assert!(validation_message(&m).contains("harness.name is empty"));
}

#[test]
fn unknown_harness_fails() {
    let mut m = pi("matrix-agent", "0.1.0");
    m.harness.name = "docker".to_string();
    assert!(validation_message(&m).contains("unknown harness"));
}

#[test]
fn invalid_uuid_fails() {
    let mut m = pi("matrix-agent", "0.1.0");
    m.bundle.id = "not-a-uuid".to_string();
    assert!(validation_message(&m).contains("does not look like a valid UUID"));
}

#[test]
fn invalid_timestamp_fails() {
    let mut m = pi("matrix-agent", "0.1.0");
    m.bundle.created_at = "yesterday".to_string();
    assert!(validation_message(&m).contains("not valid ISO 8601"));
}

#[test]
fn empty_created_by_fails() {
    let mut m = pi("matrix-agent", "0.1.0");
    m.bundle.created_by = String::new();
    assert!(validation_message(&m).contains("bundle.created_by is empty"));
}

#[test]
fn invalid_integrity_digest_fails() {
    let mut m = pi("matrix-agent", "0.1.0");
    m.integrity.checksum = Some("zz-not-a-digest".to_string());
    assert!(validation_message(&m).contains("invalid integrity digest"));
}

#[test]
fn empty_runtime_command_fails() {
    let mut m = pi("matrix-agent", "0.1.0");
    m.launch.command = String::new();
    assert!(validation_message(&m).contains("launch.command is empty"));
}

#[test]
fn empty_launch_arg_fails() {
    let mut m = pi("matrix-agent", "0.1.0");
    m.launch.args.push(String::new());
    assert!(validation_message(&m).contains("launch.args contains an empty argument"));
}

#[test]
fn absolute_working_directory_fails() {
    let mut m = pi("matrix-agent", "0.1.0");
    m.launch.working_directory = Some("/tmp/outside".to_string());
    assert!(validation_message(&m).contains("must be relative"));
}

#[test]
fn escaping_working_directory_fails() {
    let mut m = pi("matrix-agent", "0.1.0");
    m.launch.working_directory = Some("../..".to_string());
    assert!(validation_message(&m).contains("must stay inside the bundle"));
}

#[test]
fn invalid_compatibility_version_fails() {
    let mut m = pi("matrix-agent", "0.1.0");
    m.compatibility = Some(Compatibility { min_agentpacknest_version: "banana".to_string() });
    assert!(validation_message(&m).contains("invalid compatibility"));
}

#[test]
fn valid_manifest_passes() {
    let m = pi("matrix-agent", "0.1.0");
    assert!(m.validate().is_ok());
}

#[test]
fn valid_digest_and_nested_workdir_pass() {
    let mut m = pi("matrix-agent", "0.1.0");
    m.integrity.checksum = Some("a".repeat(64));
    m.launch.working_directory = Some("agent/./workspace/../config".to_string());
    m.compatibility = Some(Compatibility { min_agentpacknest_version: "0.1.0".to_string() });
    assert!(m.validate().is_ok());
}

#[test]
fn default_pi_manifest_is_valid() {
    let m = pi("my-agent", "0.84.4");
    assert!(m.validate().is_ok());
    assert_eq!(m.schema_version, "0.2");
    assert!(!m.bundle.id.is_empty());
    assert!(m.platform.is_some());
    assert!(!m.contents.config);
    assert!(!m.contents.secrets);
}

#[test]
fn schema_v01_is_accepted() {
    let mut m = pi("test", "0.1.0");
    m.schema_version = "0.1".to_string();
    assert!(m.validate().is_ok(), "schema 0.1 should be accepted");
}

#[test]
fn schema_v99_is_rejected() {
    let mut m = pi("test", "0.1.0");
    m.schema_version = "9.9".to_string();
    assert!(m.validate().is_err(), "schema 9.9 should be rejected");
}

// The structural checks take no trust override: whatever `--allow-unverified`
// says, a manifest that fails them is refused.

#[test]
fn allow_unverified_does_not_bypass_unsupported_schema() {
    let mut m = pi("future-schema", "0.1.0");
    m.schema_version = "9.9".to_string();
    assert!(validation_message(&m).contains("unsupported schema_version"));
}

#[test]
fn allow_unverified_does_not_bypass_unsupported_bundle_format() {
    let mut m = pi("future-fmt", "0.1.0");
    m.bundle_version = 99;
    assert!(validation_message(&m).contains("unsupported bundle format version"));
}

#[test]
fn allow_unverified_does_not_bypass_traversal_workdir() {
    let mut m = pi("traversal-agent", "0.1.0");
    m.launch.working_directory = Some("../..".to_string());
    let msg = validation_message(&m);
    assert!(msg.contains("must stay inside the bundle") || msg.contains("escapes the bundle"));
}

#[test]
fn absolute_working_directory_refused_even_with_override() {
    let mut m = pi("abs-wd-agent", "0.1.0");
    m.launch.working_directory = Some("/tmp".to_string());
    assert!(validation_message(&m).contains("must be relative to the bundle root"));
}
