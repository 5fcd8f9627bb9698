use agentpacknest::application::components::{
    component_precheck, is_excluded, is_secret_file, packs_kind, plan_component_copy,
};
use agentpacknest::application::info::compute_reproducibility;
use agentpacknest::application::init_bundle::{bundle_dirs, execute as init_execute, resolve_init, InitBundleRequest, InitError};
use agentpacknest::application::pack_bundle::{
    archive_name, check_pack_harness, copy_precheck, finalize_pack_manifest, flag, packages_from_names, plan_copy,
    plan_counts, resolve_pack_flags, CopyAction, EntryKind, PackError, TreeEntry,
};
use agentpacknest::application::run_bundle::{
    authorize_run, build_env, check_compatibility, RunError, format_age, is_within, parse_duration_secs,
    resolve_max_age_secs, stale_age_secs, version_lt, DurationError, MaxAgeError, RunBundleRequest,
    DEFAULT_MAX_AGE_SECS,
};
use agentpacknest::application::trust::{
    decide_trust, verify_bundle_integrity_and_signature, ChecksumCheck, SignatureCheck, TrustError,
    TrustWarning,
};
use agentpacknest::application::Application;
use agentpacknest::calendar::{format_timestamp, is_timestamp_in_domain, parse_iso8601_secs};
use agentpacknest::domain::harness::HarnessId;
use agentpacknest::harness::pi::{PiHarness, PiInstallation, PiLayout};
use agentpacknest::harness::traits::{HarnessError, PortableComponent, PortableKind};
use agentpacknest::domain::manifest::{default_pi, Compatibility, Manifest, OriginMeta, PackageEntry, PlatformMeta};
use agentpacknest::infrastructure::bundle_store::BundleRepository;
use agentpacknest::infrastructure::process::{system_default_keys, RuntimeEnvironment};
use agentpacknest::security::integrity::{compute_bundle_checksum, PayloadFile};
use agentpacknest::security::secrets::SecretsBundle;
use agentpacknest::security::signing::{generate_keypair, sign};
use agentpacknest::utils::ignore::IgnorePatterns;

fn pi(name: &str) -> Manifest {
    default_pi(name, "0.1.0", "tester", PlatformMeta { os: "linux".to_string(), arch: "x86_64".to_string() })
}

// ── run request ─────────────────────────────────────────────────────────

#[test]
fn run_bundle_test_run_request_construction() {
    let request = RunBundleRequest {
        bundle_path: "/tmp/bundle".to_string(),
        passphrase: Some("test".to_string()),
        workdir: None,
        dry_run: true,
        allow_unverified: false,
        args: vec![],
        max_age_secs: DEFAULT_MAX_AGE_SECS,
    };
    assert!(request.dry_run);
    assert!(!request.allow_unverified);
}

#[test]
fn run_bundle_impl_test_run_request_construction() {
    let request = RunBundleRequest {
        bundle_path: "/tmp/bundle".to_string(),
        passphrase: Some("test".to_string()),
        workdir: None,
        dry_run: true,
        allow_unverified: false,
        max_age_secs: DEFAULT_MAX_AGE_SECS,
        args: vec![],
    };
    assert!(request.dry_run);
    assert!(!request.allow_unverified);
}

// ── staleness ───────────────────────────────────────────────────────────

fn manifest_packed_at(iso: &str) -> Manifest {
    let mut m = pi("stale-test");
    m.origin = Some(OriginMeta {
        origin_machine: "old-machine".to_string(),
        packed_at: iso.to_string(),
        source_state_hash: None,
    });
    m
}

#[test]
fn stale_beyond_threshold_reported() {
    let now = parse_iso8601_secs("2026-09-03T00:00:00Z").unwrap();
    let m = manifest_packed_at("2026-01-01T00:00:00Z");
    let age = now - parse_iso8601_secs("2026-01-01T00:00:00Z").unwrap();
    assert_eq!(age, 245 * 86_400);
    assert_eq!(stale_age_secs(&m, now, 7 * 86_400), Some(245 * 86_400));
    assert_eq!(stale_age_secs(&m, now, 400 * 86_400), None);
    assert_eq!(stale_age_secs(&m, now, 245 * 86_400), None);
}

#[test]
fn no_origin_never_stale() {
    let now = parse_iso8601_secs("2026-09-03T00:00:00Z").unwrap();
    let m = pi("no-origin");
    assert_eq!(stale_age_secs(&m, now, 86_400), None);
}

#[test]
fn unreadable_pack_time_never_stale() {
    let m = manifest_packed_at("yesterday");
    assert!(is_timestamp_in_domain("yesterday"));
    assert_eq!(stale_age_secs(&m, 1_000_000_000, 1), None);
}

#[test]
fn humanized_age_uses_largest_unit() {
    assert_eq!(format_age(245 * 86_400), "245 days");
    assert_eq!(format_age(12 * 3_600), "12 hours");
    assert_eq!(format_age(30 * 60), "30 minutes");
    assert_eq!(format_age(5), "1 minutes");
}

#[test]
fn timestamps_read_back_what_is_written() {
    for secs in [0u64, 86_399, 951_782_400, 1_767_225_600, 4_102_444_800] {
        let text = format_timestamp(secs);
        assert!(is_timestamp_in_domain(&text));
        assert_eq!(parse_iso8601_secs(&text), Ok(secs));
    }
    assert_eq!(format_timestamp(951_782_400), "2000-02-29T00:00:00Z");
}

#[test]
fn timestamp_domain_check() {
    assert!(is_timestamp_in_domain("2025-01-15T12:34:56Z"));
    assert!(!is_timestamp_in_domain("2025-14-15T12:34:56Z"));
    assert!(!is_timestamp_in_domain("2025-01-00T12:34:56Z"));
    assert!(!is_timestamp_in_domain("2025-01-01T18446744073709551615:00:00Z"));
}

// ── freshness threshold ─────────────────────────────────────────────────

#[test]
fn parses_days_hours_weeks_and_bare_days() {
    assert_eq!(parse_duration_secs("7d").unwrap(), 7 * 86_400);
    assert_eq!(parse_duration_secs("24h").unwrap(), 86_400);
    assert_eq!(parse_duration_secs("2w").unwrap(), 14 * 86_400);
    assert_eq!(parse_duration_secs("30").unwrap(), 30 * 86_400);
    assert_eq!(parse_duration_secs(" 5d ").unwrap(), 5 * 86_400);
}

#[test]
fn rejects_invalid_durations() {
    for bad in ["", "0", "0d", "-1", "abc", "1.5d", "7m", "7years"] {
        assert!(parse_duration_secs(bad).is_err(), "'{bad}' must be rejected");
    }
}

#[test]
fn duration_errors_are_specific() {
    assert_eq!(parse_duration_secs("  "), Err(DurationError::Empty));
    assert_eq!(parse_duration_secs("0w"), Err(DurationError::Zero));
    assert_eq!(parse_duration_secs("x"), Err(DurationError::NotANumber));
    assert_eq!(parse_duration_secs("99999999999999999w"), Err(DurationError::TooLarge));
}

#[test]
fn flag_wins_over_env() {
    assert_eq!(resolve_max_age_secs(Some("30d"), Some("7d")).unwrap(), 30 * 86_400);
}

#[test]
fn env_used_when_no_flag() {
    assert_eq!(resolve_max_age_secs(None, Some("24h")).unwrap(), 86_400);
}

#[test]
fn empty_env_counts_as_unset() {
    assert_eq!(resolve_max_age_secs(None, Some("  ")).unwrap(), DEFAULT_MAX_AGE_SECS);
}

#[test]
fn default_when_nothing_configured() {
    assert_eq!(resolve_max_age_secs(None, None).unwrap(), DEFAULT_MAX_AGE_SECS);
    assert_eq!(DEFAULT_MAX_AGE_SECS, 7 * 86_400);
}

#[test]
fn invalid_flag_and_env_rejected() {
    assert!(resolve_max_age_secs(Some("bogus"), None).is_err());
    assert!(resolve_max_age_secs(None, Some("bogus")).is_err());
    assert!(resolve_max_age_secs(Some("bogus"), Some("7d")).is_err());
    assert_eq!(
        resolve_max_age_secs(None, Some("bogus")),
        Err(MaxAgeError::Env(DurationError::NotANumber))
    );
}

// ── compatibility and containment ───────────────────────────────────────

#[test]
fn version_ordering() {
    assert!(version_lt("0.2.0", "0.10.0"));
    assert!(!version_lt("0.2.0", "0.2"));
    assert!(!version_lt("1.0", "0.9.9"));
    assert!(version_lt("1.0", "1.0.1"));
}

#[test]
fn compatibility_floor_enforced() {
    let mut m = pi("c");
    assert!(check_compatibility(&m).is_ok());
    m.compatibility = Some(Compatibility { min_agentpacknest_version: "0.1.0".to_string() });
    assert!(check_compatibility(&m).is_ok());
    m.compatibility = Some(Compatibility { min_agentpacknest_version: "9.0".to_string() });
    let err = check_compatibility(&m).unwrap_err();
    assert_eq!(err.required, "9.0");
    assert_eq!(err.current, "0.2.0");
}

#[test]
fn working_directory_containment() {
    assert!(is_within("/b", "/b"));
    assert!(is_within("/b", "/b/agent"));
    assert!(is_within("/b/", "/b//agent/x"));
    assert!(!is_within("/b", "/bx"));
    assert!(!is_within("/b/agent", "/b"));
    assert!(!is_within("/b", "b/agent"));
}

// ── environment of the agent ────────────────────────────────────────────

#[test]
fn agent_environment_has_bundle_vars_and_secrets() {
    let m = pi("env");
    let mut s = SecretsBundle::new();
    s.insert("API_KEY", "k");
    let env = build_env("/b", &m, Some(&s));
    let pairs = env.pairs();
    assert_eq!(env.len(), 6);
    assert!(pairs.contains(&("AGENTPACKNEST_BUNDLE", "/b")));
    assert!(pairs.contains(&("AGENTPACKNEST_HARNESS", "pi")));
    assert!(pairs.contains(&("AGENTPACKNEST_CONFIG", "/b/agent/config")));
    assert!(pairs.contains(&("AGENTPACKNEST_MEMORY", "/b/agent/memory")));
    assert!(pairs.contains(&("AGENTPACKNEST_PACKAGES", "/b/agent/packages")));
    assert!(pairs.contains(&("API_KEY", "k")));
    assert_eq!(build_env("/b", &m, None).len(), 5);
}

#[test]
fn clean_environment_is_empty() {
    let env = RuntimeEnvironment::clean();
    assert!(env.is_empty());
    assert_eq!(env.len(), 0);
}

#[test]
fn inject_variables() {
    let mut env = RuntimeEnvironment::clean();
    env.inject("FOO", "bar");
    env.inject("BAZ", "qux");
    env.inject("FOO", "again");
    assert_eq!(env.len(), 2);
    let mut keys = env.keys();
    keys.sort();
    assert_eq!(keys, vec!["BAZ", "FOO"]);
    env.inject_all(&vec![("X".to_string(), "1".to_string()), ("X".to_string(), "2".to_string())]);
    assert!(env.pairs().contains(&("X", "2")));
}

#[test]
fn system_default_keys_per_platform() {
    assert_eq!(system_default_keys(false), vec!["PATH", "HOME", "USER", "SHELL", "LANG", "LC_ALL", "TMPDIR"]);
    assert!(system_default_keys(true).contains(&"SystemRoot"));
}

// ── trust checkpoint ────────────────────────────────────────────────────

#[test]
fn trust_decisions() {
    assert_eq!(decide_trust(ChecksumCheck::Verified, SignatureCheck::Verified, false), Ok(vec![]));
    assert_eq!(
        decide_trust(ChecksumCheck::Mismatch, SignatureCheck::Verified, false),
        Err(TrustError::Checksum(ChecksumCheck::Mismatch))
    );
    assert_eq!(
        decide_trust(ChecksumCheck::Verified, SignatureCheck::Missing, false),
        Err(TrustError::Signature(SignatureCheck::Missing))
    );
    assert_eq!(
        decide_trust(ChecksumCheck::Missing, SignatureCheck::Invalid, true),
        Ok(vec![
            TrustWarning::Checksum(ChecksumCheck::Missing),
            TrustWarning::Signature(SignatureCheck::Invalid)
        ])
    );
}

#[test]
fn tampered_payload_refused_by_default() {
    let kp = generate_keypair();
    let canonical = b"canonical manifest";
    let sig = sign(&kp.seed, canonical).unwrap();
    let files = vec![PayloadFile { path: "agent/config/a".to_string(), content: b"v1".to_vec() }];
    let checksum = compute_bundle_checksum(files.clone());
    let ok = verify_bundle_integrity_and_signature(
        Some(&checksum),
        Some(files),
        canonical,
        Some(&sig),
        Some(&kp.public_key),
        false,
    );
    assert_eq!(ok, Ok(vec![]));
    let tampered = vec![PayloadFile { path: "agent/config/a".to_string(), content: b"v2".to_vec() }];
    let refused = verify_bundle_integrity_and_signature(
        Some(&checksum),
        Some(tampered),
        canonical,
        Some(&sig),
        Some(&kp.public_key),
        false,
    );
    assert_eq!(refused, Err(TrustError::Checksum(ChecksumCheck::Mismatch)));
    let other = generate_keypair();
    let replaced = verify_bundle_integrity_and_signature(
        Some(&checksum),
        Some(vec![PayloadFile { path: "agent/config/a".to_string(), content: b"v1".to_vec() }]),
        canonical,
        Some(&sig),
        Some(&other.public_key),
        false,
    );
    assert_eq!(replaced, Err(TrustError::Signature(SignatureCheck::Invalid)));
}

// ── pack ────────────────────────────────────────────────────────────────

#[test]
fn pack_flags() {
    assert_eq!(resolve_pack_flags(false, false, false, false, false, false, false), Err(PackError::NothingToPack));
    assert_eq!(
        resolve_pack_flags(true, false, false, false, false, false, true),
        Err(PackError::EncryptArchiveNeedsArchive)
    );
    let f = resolve_pack_flags(false, false, false, false, true, false, false).unwrap();
    assert!(f.config && f.memory && f.skills && f.secrets && !f.archive);
    assert_eq!(flag(true), "yes");
    assert_eq!(flag(false), "no");
    assert_eq!(archive_name("my-agent", false), "my-agent.tar.gz");
    assert_eq!(archive_name("my-agent", true), "my-agent.tar.gz.enc");
}

#[test]
fn copy_plan_and_prechecks() {
    assert_eq!(copy_precheck(false, "/d", true, false), Ok(false));
    assert_eq!(
        copy_precheck(true, "/d", true, false),
        Err(PackError::DestinationExists { path: "/d".to_string() })
    );
    assert_eq!(copy_precheck(true, "/d", true, true), Ok(true));
    let ignore = IgnorePatterns::from_str("*.log\ncache\n");
    let entries = vec![
        TreeEntry { rel: "".to_string(), kind: EntryKind::Dir },
        TreeEntry { rel: "a.txt".to_string(), kind: EntryKind::File },
        TreeEntry { rel: "debug.log".to_string(), kind: EntryKind::File },
        TreeEntry { rel: "cache".to_string(), kind: EntryKind::Dir },
    ];
    let plan = plan_copy(&entries, &ignore).unwrap();
    assert_eq!(plan, vec![CopyAction::MakeDir, CopyAction::CopyFile, CopyAction::Ignored, CopyAction::Ignored]);
    assert_eq!(plan_counts(&plan), (1, 2));
    let with_link = vec![
        TreeEntry { rel: "a".to_string(), kind: EntryKind::File },
        TreeEntry { rel: "link".to_string(), kind: EntryKind::Symlink },
    ];
    assert_eq!(
        plan_copy(&with_link, &ignore),
        Err(PackError::SymlinkNotAllowed { path: "link".to_string() })
    );
}

#[test]
fn pack_completes_manifest() {
    let m = pi("p");
    let flags = resolve_pack_flags(true, false, true, true, false, false, false).unwrap();
    let pkgs = packages_from_names(&vec!["ext-a".to_string()], &vec![], &vec!["dark".to_string()]);
    let checksum = "a".repeat(64);
    let out = finalize_pack_manifest(m, &flags, pkgs, checksum.clone(), "host".to_string(), "2025-01-15T12:00:00Z".to_string());
    assert!(out.contents.config && out.contents.skills && out.contents.secrets && !out.contents.memory);
    assert_eq!(out.packages.extensions[0].name, "ext-a");
    assert_eq!(out.packages.extensions[0].version, "0.0.0");
    assert_eq!(out.packages.themes.len(), 1);
    assert!(out.security.secrets_encrypted);
    assert_eq!(out.security.encryption.as_deref(), Some("aes-256-gcm/argon2id/v1"));
    assert_eq!(out.integrity.checksum, Some(checksum));
    assert_eq!(out.crypto.unwrap().format_version, 1);
    assert_eq!(out.compatibility.as_ref().unwrap().min_agentpacknest_version, "0.1.0");
    assert_eq!(out.origin.as_ref().unwrap().origin_machine, "host");
    assert!(out.validate().is_ok());
}

// ── init ────────────────────────────────────────────────────────────────

#[test]
fn init_resolution() {
    let plan = resolve_init("pi", None, None).unwrap();
    assert_eq!(plan.harness, HarnessId::Pi);
    assert_eq!(plan.name, "my-agent");
    assert_eq!(plan.output_dir, "my-agent");
    assert_eq!(resolve_init("PI", Some("x"), Some("/o")).unwrap().output_dir, "/o");
    assert_eq!(
        resolve_init("aider", None, None).unwrap_err(),
        InitError::NotFullySupported { name: "aider".to_string() }
    );
    assert_eq!(
        resolve_init("docker", None, None).unwrap_err(),
        InitError::UnsupportedHarness { name: "docker".to_string() }
    );
    assert_eq!(bundle_dirs().len(), 7);
    let app = Application::build();
    let res = init_execute(&app, InitBundleRequest {
        harness: HarnessId::Pi,
        name: "n".to_string(),
        output_dir: "/out".to_string(),
        source_path: None,
    })
    .unwrap();
    assert_eq!(res.bundle_path, "/out");
}

// ── info ────────────────────────────────────────────────────────────────

#[test]
fn reproducibility_report() {
    let m = pi("r");
    let (score, warnings) = compute_reproducibility(&m, false);
    assert_eq!(score, 10);
    assert_eq!(warnings.len(), 6);
    assert_eq!(warnings[0], "no config packed — bundle may not be self-contained");
    assert_eq!(warnings[5], "unsigned bundle — authenticity unverified");
}

#[test]
fn complete_bundle_scores_high() {
    let mut m = pi("full");
    m.contents.config = true;
    m.contents.skills = true;
    m.contents.memory = true;
    m.contents.secrets = true;
    m.security.secrets_encrypted = true;
    m.integrity.checksum = Some("0".repeat(64));
    m.origin = Some(OriginMeta {
        origin_machine: "host".to_string(),
        packed_at: "2026-01-01T00:00:00Z".to_string(),
        source_state_hash: None,
    });
    m.packages.extensions.push(PackageEntry {
        name: "ext".to_string(),
        version: "0.0.0".to_string(),
        source: None,
        path: None,
    });
    let (score, warnings) = compute_reproducibility(&m, true);
    assert_eq!(score, 100);
    assert!(warnings.is_empty());
    let (unsigned, _) = compute_reproducibility(&m, false);
    assert_eq!(unsigned, 85);
    assert!(score <= 100 && unsigned <= 100);
}

// ── run authorization ───────────────────────────────────────────────────

#[test]
fn authorize_run_refuses_unverified_bundle() {
    let m = pi("gate");
    let r = authorize_run(&m, "/b", Some(vec![]), b"manifest", None, None, false, Some("v20.1.0"));
    assert_eq!(r.unwrap_err(), RunError::Trust(TrustError::Checksum(ChecksumCheck::Missing)));
}

#[test]
fn authorize_run_override_warns_and_prepares() {
    let m = pi("gate");
    let a = authorize_run(&m, "/b", Some(vec![]), b"manifest", None, None, true, Some("v20.1.0")).unwrap();
    assert_eq!(
        a.warnings,
        vec![
            TrustWarning::Checksum(ChecksumCheck::Missing),
            TrustWarning::Signature(SignatureCheck::Missing)
        ]
    );
    assert_eq!(a.prepared.command, "pi");
    assert_eq!(a.prepared.args, vec!["--agent-dir".to_string(), "agent".to_string()]);
}

#[test]
fn authorize_run_runtime_checks_survive_override() {
    let m = pi("gate");
    let missing = authorize_run(&m, "/b", None, b"manifest", None, None, true, None);
    assert_eq!(missing.unwrap_err(), RunError::Harness(HarnessError::RuntimeMissing));
    let old = authorize_run(&m, "/b", None, b"manifest", None, None, true, Some("v18.2.0\n"));
    assert_eq!(
        old.unwrap_err(),
        RunError::Harness(HarnessError::RuntimeTooOld { found: "18.2.0".to_string(), required_major: 20 })
    );
}

#[test]
fn authorize_run_checks_compatibility_before_harness() {
    let mut m = pi("gate");
    m.compatibility = Some(Compatibility { min_agentpacknest_version: "9.0".to_string() });
    match authorize_run(&m, "/b", None, b"manifest", None, None, true, None) {
        Err(RunError::Incompatible(e)) => {
            assert_eq!(e.required, "9.0");
            assert_eq!(e.current, "0.2.0");
        }
        other => panic!("unexpected: {:?}", other),
    }
}

#[test]
fn authorize_run_aider_not_runnable() {
    let mut m = pi("gate");
    m.harness.name = "aider".to_string();
    let r = authorize_run(&m, "/b", None, b"manifest", None, None, true, Some("v22.0.0"));
    assert!(matches!(r, Err(RunError::Harness(HarnessError::NotImplemented { .. }))));
}

#[test]
fn authorize_run_verified_bundle_runs_clean() {
    let files = vec![PayloadFile { path: "agent/config/a".to_string(), content: b"v1".to_vec() }];
    let mut m = pi("gate");
    m.integrity.checksum = Some(compute_bundle_checksum(files.clone()));
    let kp = generate_keypair();
    let canonical = b"canonical manifest bytes";
    let sig = sign(&kp.seed, canonical).unwrap();
    let a = authorize_run(&m, "/b", Some(files), canonical, Some(&sig), Some(&kp.public_key), false, Some("v20.0.0"))
        .unwrap();
    assert!(a.warnings.is_empty());
    assert_eq!(a.prepared.working_directory, m.launch.working_directory);
}

#[test]
fn only_pi_bundles_are_packed() {
    let mut m = pi("packable");
    assert_eq!(check_pack_harness(&m), Ok(()));
    m.harness.name = "aider".to_string();
    assert_eq!(check_pack_harness(&m), Err(PackError::UnsupportedHarness { name: "aider".to_string() }));
}

// ── bundle storage ──────────────────────────────────────────────────────

struct EmptyStore;

impl BundleRepository for EmptyStore {
    fn has_bundle(&self, _path: &str) -> bool {
        false
    }

    fn load_manifest(&self, bundle_path: &str) -> Result<Manifest, String> {
        Err(format!("no bundle at {}", bundle_path))
    }

    fn save_manifest(&self, _bundle_path: &str, _manifest: &Manifest) -> Result<(), String> {
        Ok(())
    }
}

#[test]
fn repository_locates_signature_and_secrets() {
    assert_eq!(EmptyStore.signature_path("bundles/a"), "bundles/a/manifest.sig");
    assert_eq!(EmptyStore.secrets_path("bundles/a/"), "bundles/a/secrets/keys.enc");
    assert!(!EmptyStore.has_bundle("bundles/a"));
    assert!(EmptyStore.load_manifest("bundles/a").is_err());
}

// ── packing components ──────────────────────────────────────────────────

fn pi_environment() -> Vec<PortableComponent> {
    let layout = PiLayout {
        is_dir: true,
        has_settings_json: true,
        has_auth_json: true,
        has_sessions_dir: true,
        has_extensions_dir: false,
        has_skills_dir: false,
        has_packages_dir: false,
    };
    let pi = PiInstallation::detected("/p/agent".to_string(), &layout, "0.84.4".to_string()).unwrap();
    PiHarness::new().discover(&pi).components
}

fn entry(rel: &str, kind: EntryKind) -> TreeEntry {
    TreeEntry { rel: rel.to_string(), kind }
}

#[test]
fn flags_select_component_kinds() {
    let flags = resolve_pack_flags(true, false, true, true, false, false, false).unwrap();
    assert!(packs_kind(&flags, PortableKind::Config));
    assert!(!packs_kind(&flags, PortableKind::Memory));
    assert!(packs_kind(&flags, PortableKind::Extensions));
    assert!(packs_kind(&flags, PortableKind::Themes));
    assert!(!packs_kind(&flags, PortableKind::SecretSource));
}

#[test]
fn required_component_must_exist() {
    let env = pi_environment();
    let config = &env[0];
    let memory = &env[1];
    assert_eq!(
        component_precheck(config, false, "b/agent/config", false, false),
        Err(PackError::MissingSource { path: "/p/agent".to_string() })
    );
    assert_eq!(component_precheck(memory, false, "b/agent/memory", false, false), Ok(false));
    assert_eq!(
        component_precheck(memory, true, "b/agent/memory", true, false),
        Err(PackError::DestinationExists { path: "b/agent/memory".to_string() })
    );
    assert_eq!(component_precheck(memory, true, "b/agent/memory", true, true), Ok(true));
}

#[test]
fn secret_sources_name_their_files() {
    let env = pi_environment();
    assert!(is_secret_file(&env, "/p/agent/auth.json"));
    assert!(is_secret_file(&env, "/p/agent/.env"));
    assert!(is_secret_file(&env, "/p/agent/config/prod.env"));
    assert!(is_secret_file(&env, "/p/agent/secrets/OPENAI_API_KEY"));
    assert!(!is_secret_file(&env, "/p/agent/settings.json"));
    assert!(!is_secret_file(&env, "/p/agent/config/theme.json"));
    assert!(!is_secret_file(&env, "/p/agent/sessions/.env"));
}

#[test]
fn config_copy_leaves_out_components_and_secrets() {
    let env = pi_environment();
    let config = &env[0];
    assert!(is_excluded(config, "sessions/s1.json"));
    assert!(!is_excluded(config, "settings.json"));
    let entries = vec![
        entry("", EntryKind::Dir),
        entry("settings.json", EntryKind::File),
        entry("auth.json", EntryKind::File),
        entry(".env", EntryKind::File),
        entry("sessions", EntryKind::Dir),
        entry("sessions/s1.json", EntryKind::File),
        entry("sessions/link", EntryKind::Symlink),
        entry("config", EntryKind::Dir),
        entry("config/.env", EntryKind::File),
        entry("config/theme.json", EntryKind::File),
        entry("notes.log", EntryKind::File),
    ];
    let ignore = IgnorePatterns::from_str("*.log\n");
    let plan = plan_component_copy(config, &env, &entries, &ignore).unwrap();
    assert_eq!(
        plan,
        vec![
            CopyAction::MakeDir,
            CopyAction::CopyFile,
            CopyAction::Excluded,
            CopyAction::Excluded,
            CopyAction::Excluded,
            CopyAction::Excluded,
            CopyAction::Excluded,
            CopyAction::MakeDir,
            CopyAction::Excluded,
            CopyAction::CopyFile,
            CopyAction::Ignored,
        ]
    );
    assert_eq!(plan_counts(&plan), (2, 1));
}

#[test]
fn component_copy_refuses_links_it_would_follow() {
    let env = pi_environment();
    let entries = vec![entry("", EntryKind::Dir), entry("link", EntryKind::Symlink)];
    assert_eq!(
        plan_component_copy(&env[0], &env, &entries, &IgnorePatterns::default()),
        Err(PackError::SymlinkNotAllowed { path: "link".to_string() })
    );
}

#[test]
fn inject_all_takes_the_union_with_later_values_winning() {
    let mut env = RuntimeEnvironment::clean();
    env.inject("A", "1");
    env.inject("C", "keep");
    env.inject_all(&vec![("B".to_string(), "2".to_string()), ("A".to_string(), "3".to_string())]);
    assert_eq!(env.len(), 3);
    let mut pairs = env.pairs();
    pairs.sort();
    assert_eq!(pairs, vec![("A", "3"), ("B", "2"), ("C", "keep")]);
}
