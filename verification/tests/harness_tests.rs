use agentpacknest::domain::harness::HarnessId;
use agentpacknest::domain::manifest::Launch;
use agentpacknest::harness::aider::{
    aider_version, build_launch_command, required_env_vars, AiderHarness, AiderInstallation, AiderPaths,
};
use agentpacknest::harness::pi::{
    resolve_agent_dir, AgentDirProbe, PiDetectError, PiHarness, PiInstallation, PiLayout,
};
use agentpacknest::harness::registry::{HarnessRegistry, RegisteredHarness};
use agentpacknest::harness::traits::{
    Harness, HarnessError, PortableKind, PrepareRuntimeRequest, SecretFormat,
};

fn layout(settings: bool, auth: bool, sessions: bool, extensions: bool) -> PiLayout {
    PiLayout {
        is_dir: true,
        has_settings_json: settings,
        has_auth_json: auth,
        has_sessions_dir: sessions,
        has_extensions_dir: extensions,
        has_skills_dir: false,
        has_packages_dir: false,
    }
}

fn missing() -> PiLayout {
    PiLayout {
        is_dir: false,
        has_settings_json: false,
        has_auth_json: false,
        has_sessions_dir: false,
        has_extensions_dir: false,
        has_skills_dir: false,
        has_packages_dir: false,
    }
}

fn installation(root: &str) -> PiInstallation {
    PiInstallation::detected(root.to_string(), &layout(true, false, true, false), "unknown".to_string())
        .unwrap()
}

// ── Pi detection ────────────────────────────────────────────────────────

#[test]
fn valid_install_with_settings_and_sessions() {
    assert!(PiInstallation::is_valid_install(&layout(true, false, true, false)));
}

#[test]
fn valid_install_with_auth_only() {
    assert!(PiInstallation::is_valid_install(&layout(false, true, false, true)));
}

#[test]
fn invalid_settings_but_no_dirs() {
    assert!(!PiInstallation::is_valid_install(&layout(true, false, false, false)));
}

#[test]
fn invalid_dirs_but_no_config() {
    assert!(!PiInstallation::is_valid_install(&layout(false, false, true, false)));
}

#[test]
fn detect_nonexistent_path_errors() {
    let result = PiInstallation::detected("/nonexistent".to_string(), &missing(), "unknown".to_string());
    assert!(result.is_err());
}

#[test]
fn validate_error_messages() {
    let empty = layout(false, false, false, false);
    assert_eq!(
        PiInstallation::validate(&empty),
        Err(PiDetectError::NotValid { missing_config: true, missing_dirs: true })
    );
    assert_eq!(PiInstallation::validate(&missing()), Err(PiDetectError::NotADirectory));
}

#[test]
fn read_version_from_file() {
    assert_eq!(PiInstallation::read_version(Some("0.5.0\n"), None, Some("{}")), "0.5.0");
}

#[test]
fn read_version_from_settings() {
    assert_eq!(
        PiInstallation::read_version(None, None, Some("{\n  \"version\": \"1.2.3\"\n}")),
        "1.2.3"
    );
}

#[test]
fn read_version_unknown() {
    assert_eq!(PiInstallation::read_version(None, None, Some("{}")), "unknown");
}

#[test]
fn read_version_precedence_and_fallbacks() {
    assert_eq!(PiInstallation::read_version(Some("  \n"), Some("2.0\n"), None), "2.0");
    assert_eq!(
        PiInstallation::read_version(
            None,
            None,
            Some("{\n \"version\": null,\n \"lastChangelogVersion\": \"0.9.1\",\n}")
        ),
        "0.9.1"
    );
}

#[test]
fn resolve_agent_dir_order() {
    let mut probe = AgentDirProbe {
        explicit: None,
        coding_agent_dir: Some("/env/agent".to_string()),
        coding_agent_dir_is_dir: false,
        home: Some("/home/u".to_string()),
        home_agent_is_dir: true,
        home_pi_is_dir: true,
        pi_home: None,
        pi_home_is_dir: false,
    };
    assert_eq!(resolve_agent_dir(&probe), Ok(("/home/u/.pi/agent".to_string(), false)));
    probe.home_agent_is_dir = false;
    assert_eq!(resolve_agent_dir(&probe), Ok(("/home/u/.pi".to_string(), true)));
    probe.explicit = Some("/x".to_string());
    assert_eq!(resolve_agent_dir(&probe), Ok(("/x".to_string(), false)));
    probe.explicit = None;
    probe.home = None;
    assert_eq!(resolve_agent_dir(&probe), Err(PiDetectError::NotFound));
}

// ── Pi discovery and runtime ────────────────────────────────────────────

#[test]
fn discover_fails_on_invalid_path() {
    let result = PiInstallation::detected("/nonexistent".to_string(), &missing(), "unknown".to_string());
    assert!(result.is_err());
}

#[test]
fn discover_describes_pi_environment() {
    let pi = installation("/tmp/pi-agent");
    let env = PiHarness::new().discover(&pi);
    assert_eq!(env.version, "unknown");
    assert_eq!(env.source_root, "/tmp/pi-agent");
    assert_eq!(env.launch.command, "pi");
    let kinds: Vec<PortableKind> = env.components.iter().map(|c| c.kind).collect();
    assert!(kinds.contains(&PortableKind::Config));
    assert!(kinds.contains(&PortableKind::Memory));
    assert!(kinds.contains(&PortableKind::Extensions));
    assert!(kinds.contains(&PortableKind::Skills));
    assert!(kinds.contains(&PortableKind::Themes));
    let config = env.components.iter().find(|c| c.kind == PortableKind::Config).unwrap();
    assert_eq!(config.destination, "agent/config");
    assert!(config.excludes.contains(&"sessions".to_string()));
    let skills = env.components.iter().find(|c| c.kind == PortableKind::Skills).unwrap();
    assert_eq!(skills.source, "/tmp/pi-agent/packages/skills");
    assert_eq!(skills.destination, "agent/packages/skills");
    let secrets: Vec<_> =
        env.components.iter().filter(|c| c.kind == PortableKind::SecretSource).collect();
    assert_eq!(secrets.len(), 4);
    assert_eq!(secrets[0].secret_format, Some(SecretFormat::AuthJsonFile));
    assert_eq!(secrets[0].source, "/tmp/pi-agent/auth.json");
    assert!(secrets.iter().all(|c| c.destination == "secrets/keys.enc"));
    assert_eq!(env.runtime_requirements.len(), 1);
    assert_eq!(env.runtime_requirements[0].name, "node");
}

fn launch(command: &str, args: Vec<String>) -> PrepareRuntimeRequest {
    PrepareRuntimeRequest {
        bundle_root: "/b".to_string(),
        launch: Launch { command: command.to_string(), args, working_directory: Some(".".to_string()) },
    }
}

#[test]
fn prepare_runtime_requires_node_20() {
    let h = PiHarness::new();
    let req = launch("pi", vec!["--agent-dir".to_string(), "agent".to_string()]);
    assert_eq!(h.prepare_runtime(&req, None).unwrap_err(), HarnessError::RuntimeMissing);
    assert_eq!(
        h.prepare_runtime(&req, Some("v18.19.0\n")).unwrap_err(),
        HarnessError::RuntimeTooOld { found: "18.19.0".to_string(), required_major: 20 }
    );
    let ok = h.prepare_runtime(&req, Some("v20.11.1\n")).unwrap();
    assert_eq!(ok.command, "pi");
    assert_eq!(ok.args, vec!["--agent-dir".to_string(), "agent".to_string()]);
    assert_eq!(ok.working_directory, Some(".".to_string()));
}

#[test]
fn embedded_args_command_refused() {
    let h = PiHarness::new();
    let req = launch("pi --agent-dir agent", vec![]);
    assert_eq!(
        h.prepare_runtime(&req, Some("v22.0.0")).unwrap_err(),
        HarnessError::EmbeddedArguments { command: "pi --agent-dir agent".to_string() }
    );
    let quoted = launch("pi --name \"hello world\"", vec![]);
    assert!(matches!(h.prepare_runtime(&quoted, Some("v22.0.0")), Err(HarnessError::EmbeddedArguments { .. })));
    let bare = h.prepare_runtime(&launch("pi", vec![]), Some("v22.0.0")).unwrap();
    assert_eq!(bare.command, "pi");
    assert!(bare.args.is_empty());
    assert_eq!(PiHarness::node_major_version("v9"), 9);
    assert_eq!(PiHarness::node_major_version("garbage"), 0);
}

// ── Aider ───────────────────────────────────────────────────────────────

#[test]
fn required_env_vars_list() {
    let vars = required_env_vars();
    assert!(vars.contains(&"OPENAI_API_KEY"));
    assert!(vars.contains(&"ANTHROPIC_API_KEY"));
}

#[test]
fn build_command_basic() {
    assert_eq!(build_launch_command("/p/.aider.conf.yml", false), "aider");
}

#[test]
fn build_command_with_config() {
    let cmd = build_launch_command("/p/.aider.conf.yml", true);
    assert!(cmd.starts_with("aider"));
    assert!(cmd.contains("--config"));
    assert_eq!(cmd, "aider --config /p/.aider.conf.yml");
}

#[test]
fn paths_point_to_correct_locations() {
    let paths = AiderPaths::new("/proj".to_string());
    assert_eq!(paths.config_file(), "/proj/.aider.conf.yml");
    assert_eq!(paths.env_file(), "/proj/.env");
    assert_eq!(paths.cache_dir(), "/proj/.aider");
    assert_eq!(paths.chat_history(), "/proj/.aider.chat.history.md");
    assert_eq!(paths.conventions(), "/proj/CONVENTIONS.md");
    assert_eq!(paths.input_history(), "/proj/.aider.input.history");
}

#[test]
fn aider_detection_and_version() {
    assert_eq!(aider_version(Some(" aider 0.50.1\n")), "aider 0.50.1");
    assert_eq!(aider_version(Some("  ")), "unknown");
    assert_eq!(aider_version(None), "unknown");
    let h = AiderHarness::new();
    assert_eq!(h.detect(None, None, None, false, "/cwd").unwrap_err(), HarnessError::BinaryNotFound);
    let d = h.detect(Some("/usr/bin/aider"), Some("0.5"), None, false, "/cwd").unwrap();
    assert_eq!(d.root, "/cwd");
    assert_eq!(d.version, "0.5");
    assert!(h.discover().is_err());
}

// ── registry ────────────────────────────────────────────────────────────

#[test]
fn default_registry_has_pi_and_aider() {
    let registry = HarnessRegistry::with_defaults();
    let ids = registry.supported_ids();
    assert!(ids.contains(&HarnessId::Pi));
    assert!(ids.contains(&HarnessId::Aider));
}

#[test]
fn get_registered_harness() {
    let registry = HarnessRegistry::with_defaults();
    assert!(registry.get(HarnessId::Pi).is_ok());
}

#[test]
fn get_unregistered_harness_fails() {
    let mut registry = HarnessRegistry::new();
    registry.register(RegisteredHarness::Aider(AiderHarness::new()));
    assert!(registry.get(HarnessId::Pi).is_err());
}

#[test]
fn by_name_resolves_pi() {
    let registry = HarnessRegistry::with_defaults();
    let harness = registry.by_name("pi").unwrap();
    assert_eq!(harness.identity(), HarnessId::Pi);
}

#[test]
fn by_name_rejects_unknown() {
    let registry = HarnessRegistry::with_defaults();
    assert!(registry.by_name("codex").is_err());
}

#[test]
fn discover_pi_fails_without_installation() {
    let result = PiInstallation::detected("/nonexistent".to_string(), &missing(), "unknown".to_string());
    assert!(result.is_err());
}

#[test]
fn registry_dispatches_by_id() {
    let registry = HarnessRegistry::with_defaults();
    let pi = installation("/a");
    let env = registry.discover(HarnessId::Pi, &pi).unwrap();
    assert_eq!(env.source_root, "/a");
    assert!(registry.discover(HarnessId::Aider, &pi).is_err());
    let req = launch("pi", vec![]);
    assert!(registry.prepare_runtime(HarnessId::Aider, &req, Some("v20")).is_err());
    let empty = HarnessRegistry::new();
    assert_eq!(
        empty.discover(HarnessId::Pi, &pi).unwrap_err(),
        HarnessError::NotRegistered { id: HarnessId::Pi }
    );
}

#[test]
fn invalid_empty_dir() {
    assert!(!PiInstallation::is_valid_install(&layout(false, false, false, false)));
}

#[test]
fn detect_explicit_path() {
    let pi = PiInstallation::detected("/home/u/.pi/agent".to_string(), &layout(true, false, true, false), "0.84.4".to_string())
        .unwrap();
    assert_eq!(pi.root(), "/home/u/.pi/agent");
    assert_eq!(pi.version(), "0.84.4");
}

#[test]
fn detect_invalid_path_errors() {
    let result = PiInstallation::detected("/tmp/empty".to_string(), &layout(false, false, false, false), "unknown".to_string());
    assert_eq!(result.unwrap_err(), PiDetectError::NotValid { missing_config: true, missing_dirs: true });
}

#[test]
fn is_invalid_empty() {
    assert!(!AiderInstallation::is_valid_install(false, false, false));
}

#[test]
fn is_valid_with_config_yml() {
    assert!(AiderInstallation::is_valid_install(true, false, false));
}

#[test]
fn is_valid_with_env_file() {
    assert!(AiderInstallation::is_valid_install(false, true, false));
}

#[test]
fn is_valid_with_aider_dir() {
    assert!(AiderInstallation::is_valid_install(false, false, true));
}

#[test]
fn fixture_pi_is_valid() {
    // The fixture Pi directory: a directory with settings.json and sessions/.
    let fixture = layout(true, false, true, false);
    assert!(fixture.is_dir, "fixture Pi dir should exist");
    assert!(fixture.has_settings_json, "settings.json should exist");
    assert!(fixture.has_sessions_dir, "sessions/ should exist");
    assert!(PiInstallation::is_valid_install(&fixture));
}

#[test]
fn detect_pi_with_explicit_path() {
    let pi = PiInstallation::detected("/tmp/fake-pi".to_string(), &layout(true, false, true, false), "unknown".to_string())
        .unwrap();
    let registry = HarnessRegistry::with_defaults();
    let detected = registry.detect(HarnessId::Pi, &pi, Err(HarnessError::BinaryNotFound)).unwrap();
    assert_eq!(detected.harness_id, HarnessId::Pi);
    assert_eq!(detected.root, "/tmp/fake-pi");
    let direct = PiHarness::new().detect(&pi);
    assert_eq!(detected.root, direct.root);
    assert_eq!(detected.version, direct.version);
}

#[test]
fn detect_refuses_unregistered_harness() {
    let pi = PiInstallation::detected("/tmp/fake-pi".to_string(), &layout(true, false, true, false), "unknown".to_string())
        .unwrap();
    let registry = HarnessRegistry::new();
    assert_eq!(
        registry.detect(HarnessId::Pi, &pi, Err(HarnessError::BinaryNotFound)).unwrap_err(),
        HarnessError::NotRegistered { id: HarnessId::Pi }
    );
}

#[test]
fn supported_ids_are_distinct() {
    let mut registry = HarnessRegistry::with_defaults();
    registry.register(RegisteredHarness::Pi(PiHarness::new()));
    assert_eq!(registry.supported_ids(), vec![HarnessId::Pi, HarnessId::Aider]);
    assert!(HarnessRegistry::new().supported_ids().is_empty());
}
