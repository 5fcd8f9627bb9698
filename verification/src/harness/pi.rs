//! The Pi harness: how a Pi agent directory is recognised, which of its
//! parts are portable, and how Pi is launched (Node.js 20 or newer).

use vstd::prelude::*;
use crate::text::{
    Pat, trimmed, strip, strip_start, split_char, split_once_spec, contains_sub, parse_u64_spec,
    views, trim, strip_exec, strip_start_exec, split, split_once, contains_str, str_eq,
    parse_u64, find_pat, find_pat_exec, lemma_find_pat, is_ws, strip_end, decimal,
    lemma_decimal_parses, lemma_split_pat_cons,
};
use crate::paths::{join_spec, join};
use crate::domain::harness::HarnessId;
use crate::domain::manifest::{Launch, RuntimeRequirement};
use crate::harness::traits::{
    DetectionResult, Harness, HarnessError, PortableComponent, PortableEnvironment, PortableKind, PrepareRuntimeRequest,
    PreparedRuntime, SecretFormat, component_view, keys_enc_path, clone_strings,
};

verus! {

// ---------------------------------------------------------------------------
// Recognising an installation
// ---------------------------------------------------------------------------

/// What the filesystem shows of a candidate agent directory.
#[derive(Debug, Clone, Copy)]
pub struct PiLayout {
    pub is_dir: bool,
    pub has_settings_json: bool,
    pub has_auth_json: bool,
    pub has_sessions_dir: bool,
    pub has_extensions_dir: bool,
    pub has_skills_dir: bool,
    pub has_packages_dir: bool,
}

/// A Pi agent directory holds a config file and one of its key
/// directories.
pub open spec fn valid_install_spec(l: PiLayout) -> bool {
    &&& l.is_dir
    &&& l.has_settings_json || l.has_auth_json
    &&& l.has_sessions_dir || l.has_extensions_dir || l.has_skills_dir || l.has_packages_dir
}

/// Why no usable Pi installation was found.
#[derive(Debug, Clone, Copy, PartialEq, Eq, Structural)]
pub enum PiDetectError {
    /// The path is not a directory.
    NotADirectory,
    /// The directory is not a Pi agent directory; the flags say what is
    /// missing.
    NotValid { missing_config: bool, missing_dirs: bool },
    /// None of the standard locations holds an agent directory.
    NotFound,
}

/// The validation outcome for a candidate directory.
pub open spec fn validate_spec(l: PiLayout) -> Result<(), PiDetectError> {
    if !l.is_dir {
        Err(PiDetectError::NotADirectory)
    } else if !valid_install_spec(l) {
        Err(
            PiDetectError::NotValid {
                missing_config: !l.has_settings_json && !l.has_auth_json,
                missing_dirs: !(l.has_sessions_dir || l.has_extensions_dir || l.has_skills_dir
                    || l.has_packages_dir),
            },
        )
    } else {
        Ok(())
    }
}

// ---------------------------------------------------------------------------
// The version
// ---------------------------------------------------------------------------

/// The trimmed content of a version file, when it has any.
pub open spec fn nonblank(content: Option<Seq<char>>) -> Option<Seq<char>> {
    match content {
        Some(c) => if trimmed(c).len() > 0 {
            Some(trimmed(c))
        } else {
            None
        },
        None => None,
    }
}

/// The value a `settings.json` line gives for `key` (a quoted field name):
/// the text after the first `:`, trimmed and stripped of `,` and then `"`
/// characters; none when empty or `null`.
pub open spec fn settings_value(line: Seq<char>, key: Seq<char>) -> Option<Seq<char>> {
    let t = trimmed(line);
    if !contains_sub(t, key) {
        None
    } else {
        match split_once_spec(t, ':') {
            None => None,
            Some((_, v)) => {
                let x = strip(strip(trimmed(v), Pat::Char(',')), Pat::Char('"'));
                if x.len() > 0 && x != "null"@ {
                    Some(x)
                } else {
                    None
                }
            },
        }
    }
}

/// The value given by the first line that gives one.
pub open spec fn first_setting(lines: Seq<Seq<char>>, key: Seq<char>) -> Option<Seq<char>>
    decreases lines.len(),
{
    if lines.len() == 0 {
        None
    } else {
        match settings_value(lines[0], key) {
            Some(v) => Some(v),
            None => first_setting(lines.drop_first(), key),
        }
    }
}

/// The version an installation reports: `VERSION`, then `version.txt`,
/// then the `"version"` and then the `"lastChangelogVersion"` field of
/// `settings.json`, else `unknown`.
pub open spec fn version_spec(
    version_file: Option<Seq<char>>,
    version_txt: Option<Seq<char>>,
    settings: Option<Seq<char>>,
) -> Seq<char> {
    if nonblank(version_file) is Some {
        nonblank(version_file)->Some_0
    } else if nonblank(version_txt) is Some {
        nonblank(version_txt)->Some_0
    } else {
        match settings {
            None => "unknown"@,
            Some(s) => {
                let lines = split_char(s, '\n');
                match first_setting(lines, "\"version\""@) {
                    Some(v) => v,
                    None => match first_setting(lines, "\"lastChangelogVersion\""@) {
                        Some(v) => v,
                        None => "unknown"@,
                    },
                }
            },
        }
    }
}

fn nonblank_exec(content: Option<&str>) -> (r: Option<&str>)
    ensures
        match r {
            Some(x) => nonblank(
                match content {
                    Some(c) => Some(c@),
                    None => None,
                },
            ) == Some(x@),
            None => nonblank(
                match content {
                    Some(c) => Some(c@),
                    None => None,
                },
            ) is None,
        },
{
    match content {
        Some(c) => {
            let t = trim(c);
            if t.unicode_len() > 0 {
                Some(t)
            } else {
                None
            }
        },
        None => None,
    }
}

fn settings_value_exec<'a>(line: &'a str, key: &str) -> (r: Option<&'a str>)
    ensures
        match r {
            Some(x) => settings_value(line@, key@) == Some(x@),
            None => settings_value(line@, key@) is None,
        },
{
    let t = trim(line);
    if !contains_str(t, key) {
        return None;
    }
    match split_once(t, ':') {
        None => None,
        Some((_, v)) => {
            let x = strip_exec(strip_exec(trim(v), Pat::Char(',')), Pat::Char('"'));
            proof {
                reveal_strlit("null");
            }
            if x.unicode_len() > 0 && !str_eq(x, "null") {
                Some(x)
            } else {
                None
            }
        },
    }
}

fn first_setting_exec<'a>(lines: &Vec<&'a str>, key: &str) -> (r: Option<&'a str>)
    ensures
        match r {
            Some(x) => first_setting(views(lines@), key@) == Some(x@),
            None => first_setting(views(lines@), key@) is None,
        },
{
    let ghost ls = views(lines@);
    let mut i: usize = 0;
    assert(ls.skip(0) =~= ls);
    while i < lines.len()
        invariant
            i <= lines@.len(),
            ls == views(lines@),
            first_setting(ls, key@) == first_setting(ls.skip(i as int), key@),
        decreases lines@.len() - i,
    {
        assert(ls.skip(i as int)[0] == lines@[i as int]@);
        assert(ls.skip(i as int).drop_first() =~= ls.skip(i + 1));
        match settings_value_exec(lines[i], key) {
            Some(v) => {
                return Some(v);
            },
            None => {},
        }
        i = i + 1;
    }
    assert(ls.skip(lines@.len() as int) =~= Seq::<Seq<char>>::empty());
    None
}

// ---------------------------------------------------------------------------
// Locating the agent directory
// ---------------------------------------------------------------------------

/// What the environment and the filesystem show of the standard locations.
#[derive(Debug)]
pub struct AgentDirProbe {
    /// The `--path` override.
    pub explicit: Option<String>,
    /// `PI_CODING_AGENT_DIR` and whether it names a directory.
    pub coding_agent_dir: Option<String>,
    pub coding_agent_dir_is_dir: bool,
    /// The home directory; whether `~/.pi/agent` and `~/.pi` are
    /// directories.
    pub home: Option<String>,
    pub home_agent_is_dir: bool,
    pub home_pi_is_dir: bool,
    /// `PI_HOME` and whether it names a directory.
    pub pi_home: Option<String>,
    pub pi_home_is_dir: bool,
}

/// `~/.pi/agent`
pub open spec fn home_agent(home: Seq<char>) -> Seq<char> {
    join_spec(join_spec(home, ".pi"@), "agent"@)
}

/// `~/.pi`
pub open spec fn home_pi(home: Seq<char>) -> Seq<char> {
    join_spec(home, ".pi"@)
}

/// The agent directory and whether it is a legacy location: the
/// `--path` override, `PI_CODING_AGENT_DIR`, `~/.pi/agent`, then the
/// legacy `PI_HOME` and `~/.pi`.
pub open spec fn resolve_spec(p: AgentDirProbe) -> Result<(Seq<char>, bool), PiDetectError> {
    if p.explicit is Some {
        Ok((p.explicit->Some_0@, false))
    } else if p.coding_agent_dir is Some && p.coding_agent_dir_is_dir {
        Ok((p.coding_agent_dir->Some_0@, false))
    } else if p.home is Some && p.home_agent_is_dir {
        Ok((home_agent(p.home->Some_0@), false))
    } else if p.pi_home is Some && p.pi_home_is_dir {
        Ok((p.pi_home->Some_0@, true))
    } else if p.home is Some && p.home_pi_is_dir {
        Ok((home_pi(p.home->Some_0@), true))
    } else {
        Err(PiDetectError::NotFound)
    }
}

/// Resolve the Pi agent directory; the flag marks a legacy location.
pub fn resolve_agent_dir(p: &AgentDirProbe) -> (r: Result<(String, bool), PiDetectError>)
    ensures
        match resolve_spec(*p) {
            Ok((d, legacy)) => r matches Ok((s, l)) && s@ == d && l == legacy,
            Err(e) => r == Err::<(String, bool), PiDetectError>(e),
        },
{
    if let Some(x) = &p.explicit {
        return Ok((x.clone(), false));
    }
    if let Some(x) = &p.coding_agent_dir {
        if p.coding_agent_dir_is_dir {
            return Ok((x.clone(), false));
        }
    }
    if let Some(h) = &p.home {
        if p.home_agent_is_dir {
            let d = join(join(h.as_str(), ".pi").as_str(), "agent");
            return Ok((d, false));
        }
    }
    if let Some(x) = &p.pi_home {
        if p.pi_home_is_dir {
            return Ok((x.clone(), true));
        }
    }
    if let Some(h) = &p.home {
        if p.home_pi_is_dir {
            return Ok((join(h.as_str(), ".pi"), true));
        }
    }
    Err(PiDetectError::NotFound)
}

// ---------------------------------------------------------------------------
// The installation
// ---------------------------------------------------------------------------

/// A detected Pi installation: its agent directory and version.
#[derive(Debug)]
pub struct PiInstallation {
    agent_dir: String,
    version: String,
}

impl PiInstallation {
    pub closed spec fn root_view(&self) -> Seq<char> {
        self.agent_dir@
    }

    pub closed spec fn version_view(&self) -> Seq<char> {
        self.version@
    }

    /// The agent directory.
    pub fn root(&self) -> (r: &str)
        ensures
            r@ == self.root_view(),
    {
        self.agent_dir.as_str()
    }

    /// The reported version.
    pub fn version(&self) -> (r: &str)
        ensures
            r@ == self.version_view(),
    {
        self.version.as_str()
    }

    /// Whether a directory looks like a Pi agent directory.
    pub fn is_valid_install(layout: &PiLayout) -> (r: bool)
        ensures
            r == valid_install_spec(*layout),
    {
        layout.is_dir && (layout.has_settings_json || layout.has_auth_json) && (
        layout.has_sessions_dir || layout.has_extensions_dir || layout.has_skills_dir
            || layout.has_packages_dir)
    }

    /// Check a candidate directory, saying what is missing.
    pub fn validate(layout: &PiLayout) -> (r: Result<(), PiDetectError>)
        ensures
            r == validate_spec(*layout),
    {
        if !layout.is_dir {
            return Err(PiDetectError::NotADirectory);
        }
        if !Self::is_valid_install(layout) {
            return Err(
                PiDetectError::NotValid {
                    missing_config: !layout.has_settings_json && !layout.has_auth_json,
                    missing_dirs: !(layout.has_sessions_dir || layout.has_extensions_dir
                        || layout.has_skills_dir || layout.has_packages_dir),
                },
            );
        }
        Ok(())
    }

    /// The version from the contents of `VERSION`, `version.txt` and
    /// `settings.json` (each `None` when unreadable).
    pub fn read_version(
        version_file: Option<&str>,
        version_txt: Option<&str>,
        settings: Option<&str>,
    ) -> (r: String)
        ensures
            r@ == version_spec(
                match version_file {
                    Some(c) => Some(c@),
                    None => None,
                },
                match version_txt {
                    Some(c) => Some(c@),
                    None => None,
                },
                match settings {
                    Some(c) => Some(c@),
                    None => None,
                },
            ),
    {
        if let Some(v) = nonblank_exec(version_file) {
            return String::from_str(v);
        }
        if let Some(v) = nonblank_exec(version_txt) {
            return String::from_str(v);
        }
        match settings {
            None => String::from_str("unknown"),
            Some(s) => {
                let lines = split(s, '\n');
                if let Some(v) = first_setting_exec(&lines, "\"version\"") {
                    return String::from_str(v);
                }
                if let Some(v) = first_setting_exec(&lines, "\"lastChangelogVersion\"") {
                    return String::from_str(v);
                }
                String::from_str("unknown")
            },
        }
    }

    /// The installation at a resolved agent directory, once its layout has
    /// been checked.
    pub fn detected(agent_dir: String, layout: &PiLayout, version: String) -> (r: Result<
        Self,
        PiDetectError,
    >)
        ensures
            match validate_spec(*layout) {
                Ok(_) => r matches Ok(p) && p.root_view() == agent_dir@ && p.version_view()
                    == version@,
                Err(e) => r matches Err(x) && x == e,
            },
    {
        match Self::validate(layout) {
            Ok(_) => Ok(PiInstallation { agent_dir, version }),
            Err(e) => Err(e),
        }
    }
}

// ---------------------------------------------------------------------------
// The harness
// ---------------------------------------------------------------------------

/// The Pi harness.
#[derive(Debug, Clone, Copy)]
pub struct PiHarness {}

impl Harness for PiHarness {
    open spec fn harness_id(&self) -> HarnessId {
        HarnessId::Pi
    }

    fn identity(&self) -> (r: HarnessId) {
        HarnessId::Pi
    }
}

impl Default for PiHarness {
    fn default() -> (r: Self)
        ensures
            r.harness_id() == HarnessId::Pi,
    {
        PiHarness {  }
    }
}

/// Names at the agent root that belong to other components and are left
/// out of `agent/config`.
pub open spec fn config_excludes() -> Seq<Seq<char>> {
    seq![
        "sessions"@,
        "skills"@,
        "themes"@,
        "extensions"@,
        "packages"@,
        "prompts"@,
        "npm"@,
        "git"@,
        "secrets"@,
    ]
}

/// The portable components of a Pi installation at `root`, in scan order
/// (for secrets, later sources win).
pub open spec fn pi_components(root: Seq<char>) -> Seq<
    (PortableKind, Seq<char>, Seq<char>, bool, Seq<Seq<char>>, Option<SecretFormat>),
> {
    let packages = join_spec(root, "packages"@);
    seq![
        (PortableKind::Config, root, "agent/config"@, true, config_excludes(), None),
        (PortableKind::Memory, join_spec(root, "sessions"@), "agent/memory"@, false, seq![], None),
        (
            PortableKind::Extensions,
            join_spec(packages, "extensions"@),
            "agent/packages/extensions"@,
            false,
            seq![],
            None,
        ),
        (
            PortableKind::Skills,
            join_spec(packages, "skills"@),
            "agent/packages/skills"@,
            false,
            seq![],
            None,
        ),
        (
            PortableKind::Themes,
            join_spec(packages, "themes"@),
            "agent/packages/themes"@,
            false,
            seq![],
            None,
        ),
        (
            PortableKind::SecretSource,
            join_spec(root, "auth.json"@),
            keys_enc_path(),
            false,
            seq![],
            Some(SecretFormat::AuthJsonFile),
        ),
        (
            PortableKind::SecretSource,
            join_spec(root, "secrets"@),
            keys_enc_path(),
            false,
            seq![],
            Some(SecretFormat::KeyFileDir),
        ),
        (PortableKind::SecretSource, root, keys_enc_path(), false, seq![], Some(SecretFormat::DotEnvDir)),
        (
            PortableKind::SecretSource,
            join_spec(root, "config"@),
            keys_enc_path(),
            false,
            seq![],
            Some(SecretFormat::DotEnvDir),
        ),
    ]
}

/// Why preparing the Pi runtime failed: Node.js is missing or too old.
pub open spec fn node_major(output: Seq<char>) -> u64 {
    let v = strip_start(trimmed(output), Pat::Char('v'));
    match parse_u64_spec(split_char(v, '.')[0]) {
        Some(n) => if n <= u32::MAX {
            n
        } else {
            0
        },
        None => 0,
    }
}

/// The version text Node reports, without the leading `v`.
pub open spec fn node_version_text(output: Seq<char>) -> Seq<char> {
    strip_start(trimmed(output), Pat::Char('v'))
}

/// The arguments of a launch: its structured ones.
pub open spec fn launch_args(l: Launch) -> Seq<Seq<char>> {
    l.args@.map_values(|s: String| s@)
}

/// A launch whose command holds whitespace and that has no structured
/// arguments: the command embeds its arguments, whose boundaries whitespace
/// cannot be trusted to keep, so it is not run.
pub open spec fn embeds_arguments(l: Launch) -> bool {
    l.args@.len() == 0 && find_pat(l.command@, Pat::Whitespace) >= 0
}

/// Pi needs Node.js 20 or newer.
pub const PI_NODE_MAJOR: u32 = 20;

/// What preparing Pi's runtime gives for a launch specification and the
/// output of `node --version` (`None` when it could not be run): Node.js 20
/// or newer must be installed, then the launch is resolved.
pub open spec fn pi_prepare_outcome(
    launch: Launch,
    node: Option<Seq<char>>,
    r: Result<PreparedRuntime, HarnessError>,
) -> bool {
    match node {
        None => r == Err::<PreparedRuntime, HarnessError>(HarnessError::RuntimeMissing),
        Some(out) => if node_major(out) < PI_NODE_MAJOR {
            r matches Err(HarnessError::RuntimeTooOld { found, required_major }) && found@
                == node_version_text(out) && required_major == PI_NODE_MAJOR
        } else if embeds_arguments(launch) {
            r matches Err(HarnessError::EmbeddedArguments { command }) && command@
                == launch.command@
        } else {
            r matches Ok(p) && p.command@ == launch.command@ && p.args@.map_values(|s: String| s@)
                == launch_args(launch) && p.working_directory.is_some()
                == launch.working_directory.is_some() && (p.working_directory matches Some(w) ==> w@
                == launch.working_directory->Some_0@)
        },
    }
}

impl PiHarness {
    pub fn new() -> (r: Self)
        ensures
            r.harness_id() == HarnessId::Pi,
    {
        PiHarness {  }
    }

    /// The detection result of a detected installation: its root and the
    /// version it reports.
    pub fn detect(&self, pi: &PiInstallation) -> (r: DetectionResult)
        ensures
            r.harness_id == HarnessId::Pi,
            r.root@ == pi.root_view(),
            r.version@ == pi.version_view(),
    {
        DetectionResult {
            harness_id: HarnessId::Pi,
            root: String::from_str(pi.root()),
            version: String::from_str(pi.version()),
        }
    }

    /// Describe the portable environment of a detected installation.
    pub fn discover(&self, pi: &PiInstallation) -> (r: PortableEnvironment)
        ensures
            r.version@ == pi.version_view(),
            r.source_root@ == pi.root_view(),
            r.components@.map_values(|c: PortableComponent| component_view(c)) == pi_components(
                pi.root_view(),
            ),
            r.launch.command@ == "pi"@,
            r.launch.args@.map_values(|s: String| s@) == seq!["--agent-dir"@, "agent"@],
            r.launch.working_directory matches Some(w) && w@ == "."@,
            r.runtime_requirements@.len() == 1,
            r.runtime_requirements@[0].name@ == "node"@,
            r.runtime_requirements@[0].min_version@ == "20"@,
    {
        let root = pi.root();
        let packages = join(root, "packages");
        let mut components: Vec<PortableComponent> = Vec::new();
        let excludes: [&str; 9] = [
            "sessions",
            "skills",
            "themes",
            "extensions",
            "packages",
            "prompts",
            "npm",
            "git",
            "secrets",
        ];
        let c0 = PortableComponent::dir(
            PortableKind::Config,
            String::from_str(root),
            "agent/config",
            true,
            excludes.as_slice(),
        );
        assert(views(excludes@) =~= config_excludes());
        components.push(c0);
        let empty: [&str; 0] = [];
        assert(views(empty@) =~= Seq::<Seq<char>>::empty());
        components.push(
            PortableComponent::dir(
                PortableKind::Memory,
                join(root, "sessions"),
                "agent/memory",
                false,
                empty.as_slice(),
            ),
        );
        components.push(
            PortableComponent::dir(
                PortableKind::Extensions,
                join(packages.as_str(), "extensions"),
                "agent/packages/extensions",
                false,
                empty.as_slice(),
            ),
        );
        components.push(
            PortableComponent::dir(
                PortableKind::Skills,
                join(packages.as_str(), "skills"),
                "agent/packages/skills",
                false,
                empty.as_slice(),
            ),
        );
        components.push(
            PortableComponent::dir(
                PortableKind::Themes,
                join(packages.as_str(), "themes"),
                "agent/packages/themes",
                false,
                empty.as_slice(),
            ),
        );
        components.push(
            PortableComponent::secret_source(join(root, "auth.json"), SecretFormat::AuthJsonFile),
        );
        components.push(
            PortableComponent::secret_source(join(root, "secrets"), SecretFormat::KeyFileDir),
        );
        components.push(
            PortableComponent::secret_source(String::from_str(root), SecretFormat::DotEnvDir),
        );
        components.push(
            PortableComponent::secret_source(join(root, "config"), SecretFormat::DotEnvDir),
        );
        proof {
            let got = components@.map_values(|c: PortableComponent| component_view(c));
            let want = pi_components(pi.root_view());
            assert(got.len() == want.len());
            assert forall|i: int| 0 <= i < got.len() implies got[i] == want[i] by {
                if i == 0 {
                    assert(got[i].4 =~= want[i].4);
                } else {
                    assert(got[i].4 =~= want[i].4);
                }
            }
            assert(got =~= want);
        }
        let mut args: Vec<String> = Vec::new();
        args.push(String::from_str("--agent-dir"));
        args.push(String::from_str("agent"));
        assert(args@.map_values(|s: String| s@) =~= seq!["--agent-dir"@, "agent"@]);
        let mut reqs: Vec<RuntimeRequirement> = Vec::new();
        reqs.push(
            RuntimeRequirement { name: String::from_str("node"), min_version: String::from_str("20") },
        );
        PortableEnvironment {
            version: String::from_str(pi.version()),
            source_root: String::from_str(root),
            components,
            launch: Launch {
                command: String::from_str("pi"),
                args,
                working_directory: Some(String::from_str(".")),
            },
            runtime_requirements: reqs,
        }
    }

    /// The major version that `node --version` reports (0 when unreadable).
    pub fn node_major_version(output: &str) -> (r: u64)
        ensures
            r == node_major(output@),
    {
        let v = strip_start_exec(trim(output), Pat::Char('v'));
        let parts = split(v, '.');
        proof {
            assert(split_char(v@, '.').len() >= 1);
        }
        let first = parts[0];
        assert(first@ == split_char(v@, '.')[0]);
        match parse_u64(first) {
            Some(n) => if n <= 4294967295u64 {
                n
            } else {
                0
            },
            None => 0,
        }
    }

    /// Prepare the runtime: Node.js 20 or newer must be installed (`node`
    /// is the output of `node --version`, `None` when it could not be run),
    /// and a command that embeds its arguments is refused; the launch is
    /// then taken as it stands.
    pub fn prepare_runtime(&self, request: &PrepareRuntimeRequest, node: Option<&str>) -> (r:
        Result<PreparedRuntime, HarnessError>)
        ensures
            pi_prepare_outcome(
                request.launch,
                match node {
                    Some(o) => Some(o@),
                    None => None,
                },
                r,
            ),
    {
        let out = match node {
            None => {
                return Err(HarnessError::RuntimeMissing);
            },
            Some(o) => o,
        };
        let major = Self::node_major_version(out);
        if major < 20 {
            let v = strip_start_exec(trim(out), Pat::Char('v'));
            return Err(
                HarnessError::RuntimeTooOld { found: String::from_str(v), required_major: 20 },
            );
        }
        if request.launch.args.len() == 0 && find_pat_exec(
            request.launch.command.as_str(),
            Pat::Whitespace,
        ).is_some() {
            return Err(HarnessError::EmbeddedArguments { command: request.launch.command.clone() });
        }
        let args = clone_strings(&request.launch.args);
        let wd = match &request.launch.working_directory {
            Some(w) => Some(w.clone()),
            None => None,
        };
        Ok(PreparedRuntime { command: request.launch.command.clone(), args, working_directory: wd })
    }
}

/// The agent directory is resolved in a fixed order of precedence: an
/// explicit `--path` always wins; then `PI_CODING_AGENT_DIR` when it names a
/// directory, whatever the home directory holds; then `~/.pi/agent`; then,
/// flagged as legacy, `PI_HOME` and `~/.pi`; with none of them the
/// installation is not found. Only the two legacy locations are flagged.
pub proof fn lemma_agent_dir_precedence(p: AgentDirProbe)
    ensures
        p.explicit matches Some(x) ==> resolve_spec(p) == Ok::<(Seq<char>, bool), PiDetectError>(
            (x@, false),
        ),
        p.explicit is None && p.coding_agent_dir is Some && p.coding_agent_dir_is_dir
            ==> resolve_spec(p) == Ok::<(Seq<char>, bool), PiDetectError>(
            (p.coding_agent_dir->Some_0@, false),
        ),
        p.explicit is None && !(p.coding_agent_dir is Some && p.coding_agent_dir_is_dir)
            && p.home is Some && p.home_agent_is_dir ==> resolve_spec(p) == Ok::<
            (Seq<char>, bool),
            PiDetectError,
        >((join_spec(join_spec(p.home->Some_0@, ".pi"@), "agent"@), false)),
        p.explicit is None && !(p.coding_agent_dir is Some && p.coding_agent_dir_is_dir) && !(
        p.home is Some && p.home_agent_is_dir) && p.pi_home is Some && p.pi_home_is_dir
            ==> resolve_spec(p) == Ok::<(Seq<char>, bool), PiDetectError>(
            (p.pi_home->Some_0@, true),
        ),
        p.explicit is None && !(p.coding_agent_dir is Some && p.coding_agent_dir_is_dir) && !(
        p.home is Some && p.home_agent_is_dir) && !(p.pi_home is Some && p.pi_home_is_dir)
            && p.home is Some && p.home_pi_is_dir ==> resolve_spec(p) == Ok::<
            (Seq<char>, bool),
            PiDetectError,
        >((join_spec(p.home->Some_0@, ".pi"@), true)),
        resolve_spec(p) is Err <==> (p.explicit is None && !(p.coding_agent_dir is Some
            && p.coding_agent_dir_is_dir) && !(p.home is Some && (p.home_agent_is_dir
            || p.home_pi_is_dir)) && !(p.pi_home is Some && p.pi_home_is_dir)),
        resolve_spec(p) is Err ==> resolve_spec(p) == Err::<(Seq<char>, bool), PiDetectError>(
            PiDetectError::NotFound,
        ),
{
}

/// A directory is accepted as a Pi agent directory exactly when it holds a
/// config file (`settings.json` or `auth.json`) and one of `sessions/`,
/// `extensions/`, `skills/` or `packages/`; a refusal of a directory names
/// exactly what is missing.
pub proof fn lemma_install_validity(l: PiLayout)
    ensures
        validate_spec(l) is Ok <==> (l.is_dir && (l.has_settings_json || l.has_auth_json) && (
        l.has_sessions_dir || l.has_extensions_dir || l.has_skills_dir || l.has_packages_dir)),
        !l.is_dir ==> validate_spec(l) == Err::<(), PiDetectError>(PiDetectError::NotADirectory),
        validate_spec(l) matches Err(PiDetectError::NotValid { missing_config, missing_dirs })
            ==> l.is_dir && missing_config == !(l.has_settings_json || l.has_auth_json)
            && missing_dirs == !(l.has_sessions_dir || l.has_extensions_dir || l.has_skills_dir
            || l.has_packages_dir) && (missing_config || missing_dirs),
{
}

/// The reported version comes from the first version file with non-blank
/// content, trimmed: `VERSION` before `version.txt`; with neither and no
/// `settings.json` it is `unknown`.
pub proof fn lemma_version_precedence(
    version_file: Option<Seq<char>>,
    version_txt: Option<Seq<char>>,
    settings: Option<Seq<char>>,
)
    ensures
        version_file is Some && trimmed(version_file->Some_0).len() > 0 ==> version_spec(
            version_file,
            version_txt,
            settings,
        ) == trimmed(version_file->Some_0),
        !(version_file matches Some(c) && trimmed(c).len() > 0) && (version_txt matches Some(c)
            && trimmed(c).len() > 0) ==> version_spec(version_file, version_txt, settings)
            == trimmed(version_txt->Some_0),
        !(version_file matches Some(c) && trimmed(c).len() > 0) && !(version_txt matches Some(c)
            && trimmed(c).len() > 0) && settings is None ==> version_spec(
            version_file,
            version_txt,
            settings,
        ) == "unknown"@,
{
}

/// Preparing Pi's runtime succeeds only with Node.js 20 or newer and a
/// launch whose command does not embed its arguments (whitespace in the
/// command with no separate arguments); the command and arguments are then
/// handed over exactly as written, never split. Without Node, or with an
/// older one, or with embedded arguments, it fails.
pub proof fn lemma_prepare_law(
    launch: Launch,
    node: Option<Seq<char>>,
    r: Result<PreparedRuntime, HarnessError>,
)
    requires
        pi_prepare_outcome(launch, node, r),
    ensures
        r is Ok <==> (node is Some && node_major(node->Some_0) >= 20 && !(launch.args@.len() == 0
            && exists|i: int| 0 <= i < launch.command@.len() && is_ws(#[trigger] launch.command@[i]))),
        r matches Ok(p) ==> p.command@ == launch.command@ && p.args@.len() == launch.args@.len()
            && forall|i: int| 0 <= i < p.args@.len() ==> (#[trigger] p.args@[i])@ == launch.args@[i]@,
        node is None ==> r == Err::<PreparedRuntime, HarnessError>(HarnessError::RuntimeMissing),
{
    lemma_find_pat(launch.command@, Pat::Whitespace);
    if r is Ok {
        let p = r->Ok_0;
        assert(p.args@.map_values(|s: String| s@).len() == launch_args(launch).len());
        assert(p.args@.len() == launch.args@.len());
        assert forall|i: int| 0 <= i < p.args@.len() implies (#[trigger] p.args@[i])@
            == launch.args@[i]@ by {
            assert(p.args@.map_values(|s: String| s@)[i] == launch_args(launch)[i]);
            assert(launch_args(launch)[i] == launch.args@[i]@);
        }
    }
}

/// Node's major version is the number before the first `.`, with or
/// without a leading `v`: `v20.1.0` and `20.1.0` give 20.
pub proof fn lemma_node_major_reads_number(n: nat, rest: Seq<char>, with_v: bool)
    requires
        n <= u32::MAX,
        rest.len() == 0 || !is_ws(rest.last()),
    ensures
        node_major((if with_v {
            seq!['v']
        } else {
            Seq::<char>::empty()
        }) + decimal(n) + seq!['.'] + rest) == n,
{
    lemma_decimal_parses(n);
    let d = decimal(n);
    let pre = if with_v {
        seq!['v']
    } else {
        Seq::<char>::empty()
    };
    let s = pre + d + seq!['.'] + rest;
    assert('0' <= d[0] <= '9');
    assert(!is_ws(s[0])) by {
        if with_v {
            assert(s[0] == 'v');
        } else {
            assert(s[0] == d[0]);
        }
    }
    assert(!is_ws(s.last())) by {
        if rest.len() == 0 {
            assert(s.last() == '.');
        } else {
            assert(s.last() == rest.last());
        }
    }
    assert(strip_start(s, Pat::Whitespace) == s);
    assert(strip_end(s, Pat::Whitespace) == s);
    let t = d + seq!['.'] + rest;
    if with_v {
        assert(s.drop_first() =~= t);
        assert(strip_start(t, Pat::Char('v')) == t);
    } else {
        assert(s =~= t);
        assert(strip_start(t, Pat::Char('v')) == t);
    }
    assert forall|i: int| 0 <= i < d.len() implies !Pat::Char('.').holds(#[trigger] d[i]) by {
        assert('0' <= d[i] <= '9');
    }
    lemma_split_pat_cons(d, '.', rest, Pat::Char('.'));
    assert(split_char(t, '.')[0] == d);
}

} // verus!
