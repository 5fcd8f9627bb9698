//! The Aider harness: detection only.
//!
//! Aider is a command-line tool with per-project configuration
//! (`.aider.conf.yml`, `.env`, `.aider/`, `.aider.chat.history.md`,
//! `CONVENTIONS.md`). Discovery of a portable environment and runtime
//! preparation are not offered yet.

use vstd::prelude::*;
use crate::text::{trimmed, trim, views};
use crate::paths::{join_spec, join};
use crate::domain::harness::HarnessId;
use crate::harness::traits::{Harness, HarnessError, DetectionResult, PortableEnvironment, PreparedRuntime};

verus! {

// ---------------------------------------------------------------------------
// Paths
// ---------------------------------------------------------------------------

/// The Aider files of a project directory.
#[derive(Debug)]
pub struct AiderPaths {
    pub project_dir: String,
}

/// Which of the Aider files exist.
#[derive(Debug, Clone, Copy)]
pub struct AiderPathStatus {
    pub config_file: bool,
    pub env_file: bool,
    pub cache_dir: bool,
    pub chat_history: bool,
    pub conventions: bool,
}

impl AiderPaths {
    pub fn new(project_dir: String) -> (r: Self)
        ensures
            r.project_dir@ == project_dir@,
    {
        AiderPaths { project_dir }
    }

    /// `.aider.conf.yml`
    pub fn config_file(&self) -> (r: String)
        ensures
            r@ == join_spec(self.project_dir@, ".aider.conf.yml"@),
    {
        join(self.project_dir.as_str(), ".aider.conf.yml")
    }

    /// `.env`
    pub fn env_file(&self) -> (r: String)
        ensures
            r@ == join_spec(self.project_dir@, ".env"@),
    {
        join(self.project_dir.as_str(), ".env")
    }

    /// `.aider/`
    pub fn cache_dir(&self) -> (r: String)
        ensures
            r@ == join_spec(self.project_dir@, ".aider"@),
    {
        join(self.project_dir.as_str(), ".aider")
    }

    /// `.aider.chat.history.md`
    pub fn chat_history(&self) -> (r: String)
        ensures
            r@ == join_spec(self.project_dir@, ".aider.chat.history.md"@),
    {
        join(self.project_dir.as_str(), ".aider.chat.history.md")
    }

    /// `.aider.input.history`
    pub fn input_history(&self) -> (r: String)
        ensures
            r@ == join_spec(self.project_dir@, ".aider.input.history"@),
    {
        join(self.project_dir.as_str(), ".aider.input.history")
    }

    /// `CONVENTIONS.md`
    pub fn conventions(&self) -> (r: String)
        ensures
            r@ == join_spec(self.project_dir@, "CONVENTIONS.md"@),
    {
        join(self.project_dir.as_str(), "CONVENTIONS.md")
    }

    /// The status record for what the filesystem shows of the paths above
    /// (files for the config, env file, history and conventions; a
    /// directory for the cache).
    pub fn path_status(
        &self,
        config_file: bool,
        env_file: bool,
        cache_dir: bool,
        chat_history: bool,
        conventions: bool,
    ) -> (r: AiderPathStatus)
        ensures
            r.config_file == config_file,
            r.env_file == env_file,
            r.cache_dir == cache_dir,
            r.chat_history == chat_history,
            r.conventions == conventions,
    {
        AiderPathStatus { config_file, env_file, cache_dir, chat_history, conventions }
    }
}

// ---------------------------------------------------------------------------
// Launching
// ---------------------------------------------------------------------------

/// The launch command: `aider`, with `--config <file>` when the config file
/// exists.
pub fn build_launch_command(config_file: &str, config_exists: bool) -> (r: String)
    ensures
        r@ == if config_exists {
            "aider"@ + " --config "@ + config_file@
        } else {
            "aider"@
        },
{
    let mut cmd = String::from_str("aider");
    if config_exists {
        cmd.append(" --config ");
        cmd.append(config_file);
    }
    cmd
}

/// The names of the API-key variables Aider reads.
pub open spec fn aider_env_vars() -> Seq<Seq<char>> {
    seq![
        "OPENAI_API_KEY"@,
        "ANTHROPIC_API_KEY"@,
        "GITHUB_TOKEN"@,
        "GEMINI_API_KEY"@,
        "OPENROUTER_API_KEY"@,
    ]
}

/// The environment variables to inject for Aider.
pub fn required_env_vars() -> (r: Vec<&'static str>)
    ensures
        views(r@) == aider_env_vars(),
{
    let mut v: Vec<&'static str> = Vec::new();
    v.push("OPENAI_API_KEY");
    v.push("ANTHROPIC_API_KEY");
    v.push("GITHUB_TOKEN");
    v.push("GEMINI_API_KEY");
    v.push("OPENROUTER_API_KEY");
    assert(views(v@) =~= aider_env_vars());
    v
}

// ---------------------------------------------------------------------------
// Detection
// ---------------------------------------------------------------------------

/// The version from `aider --version`: its trimmed output, or `unknown`
/// when it failed or printed nothing.
pub open spec fn aider_version_spec(output: Option<Seq<char>>) -> Seq<char> {
    match output {
        Some(o) => if trimmed(o).len() > 0 {
            trimmed(o)
        } else {
            "unknown"@
        },
        None => "unknown"@,
    }
}

/// Read the Aider version from the output of `aider --version` (`None` when
/// the command failed).
pub fn aider_version(output: Option<&str>) -> (r: String)
    ensures
        r@ == aider_version_spec(
            match output {
                Some(o) => Some(o@),
                None => None,
            },
        ),
{
    match output {
        Some(o) => {
            let t = trim(o);
            if t.unicode_len() > 0 {
                String::from_str(t)
            } else {
                String::from_str("unknown")
            }
        },
        None => String::from_str("unknown"),
    }
}

/// A detected Aider installation.
#[derive(Debug)]
pub struct AiderInstallation {
    binary: String,
    version: String,
    project_dir: String,
}

impl AiderInstallation {
    pub closed spec fn binary_view(&self) -> Seq<char> {
        self.binary@
    }

    pub closed spec fn version_view(&self) -> Seq<char> {
        self.version@
    }

    pub closed spec fn project_view(&self) -> Seq<char> {
        self.project_dir@
    }

    /// The installation found: the binary from `which aider` (`None` when
    /// it failed), the version output, and the project directory.
    pub fn detected(which_output: Option<&str>, version_output: Option<&str>, project_dir: String) -> (r:
        Result<Self, HarnessError>)
        ensures
            match which_output {
                Some(w) if trimmed(w@).len() > 0 => r matches Ok(a) && a.binary_view() == trimmed(
                    w@,
                ) && a.version_view() == aider_version_spec(
                    match version_output {
                        Some(o) => Some(o@),
                        None => None,
                    },
                ) && a.project_view() == project_dir@,
                _ => r == Err::<Self, HarnessError>(HarnessError::BinaryNotFound),
            },
    {
        let bin = match which_output {
            Some(w) => {
                let t = trim(w);
                if t.unicode_len() == 0 {
                    return Err(HarnessError::BinaryNotFound);
                }
                String::from_str(t)
            },
            None => {
                return Err(HarnessError::BinaryNotFound);
            },
        };
        Ok(AiderInstallation { binary: bin, version: aider_version(version_output), project_dir })
    }

    /// The Aider executable.
    pub fn binary_path(&self) -> (r: &str)
        ensures
            r@ == self.binary_view(),
    {
        self.binary.as_str()
    }

    /// `.aider/`
    pub fn cache_dir(&self) -> (r: String)
        ensures
            r@ == join_spec(self.project_view(), ".aider"@),
    {
        join(self.project_dir.as_str(), ".aider")
    }

    /// `.aider.chat.history.md`
    pub fn chat_history_path(&self) -> (r: String)
        ensures
            r@ == join_spec(self.project_view(), ".aider.chat.history.md"@),
    {
        join(self.project_dir.as_str(), ".aider.chat.history.md")
    }

    /// `CONVENTIONS.md`
    pub fn conventions_path(&self) -> (r: String)
        ensures
            r@ == join_spec(self.project_view(), "CONVENTIONS.md"@),
    {
        join(self.project_dir.as_str(), "CONVENTIONS.md")
    }

    /// The config file: the project's `.aider.conf.yml` when it exists,
    /// else `~/.aider.conf.yml` when that exists, else the project path.
    pub fn config_file(&self, project_has_config: bool, home: Option<&str>, home_has_config: bool) -> (r:
        String)
        ensures
            r@ == if project_has_config {
                join_spec(self.project_view(), ".aider.conf.yml"@)
            } else if home is Some && home_has_config {
                join_spec(home->Some_0@, ".aider.conf.yml"@)
            } else {
                join_spec(self.project_view(), ".aider.conf.yml"@)
            },
    {
        if project_has_config {
            return join(self.project_dir.as_str(), ".aider.conf.yml");
        }
        if let Some(h) = home {
            if home_has_config {
                return join(h, ".aider.conf.yml");
            }
        }
        join(self.project_dir.as_str(), ".aider.conf.yml")
    }

    /// The secrets file: the project's `.env` when it exists, else `~/.env`,
    /// else `.env`.
    pub fn secrets_path(&self, project_has_env: bool, home: Option<&str>) -> (r: String)
        ensures
            r@ == if project_has_env {
                join_spec(self.project_view(), ".env"@)
            } else if home is Some {
                join_spec(home->Some_0@, ".env"@)
            } else {
                ".env"@
            },
    {
        if project_has_env {
            return join(self.project_dir.as_str(), ".env");
        }
        match home {
            Some(h) => join(h, ".env"),
            None => String::from_str(".env"),
        }
    }

    /// Aider's configuration is a file in the project directory itself.
    pub fn config_path(&self) -> (r: String)
        ensures
            r@ == self.project_view(),
    {
        self.project_dir.clone()
    }

    /// Aider has no packages; its `.aider/` directory stands in.
    pub fn packages_path(&self) -> (r: String)
        ensures
            r@ == join_spec(self.project_view(), ".aider"@),
    {
        join(self.project_dir.as_str(), ".aider")
    }

    /// Aider's memory is its chat history.
    pub fn memory_path(&self) -> (r: String)
        ensures
            r@ == join_spec(self.project_view(), ".aider.chat.history.md"@),
    {
        join(self.project_dir.as_str(), ".aider.chat.history.md")
    }

    /// Aider's skills are its coding conventions.
    pub fn skills_path(&self) -> (r: String)
        ensures
            r@ == join_spec(self.project_view(), "CONVENTIONS.md"@),
    {
        join(self.project_dir.as_str(), "CONVENTIONS.md")
    }

    /// A project directory is an Aider project when it has a config file,
    /// an `.env` file or an `.aider/` directory.
    pub fn is_valid_install(has_config: bool, has_env: bool, has_aider_dir: bool) -> (r: bool)
        ensures
            r == (has_config || has_env || has_aider_dir),
    {
        has_config || has_env || has_aider_dir
    }

    /// The version recorded in `.aider/version`, or `unknown`.
    pub fn read_version(content: Option<&str>) -> (r: String)
        ensures
            r@ == aider_version_spec(
                match content {
                    Some(c) => Some(c@),
                    None => None,
                },
            ),
    {
        aider_version(content)
    }
}

/// The adapter view of an installation: its name, version and root.
pub trait HarnessAdapter {
    spec fn root_spec(&self) -> Seq<char>;

    /// The harness name.
    fn name(&self) -> (r: &'static str);

    /// The version.
    fn version(&self) -> (r: &str);

    /// The installation root.
    fn root(&self) -> (r: &str)
        ensures
            r@ == self.root_spec(),
    ;
}

impl HarnessAdapter for AiderInstallation {
    open spec fn root_spec(&self) -> Seq<char> {
        self.project_view()
    }

    fn name(&self) -> (r: &'static str)
        ensures
            r@ == "aider"@,
    {
        "aider"
    }

    fn version(&self) -> (r: &str)
        ensures
            r@ == self.version_view(),
    {
        self.version.as_str()
    }

    fn root(&self) -> (r: &str) {
        self.project_dir.as_str()
    }
}

// ---------------------------------------------------------------------------
// The harness
// ---------------------------------------------------------------------------

/// The Aider harness (detection only).
#[derive(Debug, Clone, Copy)]
pub struct AiderHarness {}

impl Harness for AiderHarness {
    open spec fn harness_id(&self) -> HarnessId {
        HarnessId::Aider
    }

    fn identity(&self) -> (r: HarnessId) {
        HarnessId::Aider
    }
}

impl Default for AiderHarness {
    fn default() -> (r: Self)
        ensures
            r.harness_id() == HarnessId::Aider,
    {
        AiderHarness {  }
    }
}

impl AiderHarness {
    pub fn new() -> (r: Self)
        ensures
            r.harness_id() == HarnessId::Aider,
    {
        AiderHarness {  }
    }

    /// Detection: the binary from `which aider` (`None` when it failed),
    /// the version output, and the project directory: the `--path` when it
    /// is a directory (else an error), or the current directory.
    pub fn detect(
        &self,
        which_output: Option<&str>,
        version_output: Option<&str>,
        explicit_path: Option<&str>,
        explicit_is_dir: bool,
        current_dir: &str,
    ) -> (r: Result<DetectionResult, HarnessError>)
        ensures
            which_output is None ==> r == Err::<DetectionResult, HarnessError>(
                HarnessError::BinaryNotFound,
            ),
            which_output is Some && explicit_path is Some && !explicit_is_dir ==> (r matches Err(
                HarnessError::NotADirectory { path },
            ) && path@ == explicit_path->Some_0@),
            which_output is Some && (explicit_path is None || explicit_is_dir) ==> (r matches Ok(d)
                && d.harness_id == HarnessId::Aider && d.version@ == aider_version_spec(
                match version_output {
                    Some(o) => Some(o@),
                    None => None,
                },
            ) && d.root@ == match explicit_path {
                Some(p) => p@,
                None => current_dir@,
            }),
    {
        if which_output.is_none() {
            return Err(HarnessError::BinaryNotFound);
        }
        let version = aider_version(version_output);
        let root = match explicit_path {
            Some(p) => {
                if !explicit_is_dir {
                    return Err(HarnessError::NotADirectory { path: String::from_str(p) });
                }
                String::from_str(p)
            },
            None => String::from_str(current_dir),
        };
        Ok(DetectionResult { harness_id: HarnessId::Aider, root, version })
    }

    /// Discovery of a portable environment is not offered yet.
    pub fn discover(&self) -> (r: Result<PortableEnvironment, HarnessError>)
        ensures
            r matches Err(HarnessError::NotImplemented { id }) && id == HarnessId::Aider,
    {
        Err(HarnessError::NotImplemented { id: HarnessId::Aider })
    }

    /// Runtime preparation is not offered yet.
    pub fn prepare_runtime(&self) -> (r: Result<PreparedRuntime, HarnessError>)
        ensures
            r matches Err(HarnessError::NotImplemented { id }) && id == HarnessId::Aider,
    {
        Err(HarnessError::NotImplemented { id: HarnessId::Aider })
    }
}

} // verus!
