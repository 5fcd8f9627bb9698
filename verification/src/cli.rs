//! The command line of `pn`, as plain data.
//!
//! Parsing the arguments is done by the program around the library; these
//! are the values it hands over.

use vstd::prelude::*;

verus! {

/// The parsed command line.
#[derive(Debug)]
pub struct Cli {
    pub command: Commands,
}

/// The subcommands of `pn`.
#[derive(Debug)]
pub enum Commands {
    /// Create a new agent bundle from a harness installation.
    Init { harness: String, path: Option<String>, name: Option<String>, output: Option<String> },
    /// Pack configuration, memory, skills and secrets into a bundle.
    Pack {
        bundle: Option<String>,
        path: Option<String>,
        with_config: bool,
        with_memory: bool,
        with_skills: bool,
        with_secrets: bool,
        all: bool,
        archive: bool,
        encrypt_archive: bool,
        force: bool,
    },
    /// Decrypt an encrypted archive.
    Decrypt { file: String },
    /// Run the agent of a bundle.
    Run {
        bundle: Option<String>,
        passphrase: Option<String>,
        workdir: Option<String>,
        dry_run: bool,
        allow_unverified: bool,
        max_age: Option<String>,
        args: Vec<String>,
    },
    /// Compare a bundle with the local harness.
    Diff { bundle: Option<String>, path: Option<String> },
    /// Show bundle information.
    Info { bundle: String },
    /// Decrypt and show the secrets.
    Unlock { bundle: Option<String>, show: bool, env: bool },
    /// Change the secrets passphrase.
    Rekey { bundle: Option<String> },
}

} // verus!
