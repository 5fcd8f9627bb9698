//! The bundle manifest: its model, its validation, and the default manifest
//! for the Pi harness.

use vstd::prelude::*;
use vstd::utf8::encode_utf8;
use crate::text::{all_digits, is_all_digits, contains_char, ends_with, split, split_char, str_eq, u64_to_decimal, decimal, views, has_suffix};
use crate::hexfmt::{hex_encode, hex_lower, is_hex_digit, lemma_hex_lower};
use crate::calendar::{format_timestamp, timestamp_text};
use crate::system::{thread_random_16, unix_now_secs};
use vstd::utf8::{is_ascii_chars, is_ascii_chars_encode_utf8};

verus! {

/// Current schema version written by this implementation.
pub const SCHEMA_VERSION: &'static str = "0.2";

/// The version of agentpacknest that writes manifests.
pub const AGENTPACKNEST_VERSION: &'static str = "0.2.0";

// ---------------------------------------------------------------------------
// Model
// ---------------------------------------------------------------------------

#[derive(Debug, Clone)]
pub struct Manifest {
    pub schema_version: String,
    /// Version of agentpacknest that created this bundle.
    pub agentpacknest_version: Option<String>,
    /// Bundle format version.
    pub bundle_version: u32,
    pub bundle: BundleMeta,
    pub harness: HarnessMeta,
    /// Platform where this bundle was created.
    pub platform: Option<PlatformMeta>,
    pub contents: Contents,
    pub packages: Packages,
    pub runtime: Runtime,
    pub launch: Launch,
    pub security: Security,
    pub integrity: Integrity,
    /// Crypto format of the encrypted secrets.
    pub crypto: Option<CryptoMeta>,
    /// Snapshot provenance — populated by `pn pack`.
    pub origin: Option<OriginMeta>,
    /// Minimum agentpacknest version able to read the bundle.
    pub compatibility: Option<Compatibility>,
}

#[derive(Debug, Clone)]
pub struct BundleMeta {
    pub name: String,
    pub id: String,
    pub created_at: String,
    pub created_by: String,
    pub description: Option<String>,
}

#[derive(Debug, Clone)]
pub struct HarnessMeta {
    pub name: String,
    pub version: String,
    pub source: Option<String>,
}

#[derive(Debug, Clone, Copy, PartialEq, Eq, Structural)]
pub struct Contents {
    pub config: bool,
    pub memory: bool,
    pub skills: bool,
    pub secrets: bool,
}

#[derive(Debug, Clone)]
pub struct Packages {
    pub extensions: Vec<PackageEntry>,
    pub skills: Vec<PackageEntry>,
    pub themes: Vec<PackageEntry>,
}

#[derive(Debug, Clone)]
pub struct PackageEntry {
    pub name: String,
    pub version: String,
    pub source: Option<String>,
    pub path: Option<String>,
}

#[derive(Debug, Clone)]
pub struct Runtime {
    pub required: Vec<RuntimeRequirement>,
}

#[derive(Debug, Clone)]
pub struct RuntimeRequirement {
    pub name: String,
    pub min_version: String,
}

#[derive(Debug, Clone)]
pub struct Launch {
    pub command: String,
    pub args: Vec<String>,
    pub working_directory: Option<String>,
}

#[derive(Debug, Clone)]
pub struct Security {
    pub secrets_encrypted: bool,
    pub encryption: Option<String>,
}

#[derive(Debug, Clone)]
pub struct Integrity {
    pub algorithm: String,
    pub checksum: Option<String>,
    pub format_version: u32,
}

#[derive(Debug, Clone, Copy, PartialEq, Eq, Structural)]
pub struct CryptoMeta {
    pub format_version: u32,
}

#[derive(Debug, Clone)]
pub struct Compatibility {
    pub min_agentpacknest_version: String,
}

#[derive(Debug, Clone)]
pub struct PlatformMeta {
    pub os: String,
    pub arch: String,
}

/// Provenance metadata: where and when a bundle was packed.
#[derive(Debug, Clone)]
pub struct OriginMeta {
    /// Hostname of the machine where `pn pack` was run.
    pub origin_machine: String,
    /// ISO 8601 timestamp of when `pn pack` was run.
    pub packed_at: String,
    /// Hash of the harness source state at pack time.
    pub source_state_hash: Option<String>,
}

// ---------------------------------------------------------------------------
// Validation rules
// ---------------------------------------------------------------------------

/// The reasons a manifest can be rejected.
#[derive(Debug, Clone, Copy, PartialEq, Eq, Structural)]
pub enum ValidationKind {
    UnsupportedSchemaVersion,
    UnsupportedBundleFormat,
    UnsupportedIntegrityFormat,
    UnsupportedCryptoFormat,
    EmptyBundleName,
    EmptyBundleId,
    EmptyCreatedBy,
    EmptyHarnessName,
    EmptyHarnessVersion,
    EmptyLaunchCommand,
    EmptyLaunchArg,
    EmptyIntegrityAlgorithm,
    UnknownHarness,
    InvalidBundleId,
    InvalidCreatedAt,
    UnknownIntegrityAlgorithm,
    InvalidIntegrityDigest,
    AbsoluteWorkingDirectory,
    EscapingWorkingDirectory,
    InvalidCompatibility,
}

/// A rejected manifest: the rule it breaks and the offending value.
#[derive(Debug, Clone)]
pub struct ValidationError {
    pub kind: ValidationKind,
    /// The offending value (empty when the rule is about an empty field).
    pub detail: String,
}

/// Number of occurrences of `c` in `s`.
pub open spec fn count_char(s: Seq<char>, c: char) -> nat
    decreases s.len(),
{
    if s.len() == 0 {
        0
    } else {
        count_char(s.drop_last(), c) + (if s.last() == c {
            1nat
        } else {
            0nat
        })
    }
}

/// Basic UUID shape: 36 bytes with exactly four hyphens.
pub open spec fn uuid_shaped(id: Seq<char>) -> bool {
    encode_utf8(id).len() == 36 && count_char(id, '-') == 4
}

/// A timestamp that contains `T` and ends with `Z`.
pub open spec fn iso8601_shaped(ts: Seq<char>) -> bool {
    ts.contains('T') && has_suffix(ts, "Z"@)
}

/// A SHA-256 digest: 64 lower-case hexadecimal digits.
pub open spec fn digest_shaped(d: Seq<char>) -> bool {
    d.len() == 64 && forall|i: int| 0 <= i < d.len() ==> is_hex_digit(#[trigger] d[i])
}

/// A dotted numeric version: non-empty digit runs separated by dots.
pub open spec fn dotted_numeric(v: Seq<char>) -> bool {
    forall|i: int| 0 <= i < split_char(v, '.').len() ==> all_digits(#[trigger] split_char(v, '.')[i])
}

/// Whether walking the path components `parts` from depth `depth` ever goes
/// above the starting directory (`..` goes up, `.` and empty stay).
pub open spec fn climbs_out(parts: Seq<Seq<char>>, depth: int) -> bool
    decreases parts.len(),
{
    if parts.len() == 0 {
        false
    } else {
        let p = parts[0];
        let d = if p == ".."@ {
            depth - 1
        } else if p == "."@ || p.len() == 0 {
            depth
        } else {
            depth + 1
        };
        d < 0 || climbs_out(parts.drop_first(), d)
    }
}

/// A relative working directory that leaves the bundle.
pub open spec fn escapes_bundle(w: Seq<char>) -> bool {
    climbs_out(split_char(w, '/'), 0)
}

/// Some launch argument is empty.
pub open spec fn has_empty_arg(args: Seq<String>) -> bool {
    exists|i: int| 0 <= i < args.len() && args[i]@.len() == 0
}

/// The first rule that a manifest breaks, in the order they are checked.
pub open spec fn first_violation(m: &Manifest) -> Option<ValidationKind> {
    if !(m.schema_version@ == "0.1"@ || m.schema_version@ == "0.2"@) {
        Some(ValidationKind::UnsupportedSchemaVersion)
    } else if m.bundle_version != 1 {
        Some(ValidationKind::UnsupportedBundleFormat)
    } else if m.integrity.format_version != 1 {
        Some(ValidationKind::UnsupportedIntegrityFormat)
    } else if m.crypto matches Some(c) && c.format_version != 1 {
        Some(ValidationKind::UnsupportedCryptoFormat)
    } else if m.bundle.name@.len() == 0 {
        Some(ValidationKind::EmptyBundleName)
    } else if m.bundle.id@.len() == 0 {
        Some(ValidationKind::EmptyBundleId)
    } else if m.bundle.created_by@.len() == 0 {
        Some(ValidationKind::EmptyCreatedBy)
    } else if m.harness.name@.len() == 0 {
        Some(ValidationKind::EmptyHarnessName)
    } else if m.harness.version@.len() == 0 {
        Some(ValidationKind::EmptyHarnessVersion)
    } else if m.launch.command@.len() == 0 {
        Some(ValidationKind::EmptyLaunchCommand)
    } else if has_empty_arg(m.launch.args@) {
        Some(ValidationKind::EmptyLaunchArg)
    } else if m.integrity.algorithm@.len() == 0 {
        Some(ValidationKind::EmptyIntegrityAlgorithm)
    } else if m.harness.name@ != "pi"@ {
        Some(ValidationKind::UnknownHarness)
    } else if !uuid_shaped(m.bundle.id@) {
        Some(ValidationKind::InvalidBundleId)
    } else if !iso8601_shaped(m.bundle.created_at@) {
        Some(ValidationKind::InvalidCreatedAt)
    } else if m.integrity.algorithm@ != "sha256"@ {
        Some(ValidationKind::UnknownIntegrityAlgorithm)
    } else if m.integrity.checksum matches Some(d) && !digest_shaped(d@) {
        Some(ValidationKind::InvalidIntegrityDigest)
    } else if m.launch.working_directory matches Some(w) && w@.len() > 0 && w@[0] == '/' {
        Some(ValidationKind::AbsoluteWorkingDirectory)
    } else if m.launch.working_directory matches Some(w) && escapes_bundle(w@) {
        Some(ValidationKind::EscapingWorkingDirectory)
    } else if m.compatibility matches Some(c) && !dotted_numeric(c.min_agentpacknest_version@) {
        Some(ValidationKind::InvalidCompatibility)
    } else {
        None
    }
}

/// The offending value reported for a violated rule.
pub open spec fn violation_detail(m: &Manifest, k: ValidationKind) -> Seq<char> {
    match k {
        ValidationKind::UnsupportedSchemaVersion => m.schema_version@,
        ValidationKind::UnsupportedBundleFormat => decimal(m.bundle_version as nat),
        ValidationKind::UnsupportedIntegrityFormat => decimal(m.integrity.format_version as nat),
        ValidationKind::UnsupportedCryptoFormat => decimal(m.crypto->Some_0.format_version as nat),
        ValidationKind::UnknownHarness => m.harness.name@,
        ValidationKind::InvalidBundleId => m.bundle.id@,
        ValidationKind::InvalidCreatedAt => m.bundle.created_at@,
        ValidationKind::UnknownIntegrityAlgorithm => m.integrity.algorithm@,
        ValidationKind::InvalidIntegrityDigest => m.integrity.checksum->Some_0@,
        ValidationKind::AbsoluteWorkingDirectory => m.launch.working_directory->Some_0@,
        ValidationKind::EscapingWorkingDirectory => m.launch.working_directory->Some_0@,
        ValidationKind::InvalidCompatibility => m.compatibility->Some_0.min_agentpacknest_version@,
        _ => Seq::empty(),
    }
}

// ---------------------------------------------------------------------------
// Rule checks
// ---------------------------------------------------------------------------

fn count_char_exec(s: &str, c: char) -> (r: usize)
    ensures
        r == count_char(s@, c),
{
    let n = s.unicode_len();
    let mut k: usize = 0;
    let mut i: usize = 0;
    while i < n
        invariant
            n == s@.len(),
            i <= n,
            k == count_char(s@.take(i as int), c),
            k <= i,
        decreases n - i,
    {
        assert(s@.take(i + 1).drop_last() =~= s@.take(i as int));
        if s.get_char(i) == c {
            k = k + 1;
        }
        i = i + 1;
    }
    assert(s@.take(n as int) =~= s@);
    k
}

fn is_uuid_shaped(id: &str) -> (r: bool)
    ensures
        r == uuid_shaped(id@),
{
    id.as_bytes().len() == 36 && count_char_exec(id, '-') == 4
}

fn is_iso8601_shaped(ts: &str) -> (r: bool)
    ensures
        r == iso8601_shaped(ts@),
{
    contains_char(ts, 'T') && ends_with(ts, "Z")
}

fn is_hex_char(c: char) -> (r: bool)
    ensures
        r == is_hex_digit(c),
{
    ('0' <= c && c <= '9') || ('a' <= c && c <= 'f')
}

/// Whether `d` is 64 lower-case hexadecimal digits.
pub fn is_digest_shaped(d: &str) -> (r: bool)
    ensures
        r == digest_shaped(d@),
{
    let n = d.unicode_len();
    if n != 64 {
        return false;
    }
    let mut i: usize = 0;
    while i < n
        invariant
            n == d@.len(),
            i <= n,
            forall|j: int| 0 <= j < i ==> is_hex_digit(#[trigger] d@[j]),
        decreases n - i,
    {
        if !is_hex_char(d.get_char(i)) {
            return false;
        }
        i = i + 1;
    }
    true
}

/// Whether `v` is a dotted numeric version such as `0.1.0`.
pub fn is_dotted_numeric(v: &str) -> (r: bool)
    ensures
        r == dotted_numeric(v@),
{
    let parts = split(v, '.');
    let mut i: usize = 0;
    while i < parts.len()
        invariant
            views(parts@) == split_char(v@, '.'),
            i <= parts@.len(),
            forall|j: int| 0 <= j < i ==> all_digits(#[trigger] split_char(v@, '.')[j]),
        decreases parts@.len() - i,
    {
        assert(views(parts@)[i as int] == parts@[i as int]@);
        if !is_all_digits(parts[i]) {
            return false;
        }
        i = i + 1;
    }
    true
}

fn climbs_out_exec(parts: &Vec<&str>) -> (r: bool)
    ensures
        r == climbs_out(views(parts@), 0),
{
    let mut depth: u64 = 0;
    let mut i: usize = 0;
    proof {
        reveal_strlit("..");
        reveal_strlit(".");
    }
    assert(views(parts@).skip(0) =~= views(parts@));
    while i < parts.len()
        invariant
            i <= parts@.len(),
            depth <= i,
            climbs_out(views(parts@), 0) == climbs_out(views(parts@).skip(i as int), depth as int),
        decreases parts@.len() - i,
    {
        let p = parts[i];
        let ghost rest = views(parts@).skip(i as int);
        assert(rest[0] == p@);
        assert(rest.drop_first() =~= views(parts@).skip(i + 1));
        if str_eq(p, "..") {
            if depth == 0 {
                return true;
            }
            depth = depth - 1;
        } else if str_eq(p, ".") || p.unicode_len() == 0 {
        } else {
            depth = depth + 1;
        }
        i = i + 1;
    }
    false
}

/// Whether the relative working directory `w` leaves the bundle.
pub fn escapes_bundle_exec(w: &str) -> (r: bool)
    ensures
        r == escapes_bundle(w@),
{
    let parts = split(w, '/');
    climbs_out_exec(&parts)
}

fn any_empty_arg(args: &Vec<String>) -> (r: bool)
    ensures
        r == has_empty_arg(args@),
{
    let mut i: usize = 0;
    while i < args.len()
        invariant
            i <= args@.len(),
            forall|j: int| 0 <= j < i ==> args@[j]@.len() != 0,
        decreases args@.len() - i,
    {
        if args[i].as_str().unicode_len() == 0 {
            return true;
        }
        i = i + 1;
    }
    false
}

fn violation(kind: ValidationKind, detail: &str) -> (r: Result<(), ValidationError>)
    ensures
        r matches Err(e) && e.kind == kind && e.detail@ == detail@,
{
    Err(ValidationError { kind, detail: String::from_str(detail) })
}

fn violation_number(kind: ValidationKind, n: u32) -> (r: Result<(), ValidationError>)
    ensures
        r matches Err(e) && e.kind == kind && e.detail@ == decimal(n as nat),
{
    Err(ValidationError { kind, detail: u64_to_decimal(n as u64) })
}

impl Manifest {
    /// Validate the manifest for structural correctness.
    ///
    /// The rules are checked in the order of `first_violation`; the first
    /// broken rule is reported together with the offending value.
    pub fn validate(&self) -> (r: Result<(), ValidationError>)
        ensures
            r is Ok <==> first_violation(self) is None,
            r matches Err(e) ==> first_violation(self) == Some(e.kind) && e.detail@
                == violation_detail(self, e.kind),
    {
        proof {
            reveal_strlit("0.1");
            reveal_strlit("0.2");
            reveal_strlit("pi");
            reveal_strlit("sha256");
            reveal_strlit("");
        }
        let schema = self.schema_version.as_str();
        if !(str_eq(schema, "0.1") || str_eq(schema, "0.2")) {
            return violation(ValidationKind::UnsupportedSchemaVersion, schema);
        }
        if self.bundle_version != 1 {
            return violation_number(ValidationKind::UnsupportedBundleFormat, self.bundle_version);
        }
        if self.integrity.format_version != 1 {
            return violation_number(
                ValidationKind::UnsupportedIntegrityFormat,
                self.integrity.format_version,
            );
        }
        if let Some(c) = &self.crypto {
            if c.format_version != 1 {
                return violation_number(ValidationKind::UnsupportedCryptoFormat, c.format_version);
            }
        }
        if self.bundle.name.as_str().unicode_len() == 0 {
            return violation(ValidationKind::EmptyBundleName, "");
        }
        if self.bundle.id.as_str().unicode_len() == 0 {
            return violation(ValidationKind::EmptyBundleId, "");
        }
        if self.bundle.created_by.as_str().unicode_len() == 0 {
            return violation(ValidationKind::EmptyCreatedBy, "");
        }
        if self.harness.name.as_str().unicode_len() == 0 {
            return violation(ValidationKind::EmptyHarnessName, "");
        }
        if self.harness.version.as_str().unicode_len() == 0 {
            return violation(ValidationKind::EmptyHarnessVersion, "");
        }
        if self.launch.command.as_str().unicode_len() == 0 {
            return violation(ValidationKind::EmptyLaunchCommand, "");
        }
        if any_empty_arg(&self.launch.args) {
            return violation(ValidationKind::EmptyLaunchArg, "");
        }
        if self.integrity.algorithm.as_str().unicode_len() == 0 {
            return violation(ValidationKind::EmptyIntegrityAlgorithm, "");
        }
        if !str_eq(self.harness.name.as_str(), "pi") {
            return violation(ValidationKind::UnknownHarness, self.harness.name.as_str());
        }
        if !is_uuid_shaped(self.bundle.id.as_str()) {
            return violation(ValidationKind::InvalidBundleId, self.bundle.id.as_str());
        }
        if !is_iso8601_shaped(self.bundle.created_at.as_str()) {
            return violation(ValidationKind::InvalidCreatedAt, self.bundle.created_at.as_str());
        }
        if !str_eq(self.integrity.algorithm.as_str(), "sha256") {
            return violation(
                ValidationKind::UnknownIntegrityAlgorithm,
                self.integrity.algorithm.as_str(),
            );
        }
        if let Some(d) = &self.integrity.checksum {
            if !is_digest_shaped(d.as_str()) {
                return violation(ValidationKind::InvalidIntegrityDigest, d.as_str());
            }
        }
        if let Some(w) = &self.launch.working_directory {
            let ws = w.as_str();
            if ws.unicode_len() > 0 && ws.get_char(0) == '/' {
                return violation(ValidationKind::AbsoluteWorkingDirectory, ws);
            }
            if escapes_bundle_exec(ws) {
                return violation(ValidationKind::EscapingWorkingDirectory, ws);
            }
        }
        if let Some(c) = &self.compatibility {
            if !is_dotted_numeric(c.min_agentpacknest_version.as_str()) {
                return violation(
                    ValidationKind::InvalidCompatibility,
                    c.min_agentpacknest_version.as_str(),
                );
            }
        }
        Ok(())
    }
}


// ---------------------------------------------------------------------------
// Messages
// ---------------------------------------------------------------------------

/// The text before the offending value in the message of a violation.
pub open spec fn message_head(k: ValidationKind) -> Seq<char> {
    match k {
        ValidationKind::UnsupportedSchemaVersion => "unsupported schema_version: expected '0.1' or '0.2', got '"@,
        ValidationKind::UnsupportedBundleFormat => "unsupported bundle format version: "@,
        ValidationKind::UnsupportedIntegrityFormat => "unsupported integrity format version: "@,
        ValidationKind::UnsupportedCryptoFormat => "unsupported crypto format version: "@,
        ValidationKind::EmptyBundleName => "bundle.name is empty — give your agent a name"@,
        ValidationKind::EmptyBundleId => "bundle.id is empty — this field is required"@,
        ValidationKind::EmptyCreatedBy => "bundle.created_by is empty"@,
        ValidationKind::EmptyHarnessName => "harness.name is empty — specify which harness this bundle uses"@,
        ValidationKind::EmptyHarnessVersion => "harness.version is empty — specify the harness version"@,
        ValidationKind::EmptyLaunchCommand => "launch.command is empty — specify how to start the agent"@,
        ValidationKind::EmptyLaunchArg => "launch.args contains an empty argument"@,
        ValidationKind::EmptyIntegrityAlgorithm => "integrity.algorithm is empty"@,
        ValidationKind::UnknownHarness => "unknown harness '"@,
        ValidationKind::InvalidBundleId => "bundle.id '"@,
        ValidationKind::InvalidCreatedAt => "bundle.created_at '"@,
        ValidationKind::UnknownIntegrityAlgorithm => "unknown integrity algorithm '"@,
        ValidationKind::InvalidIntegrityDigest => "invalid integrity digest '"@,
        ValidationKind::AbsoluteWorkingDirectory => "launch.working_directory '"@,
        ValidationKind::EscapingWorkingDirectory => "launch.working_directory '"@,
        ValidationKind::InvalidCompatibility => "invalid compatibility.min_agentpacknest_version '"@,
    }
}

/// The text after the offending value in the message of a violation.
pub open spec fn message_tail(k: ValidationKind) -> Seq<char> {
    match k {
        ValidationKind::UnsupportedSchemaVersion => "'\n  hint: this bundle was created with a different version of pn"@,
        ValidationKind::UnknownHarness => "'\n  supported harnesses: pi\n  hint: only 'pi' is supported in pn v0.1"@,
        ValidationKind::InvalidBundleId => "' does not look like a valid UUID\n  expected format: xxxxxxxx-xxxx-4xxx-yxxx-xxxxxxxxxxxx"@,
        ValidationKind::InvalidCreatedAt => "' is not valid ISO 8601\n  expected format: 2025-01-15T12:34:56Z"@,
        ValidationKind::UnknownIntegrityAlgorithm => "'\n  supported: sha256"@,
        ValidationKind::InvalidIntegrityDigest => "'\n  expected 64 lowercase hex characters"@,
        ValidationKind::AbsoluteWorkingDirectory => "' must be relative to the bundle root"@,
        ValidationKind::EscapingWorkingDirectory => "' must stay inside the bundle"@,
        ValidationKind::InvalidCompatibility => "'\n  expected a dotted numeric version such as 0.1.0"@,
        _ => ""@,
    }
}

fn message_head_exec(k: ValidationKind) -> (r: &'static str)
    ensures
        r@ == message_head(k),
{
    match k {
        ValidationKind::UnsupportedSchemaVersion => "unsupported schema_version: expected '0.1' or '0.2', got '",
        ValidationKind::UnsupportedBundleFormat => "unsupported bundle format version: ",
        ValidationKind::UnsupportedIntegrityFormat => "unsupported integrity format version: ",
        ValidationKind::UnsupportedCryptoFormat => "unsupported crypto format version: ",
        ValidationKind::EmptyBundleName => "bundle.name is empty — give your agent a name",
        ValidationKind::EmptyBundleId => "bundle.id is empty — this field is required",
        ValidationKind::EmptyCreatedBy => "bundle.created_by is empty",
        ValidationKind::EmptyHarnessName => "harness.name is empty — specify which harness this bundle uses",
        ValidationKind::EmptyHarnessVersion => "harness.version is empty — specify the harness version",
        ValidationKind::EmptyLaunchCommand => "launch.command is empty — specify how to start the agent",
        ValidationKind::EmptyLaunchArg => "launch.args contains an empty argument",
        ValidationKind::EmptyIntegrityAlgorithm => "integrity.algorithm is empty",
        ValidationKind::UnknownHarness => "unknown harness '",
        ValidationKind::InvalidBundleId => "bundle.id '",
        ValidationKind::InvalidCreatedAt => "bundle.created_at '",
        ValidationKind::UnknownIntegrityAlgorithm => "unknown integrity algorithm '",
        ValidationKind::InvalidIntegrityDigest => "invalid integrity digest '",
        ValidationKind::AbsoluteWorkingDirectory => "launch.working_directory '",
        ValidationKind::EscapingWorkingDirectory => "launch.working_directory '",
        ValidationKind::InvalidCompatibility => "invalid compatibility.min_agentpacknest_version '",
    }
}

fn message_tail_exec(k: ValidationKind) -> (r: &'static str)
    ensures
        r@ == message_tail(k),
{
    match k {
        ValidationKind::UnsupportedSchemaVersion => "'\n  hint: this bundle was created with a different version of pn",
        ValidationKind::UnknownHarness => "'\n  supported harnesses: pi\n  hint: only 'pi' is supported in pn v0.1",
        ValidationKind::InvalidBundleId => "' does not look like a valid UUID\n  expected format: xxxxxxxx-xxxx-4xxx-yxxx-xxxxxxxxxxxx",
        ValidationKind::InvalidCreatedAt => "' is not valid ISO 8601\n  expected format: 2025-01-15T12:34:56Z",
        ValidationKind::UnknownIntegrityAlgorithm => "'\n  supported: sha256",
        ValidationKind::InvalidIntegrityDigest => "'\n  expected 64 lowercase hex characters",
        ValidationKind::AbsoluteWorkingDirectory => "' must be relative to the bundle root",
        ValidationKind::EscapingWorkingDirectory => "' must stay inside the bundle",
        ValidationKind::InvalidCompatibility => "'\n  expected a dotted numeric version such as 0.1.0",
        _ => "",
    }
}

impl ValidationError {
    /// The human-readable description of the violation.
    pub fn message(&self) -> (r: String)
        ensures
            r@ == message_head(self.kind) + self.detail@ + message_tail(self.kind),
    {
        String::from_str(message_head_exec(self.kind)).concat(self.detail.as_str()).concat(
            message_tail_exec(self.kind),
        )
    }
}

// ---------------------------------------------------------------------------
// Default manifest
// ---------------------------------------------------------------------------

/// The bytes of a version-4 UUID: version nibble 4 and RFC 4122 variant.
pub open spec fn uuid_v4_bytes(b: Seq<u8>) -> Seq<u8> {
    b.update(6, (b[6] & 0x0f) | 0x40).update(8, (b[8] & 0x3f) | 0x80)
}

/// The textual form of a UUID: 8-4-4-4-12 lower-case hex digits.
pub open spec fn uuid_text(b: Seq<u8>) -> Seq<char> {
    let h = hex_lower(uuid_v4_bytes(b));
    h.subrange(0, 8) + seq!['-'] + h.subrange(8, 12) + seq!['-'] + h.subrange(12, 16) + seq!['-']
        + h.subrange(16, 20) + seq!['-'] + h.subrange(20, 32)
}

/// Format 16 random bytes as a version-4 UUID.
pub fn uuid_v4_from_bytes(bytes: Vec<u8>) -> (r: String)
    requires
        bytes@.len() == 16,
    ensures
        r@ == uuid_text(bytes@),
{
    let mut b = bytes;
    let b6 = (b[6] & 0x0f) | 0x40;
    b.set(6, b6);
    let b8 = (b[8] & 0x3f) | 0x80;
    b.set(8, b8);
    assert(b@ =~= uuid_v4_bytes(bytes@));
    let h = hex_encode(b.as_slice());
    proof {
        lemma_hex_lower(b@);
    }
    let hs = h.as_str();
    let mut r = String::from_str(hs.substring_char(0, 8));
    r.append("-");
    r.append(hs.substring_char(8, 12));
    r.append("-");
    r.append(hs.substring_char(12, 16));
    r.append("-");
    r.append(hs.substring_char(16, 20));
    r.append("-");
    r.append(hs.substring_char(20, 32));
    proof {
        reveal_strlit("-");
    }
    assert(r@ =~= uuid_text(bytes@));
    r
}

/// A fresh random version-4 UUID.
pub fn uuid_v4() -> (r: String)
    ensures
        exists|b: Seq<u8>| b.len() == 16 && r@ == uuid_text(b),
{
    let bytes = thread_random_16();
    uuid_v4_from_bytes(bytes)
}

/// Some well-formed timestamp text of a valid date and time of day.
pub open spec fn is_timestamp_text(s: Seq<char>) -> bool {
    exists|y: nat, mo: nat, d: nat, h: nat, mi: nat, sec: nat|
        #![trigger timestamp_text(y, mo, d, h, mi, sec)]
        s == timestamp_text(y, mo, d, h, mi, sec)
}

/// The current time as an ISO 8601 UTC timestamp.
pub fn now_iso8601() -> (r: String)
    ensures
        is_timestamp_text(r@),
{
    let secs = unix_now_secs();
    format_timestamp(secs)
}

/// `m` is the default Pi manifest for `name`, `harness_version`,
/// `created_by` and a platform, with some identifier and creation time.
pub open spec fn is_default_pi(
    m: Manifest,
    name: Seq<char>,
    harness_version: Seq<char>,
    created_by: Seq<char>,
) -> bool {
    &&& m.schema_version@ == "0.2"@
    &&& m.agentpacknest_version matches Some(v) && v@ == "0.2.0"@
    &&& m.bundle_version == 1
    &&& m.bundle.name@ == name
    &&& (exists|b: Seq<u8>| b.len() == 16 && m.bundle.id@ == uuid_text(b))
    &&& is_timestamp_text(m.bundle.created_at@)
    &&& m.bundle.created_by@ == created_by
    &&& m.bundle.description matches Some(d) && d@ == "Agent bundle for harness pi"@
    &&& m.harness.name@ == "pi"@
    &&& m.harness.version@ == harness_version
    &&& m.harness.source is None
    &&& m.platform is Some
    &&& m.contents == Contents { config: false, memory: false, skills: false, secrets: false }
    &&& m.packages.extensions@.len() == 0
    &&& m.packages.skills@.len() == 0
    &&& m.packages.themes@.len() == 0
    &&& m.runtime.required@.len() == 1
    &&& m.runtime.required@[0].name@ == "pi-runtime"@
    &&& m.runtime.required@[0].min_version@ == "0.1.0"@
    &&& m.launch.command@ == "pi"@
    &&& m.launch.args@.map_values(|a: String| a@) == seq!["--agent-dir"@, "agent"@]
    &&& m.launch.working_directory matches Some(w) && w@ == "."@
    &&& !m.security.secrets_encrypted
    &&& m.security.encryption is None
    &&& m.integrity.algorithm@ == "sha256"@
    &&& m.integrity.checksum is None
    &&& m.integrity.format_version == 1
    &&& m.crypto is None
    &&& m.origin is None
    &&& m.compatibility is None
}

/// Create a default manifest pre-configured for the "pi" harness.
///
/// `created_by` names the user creating the bundle and `platform` the
/// machine it is created on; the bundle identifier is a fresh random UUID
/// and the creation time is the current time.
pub fn default_pi(name: &str, harness_version: &str, created_by: &str, platform: PlatformMeta) -> (r: Manifest)
    ensures
        is_default_pi(r, name@, harness_version@, created_by@),
        r.platform matches Some(p) && p.os@ == platform.os@ && p.arch@ == platform.arch@,
{
    let required = vec![
        RuntimeRequirement {
            name: String::from_str("pi-runtime"),
            min_version: String::from_str("0.1.0"),
        },
    ];
    let mut launch_args: Vec<String> = Vec::new();
    launch_args.push(String::from_str("--agent-dir"));
    launch_args.push(String::from_str("agent"));
    assert(launch_args@.map_values(|a: String| a@) =~= seq!["--agent-dir"@, "agent"@]);
    let m = Manifest {
        schema_version: String::from_str(SCHEMA_VERSION),
        agentpacknest_version: Some(String::from_str(AGENTPACKNEST_VERSION)),
        bundle_version: 1,
        bundle: BundleMeta {
            name: String::from_str(name),
            id: uuid_v4(),
            created_at: now_iso8601(),
            created_by: String::from_str(created_by),
            description: Some(String::from_str("Agent bundle for harness pi")),
        },
        harness: HarnessMeta {
            name: String::from_str("pi"),
            version: String::from_str(harness_version),
            source: None,
        },
        platform: Some(platform),
        contents: Contents { config: false, memory: false, skills: false, secrets: false },
        packages: Packages { extensions: Vec::new(), skills: Vec::new(), themes: Vec::new() },
        runtime: Runtime { required },
        launch: Launch {
            command: String::from_str("pi"),
            args: launch_args,
            working_directory: Some(String::from_str(".")),
        },
        security: Security { secrets_encrypted: false, encryption: None },
        integrity: Integrity {
            algorithm: String::from_str("sha256"),
            checksum: None,
            format_version: 1,
        },
        crypto: None,
        origin: None,
        compatibility: None,
    };
    m
}

// ---------------------------------------------------------------------------
// Laws
// ---------------------------------------------------------------------------

proof fn lemma_count_char_concat(a: Seq<char>, b: Seq<char>, c: char)
    ensures
        count_char(a + b, c) == count_char(a, c) + count_char(b, c),
    decreases b.len(),
{
    if b.len() > 0 {
        lemma_count_char_concat(a, b.drop_last(), c);
        assert((a + b).drop_last() =~= a + b.drop_last());
    } else {
        assert(a + b =~= a);
    }
}

proof fn lemma_count_char_absent(s: Seq<char>, c: char)
    requires
        forall|i: int| 0 <= i < s.len() ==> s[i] != c,
    ensures
        count_char(s, c) == 0,
    decreases s.len(),
{
    if s.len() > 0 {
        lemma_count_char_absent(s.drop_last(), c);
    }
}

/// A textual UUID has the shape that validation asks of a bundle id.
pub proof fn lemma_uuid_text_shaped(b: Seq<u8>)
    requires
        b.len() == 16,
    ensures
        uuid_shaped(uuid_text(b)),
{
    let v = uuid_v4_bytes(b);
    lemma_hex_lower(v);
    let h = hex_lower(v);
    let p0 = h.subrange(0, 8);
    let p1 = h.subrange(8, 12);
    let p2 = h.subrange(12, 16);
    let p3 = h.subrange(16, 20);
    let p4 = h.subrange(20, 32);
    let dash = seq!['-'];
    let u = uuid_text(b);
    assert(u == p0 + dash + p1 + dash + p2 + dash + p3 + dash + p4);
    assert forall|i: int| 0 <= i < u.len() implies '\0' <= #[trigger] u[i] <= '\u{7f}' by {
        if u[i] != '-' {
            assert(exists|j: int| 0 <= j < h.len() && u[i] == h[j]);
        }
    }
    assert(is_ascii_chars(u));
    is_ascii_chars_encode_utf8(u);
    lemma_count_char_absent(p0, '-');
    lemma_count_char_absent(p1, '-');
    lemma_count_char_absent(p2, '-');
    lemma_count_char_absent(p3, '-');
    lemma_count_char_absent(p4, '-');
    assert(count_char(dash, '-') == 1) by {
        assert(dash.drop_last() =~= Seq::<char>::empty());
        assert(count_char(Seq::<char>::empty(), '-') == 0);
        assert(dash.last() == '-');
    }
    lemma_count_char_concat(p0, dash, '-');
    lemma_count_char_concat(p0 + dash, p1, '-');
    lemma_count_char_concat(p0 + dash + p1, dash, '-');
    lemma_count_char_concat(p0 + dash + p1 + dash, p2, '-');
    lemma_count_char_concat(p0 + dash + p1 + dash + p2, dash, '-');
    lemma_count_char_concat(p0 + dash + p1 + dash + p2 + dash, p3, '-');
    lemma_count_char_concat(p0 + dash + p1 + dash + p2 + dash + p3, dash, '-');
    lemma_count_char_concat(p0 + dash + p1 + dash + p2 + dash + p3 + dash, p4, '-');
}

/// Timestamp texts have the shape that validation asks of `created_at`.
pub proof fn lemma_timestamp_text_shaped(y: nat, mo: nat, d: nat, h: nat, mi: nat, sec: nat)
    ensures
        iso8601_shaped(timestamp_text(y, mo, d, h, mi, sec)),
{
    let t = timestamp_text(y, mo, d, h, mi, sec);
    let pre = crate::text::decimal_padded(y, 4) + seq!['-'] + crate::text::decimal_padded(mo, 2)
        + seq!['-'] + crate::text::decimal_padded(d, 2);
    let post = crate::text::decimal_padded(h, 2) + seq![':'] + crate::text::decimal_padded(mi, 2)
        + seq![':'] + crate::text::decimal_padded(sec, 2);
    assert(t =~= pre + seq!['T'] + post + seq!['Z']);
    assert(t[pre.len() as int] == 'T');
    reveal_strlit("Z");
    assert(t.skip(t.len() - 1) =~= "Z"@);
}

/// The default Pi manifest passes validation whenever the bundle name, the
/// harness version and the creator are non-empty.
pub proof fn lemma_default_pi_is_valid(
    m: Manifest,
    name: Seq<char>,
    harness_version: Seq<char>,
    created_by: Seq<char>,
)
    requires
        is_default_pi(m, name, harness_version, created_by),
        name.len() > 0,
        harness_version.len() > 0,
        created_by.len() > 0,
    ensures
        first_violation(&m) is None,
{
    reveal_strlit("0.2");
    reveal_strlit("0.1");
    reveal_strlit("pi");
    reveal_strlit("sha256");
    reveal_strlit("--agent-dir");
    reveal_strlit("agent");
    reveal_strlit(".");
    reveal_strlit("..");
    let b = choose|b: Seq<u8>| b.len() == 16 && m.bundle.id@ == uuid_text(b);
    lemma_uuid_text_shaped(b);
    assert(m.bundle.id@.len() > 0) by {
        if m.bundle.id@.len() == 0 {
            assert(m.bundle.id@ =~= Seq::<char>::empty());
            assert(encode_utf8(Seq::<char>::empty()) =~= Seq::<u8>::empty());
        }
    }
    let (y, mo, d, h, mi, sec) = choose|y: nat, mo: nat, d: nat, h: nat, mi: nat, sec: nat|
        m.bundle.created_at@ == timestamp_text(y, mo, d, h, mi, sec);
    lemma_timestamp_text_shaped(y, mo, d, h, mi, sec);
    let w = m.launch.working_directory->Some_0@;
    assert(w == seq!['.']);
    assert(crate::text::split_char(w, '/') =~= seq![w]) by {
        reveal_with_fuel(crate::text::find_pat, 2);
        assert(w.drop_first() =~= Seq::<char>::empty());
        assert(crate::text::find_char(w, '/') == -1);
    }
    assert(!escapes_bundle(w)) by {
        reveal_with_fuel(climbs_out, 2);
        let parts = crate::text::split_char(w, '/');
        assert(parts[0] == "."@);
        assert(parts[0] != ".."@);
        assert(parts.drop_first() =~= Seq::<Seq<char>>::empty());
    }
    assert(!has_empty_arg(m.launch.args@)) by {
        let args = m.launch.args@;
        assert(args.map_values(|a: String| a@)[0] == "--agent-dir"@);
        assert(args.map_values(|a: String| a@)[1] == "agent"@);
        reveal_strlit("--agent-dir");
        reveal_strlit("agent");
        assert(args.map_values(|a: String| a@).len() == 2);
        assert(args.len() == 2);
        assert(args[0]@ == "--agent-dir"@);
        assert(args[1]@ == "agent"@);
        assert forall|i: int| 0 <= i < args.len() implies args[i]@.len() != 0 by {
            if i == 0 {
            } else {
                assert(i == 1);
            }
        }
    }
}

/// A manifest passes validation exactly when it keeps every rule: a
/// supported schema (`0.1` or `0.2`) and format versions, non-empty
/// required fields and launch arguments, the `pi` harness, a UUID-shaped id,
/// an ISO 8601 creation time, `sha256` with a well-formed digest, a working
/// directory that is relative and stays inside the bundle, and a dotted
/// numeric minimum version.
pub proof fn lemma_valid_manifest_keeps_every_rule(m: &Manifest)
    ensures
        first_violation(m) is None <==> {
            &&& m.schema_version@ == "0.1"@ || m.schema_version@ == "0.2"@
            &&& m.bundle_version == 1
            &&& m.integrity.format_version == 1
            &&& (m.crypto is Some ==> m.crypto->Some_0.format_version == 1)
            &&& m.bundle.name@.len() > 0 && m.bundle.id@.len() > 0 && m.bundle.created_by@.len() > 0
            &&& m.harness.name@ == "pi"@ && m.harness.version@.len() > 0
            &&& m.launch.command@.len() > 0
            &&& forall|i: int| 0 <= i < m.launch.args@.len() ==> (#[trigger] m.launch.args@[i])@.len() > 0
            &&& uuid_shaped(m.bundle.id@)
            &&& iso8601_shaped(m.bundle.created_at@)
            &&& m.integrity.algorithm@ == "sha256"@
            &&& (m.integrity.checksum is Some ==> digest_shaped(m.integrity.checksum->Some_0@))
            &&& (m.launch.working_directory is Some ==> !(m.launch.working_directory->Some_0@.len() > 0
                && m.launch.working_directory->Some_0@[0] == '/') && !escapes_bundle(
                m.launch.working_directory->Some_0@,
            ))
            &&& (m.compatibility is Some ==> dotted_numeric(
                m.compatibility->Some_0.min_agentpacknest_version@,
            ))
        },
{
    reveal_strlit("pi");
    reveal_strlit("sha256");
    if m.harness.name@ == "pi"@ {
        assert(m.harness.name@.len() > 0);
    }
    if m.integrity.algorithm@ == "sha256"@ {
        assert(m.integrity.algorithm@.len() > 0);
    }
}

/// A working directory whose first component is `..` leaves the bundle; one
/// without any `..` component never does.
pub proof fn lemma_escape_needs_parent(parts: Seq<Seq<char>>, depth: int)
    ensures
        depth == 0 && parts.len() > 0 && parts[0] == ".."@ ==> climbs_out(parts, depth),
        depth >= 0 && !parts.contains(".."@) ==> !climbs_out(parts, depth),
    decreases parts.len(),
{
    if parts.len() > 0 {
        lemma_escape_needs_parent(parts.drop_first(), depth + 1);
        lemma_escape_needs_parent(parts.drop_first(), depth);
        if !parts.contains(".."@) {
            assert(parts[0] != ".."@);
            assert(!parts.drop_first().contains(".."@)) by {
                if parts.drop_first().contains(".."@) {
                    let k = choose|k: int| 0 <= k < parts.drop_first().len() && parts.drop_first()[k] == ".."@;
                    assert(parts[k + 1] == ".."@);
                }
            }
        }
    }
}

} // verus!
