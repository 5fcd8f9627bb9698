//! Running an agent from a bundle: the decisions taken before the agent is
//! started.
//!
//! The caller reads the bundle from disk; the functions here decide, from
//! what was read, whether the bundle may run, how fresh it is, and what
//! environment the agent gets.

use vstd::prelude::*;
use crate::text::{
    trimmed, split_char, parse_u64_spec, decimal, views, trim, split, parse_u64,
    u64_to_decimal, lemma_decimal_parses, is_ws, strip_start, strip_end, Pat,
    lemma_split_pat_cons, lemma_split_pat_none,
};
use crate::paths::{join_spec, join};
use crate::calendar::{parse_timestamp_spec, timestamp_in_domain, parse_iso8601_secs};
use crate::domain::manifest::{Manifest, AGENTPACKNEST_VERSION};
use crate::security::secrets::SecretsBundle;
use crate::infrastructure::process::{RuntimeEnvironment, insert_all};
use crate::pairmap::pairs_to_map;
use crate::application::trust::{
    TrustError, TrustWarning, trust_decision, checksum_check_spec, signature_check_spec,
    verify_bundle_integrity_and_signature, lemma_strict_run_requires_proof_of_integrity,
};
use crate::security::integrity::checksum_spec;
use crate::security::signing::{SigningError, verify_spec};
use crate::security::integrity::PayloadFile;
use crate::domain::harness::{HarnessId, harness_from_name};
use crate::harness::registry::HarnessRegistry;
use crate::harness::traits::{Harness, HarnessError, PrepareRuntimeRequest, PreparedRuntime};
use crate::harness::pi::{pi_prepare_outcome, launch_args};
use crate::harness::traits::clone_strings;
use crate::domain::manifest::Launch;

verus! {

/// Default freshness threshold: seven days.
pub const DEFAULT_MAX_AGE_SECS: u64 = 604800;

/// Request to run a bundle.
pub struct RunBundleRequest {
    pub bundle_path: String,
    pub passphrase: Option<String>,
    pub workdir: Option<String>,
    pub dry_run: bool,
    pub allow_unverified: bool,
    pub args: Vec<String>,
    pub max_age_secs: u64,
}

/// Result of a run.
pub struct RunResult {
    pub exit_code: i32,
    pub dry_run: bool,
}

// ---------------------------------------------------------------------------
// Freshness threshold
// ---------------------------------------------------------------------------

/// Why a duration was refused.
#[derive(Debug, Clone, Copy, PartialEq, Eq, Structural)]
pub enum DurationError {
    /// Nothing but whitespace.
    Empty,
    /// The number part is not a non-negative integer.
    NotANumber,
    /// The duration is zero.
    Zero,
    /// The number of seconds does not fit in 64 bits.
    TooLarge,
}

/// The number part and the seconds per unit of a trimmed duration: a
/// trailing `d` (days), `h` (hours) or `w` (weeks), else a bare number of
/// days.
pub open spec fn duration_unit(raw: Seq<char>) -> (Seq<char>, nat) {
    if raw.len() > 0 && raw.last() == 'd' {
        (raw.drop_last(), 86400)
    } else if raw.len() > 0 && raw.last() == 'h' {
        (raw.drop_last(), 3600)
    } else if raw.len() > 0 && raw.last() == 'w' {
        (raw.drop_last(), 604800)
    } else {
        (raw, 86400)
    }
}

/// The number of seconds a duration text denotes.
pub open spec fn duration_spec(input: Seq<char>) -> Result<u64, DurationError> {
    let raw = trimmed(input);
    if raw.len() == 0 {
        Err(DurationError::Empty)
    } else {
        let (digits, mult) = duration_unit(raw);
        match parse_u64_spec(trimmed(digits)) {
            None => Err(DurationError::NotANumber),
            Some(n) => if n == 0 {
                Err(DurationError::Zero)
            } else if n * mult > u64::MAX {
                Err(DurationError::TooLarge)
            } else {
                Ok((n * mult) as u64)
            },
        }
    }
}

/// Parse a freshness duration: `Nd`, `Nh`, `Nw` or a bare number of days.
pub fn parse_duration_secs(input: &str) -> (r: Result<u64, DurationError>)
    ensures
        r == duration_spec(input@),
{
    let raw = trim(input);
    let n = raw.unicode_len();
    if n == 0 {
        return Err(DurationError::Empty);
    }
    let last = raw.get_char(n - 1);
    let (digits, mult): (&str, u64) = if last == 'd' {
        (raw.substring_char(0, n - 1), 86400)
    } else if last == 'h' {
        (raw.substring_char(0, n - 1), 3600)
    } else if last == 'w' {
        (raw.substring_char(0, n - 1), 604800)
    } else {
        (raw.substring_char(0, n), 86400)
    };
    assert(raw@.subrange(0, n - 1) =~= raw@.drop_last());
    assert(raw@.subrange(0, n as int) =~= raw@);
    assert(digits@ == duration_unit(raw@).0 && mult == duration_unit(raw@).1);
    let value = match parse_u64(trim(digits)) {
        Some(v) => v,
        None => {
            return Err(DurationError::NotANumber);
        },
    };
    if value == 0 {
        return Err(DurationError::Zero);
    }
    match value.checked_mul(mult) {
        Some(s) => Ok(s),
        None => Err(DurationError::TooLarge),
    }
}

/// Where a refused freshness threshold came from.
#[derive(Debug, Clone, Copy, PartialEq, Eq, Structural)]
pub enum MaxAgeError {
    /// The `--max-age` flag.
    Flag(DurationError),
    /// The `AGENTPACKNEST_MAX_AGE` environment variable.
    Env(DurationError),
}

/// The freshness threshold: the flag wins, then a non-blank environment
/// value, then the default.
pub open spec fn max_age_spec(flag: Option<Seq<char>>, env_value: Option<Seq<char>>) -> Result<
    u64,
    MaxAgeError,
> {
    match flag {
        Some(f) => match duration_spec(f) {
            Ok(s) => Ok(s),
            Err(e) => Err(MaxAgeError::Flag(e)),
        },
        None => match env_value {
            Some(v) => if trimmed(v).len() > 0 {
                match duration_spec(v) {
                    Ok(s) => Ok(s),
                    Err(e) => Err(MaxAgeError::Env(e)),
                }
            } else {
                Ok(DEFAULT_MAX_AGE_SECS)
            },
            None => Ok(DEFAULT_MAX_AGE_SECS),
        },
    }
}

/// Resolve the freshness threshold in seconds from the `--max-age` flag and
/// the value of the `AGENTPACKNEST_MAX_AGE` environment variable.
pub fn resolve_max_age_secs(flag: Option<&str>, env_value: Option<&str>) -> (r: Result<
    u64,
    MaxAgeError,
>)
    ensures
        r == max_age_spec(
            match flag {
                Some(f) => Some(f@),
                None => None,
            },
            match env_value {
                Some(v) => Some(v@),
                None => None,
            },
        ),
{
    if let Some(value) = flag {
        return match parse_duration_secs(value) {
            Ok(s) => Ok(s),
            Err(e) => Err(MaxAgeError::Flag(e)),
        };
    }
    if let Some(value) = env_value {
        if trim(value).unicode_len() > 0 {
            return match parse_duration_secs(value) {
                Ok(s) => Ok(s),
                Err(e) => Err(MaxAgeError::Env(e)),
            };
        }
    }
    Ok(DEFAULT_MAX_AGE_SECS)
}

// ---------------------------------------------------------------------------
// Staleness
// ---------------------------------------------------------------------------

/// The bundle's age when it is older than the threshold; none when it is
/// fresh enough, has no origin, or its pack time cannot be read.
pub open spec fn stale_spec(m: &Manifest, now_secs: u64, max_age_secs: u64) -> Option<u64> {
    match m.origin {
        None => None,
        Some(o) => match parse_timestamp_spec(o.packed_at@) {
            Err(_) => None,
            Ok(p) => {
                let age = if now_secs >= p {
                    (now_secs - p) as u64
                } else {
                    0u64
                };
                if age > max_age_secs {
                    Some(age)
                } else {
                    None
                }
            },
        },
    }
}

/// The bundle's age in seconds when it is older than `max_age_secs`.
pub fn stale_age_secs(m: &Manifest, now_secs: u64, max_age_secs: u64) -> (r: Option<u64>)
    requires
        m.origin matches Some(o) ==> timestamp_in_domain(o.packed_at@),
    ensures
        r == stale_spec(m, now_secs, max_age_secs),
{
    match &m.origin {
        None => None,
        Some(o) => match parse_iso8601_secs(o.packed_at.as_str()) {
            Err(_) => None,
            Ok(p) => {
                let age = now_secs.saturating_sub(p);
                if age > max_age_secs {
                    Some(age)
                } else {
                    None
                }
            },
        },
    }
}

/// ` days`, ` hours`, ` minutes`
pub open spec fn unit_text(u: int) -> Seq<char> {
    if u == 0 {
        seq![' ', 'd', 'a', 'y', 's']
    } else if u == 1 {
        seq![' ', 'h', 'o', 'u', 'r', 's']
    } else {
        seq![' ', 'm', 'i', 'n', 'u', 't', 'e', 's']
    }
}

/// An age in the largest whole unit: days from one day on, hours from one
/// hour on, else minutes (at least one).
pub open spec fn age_text(age: u64) -> Seq<char> {
    if age >= 86400 {
        decimal((age / 86400) as nat) + unit_text(0)
    } else if age >= 3600 {
        decimal((age / 3600) as nat) + unit_text(1)
    } else {
        let m = age / 60;
        decimal((if m >= 1 {
            m
        } else {
            1
        }) as nat) + unit_text(2)
    }
}

/// Human-friendly age for the staleness warning.
pub fn format_age(age_secs: u64) -> (r: String)
    ensures
        r@ == age_text(age_secs),
{
    proof {
        reveal_strlit(" days");
        reveal_strlit(" hours");
        reveal_strlit(" minutes");
    }
    if age_secs >= 86400 {
        let r = u64_to_decimal(age_secs / 86400).concat(" days");
        assert(r@ =~= age_text(age_secs));
        r
    } else if age_secs >= 3600 {
        let r = u64_to_decimal(age_secs / 3600).concat(" hours");
        assert(r@ =~= age_text(age_secs));
        r
    } else {
        let m = age_secs / 60;
        let n = if m >= 1 {
            m
        } else {
            1
        };
        let r = u64_to_decimal(n).concat(" minutes");
        assert(r@ =~= age_text(age_secs));
        r
    }
}

// ---------------------------------------------------------------------------
// Compatibility
// ---------------------------------------------------------------------------

/// The numeric parts of a dotted version (unreadable parts count as 0).
pub open spec fn version_parts(v: Seq<char>) -> Seq<u64> {
    split_char(v, '.').map_values(
        |p: Seq<char>|
            match parse_u64_spec(p) {
                Some(n) => n,
                None => 0u64,
            },
    )
}

/// Part `i` of a version, 0 past its end.
pub open spec fn part_at(p: Seq<u64>, i: int) -> u64 {
    if 0 <= i < p.len() {
        p[i]
    } else {
        0
    }
}

/// Comparing versions from part `i` on.
pub open spec fn parts_lt_from(a: Seq<u64>, b: Seq<u64>, i: nat) -> bool
    decreases (if a.len() > b.len() {
        a.len()
    } else {
        b.len()
    }) - i,
{
    if i >= a.len() && i >= b.len() {
        false
    } else if part_at(a, i as int) != part_at(b, i as int) {
        part_at(a, i as int) < part_at(b, i as int)
    } else {
        parts_lt_from(a, b, i + 1)
    }
}

/// `a` is an older dotted numeric version than `b` (missing parts are 0).
pub open spec fn version_lt_spec(a: Seq<char>, b: Seq<char>) -> bool {
    parts_lt_from(version_parts(a), version_parts(b), 0)
}

fn parse_parts(v: &str) -> (r: Vec<u64>)
    ensures
        r@ == version_parts(v@),
{
    let pieces = split(v, '.');
    let mut out: Vec<u64> = Vec::new();
    let mut i: usize = 0;
    while i < pieces.len()
        invariant
            i <= pieces@.len(),
            views(pieces@) == split_char(v@, '.'),
            out@ == version_parts(v@).take(i as int),
        decreases pieces@.len() - i,
    {
        let n = match parse_u64(pieces[i]) {
            Some(n) => n,
            None => 0,
        };
        assert(pieces@[i as int]@ == split_char(v@, '.')[i as int]);
        out.push(n);
        assert(out@ =~= version_parts(v@).take(i + 1));
        i = i + 1;
    }
    assert(version_parts(v@).take(pieces@.len() as int) =~= version_parts(v@));
    out
}

/// Whether dotted version `a` is older than `b`.
pub fn version_lt(a: &str, b: &str) -> (r: bool)
    ensures
        r == version_lt_spec(a@, b@),
{
    let pa = parse_parts(a);
    let pb = parse_parts(b);
    let n = if pa.len() > pb.len() {
        pa.len()
    } else {
        pb.len()
    };
    let mut i: usize = 0;
    while i < n
        invariant
            i <= n,
            n == (if pa@.len() > pb@.len() {
                pa@.len()
            } else {
                pb@.len()
            }),
            parts_lt_from(pa@, pb@, 0) == parts_lt_from(pa@, pb@, i as nat),
            pa@ == version_parts(a@),
            pb@ == version_parts(b@),
        decreases n - i,
    {
        let va = if i < pa.len() {
            pa[i]
        } else {
            0
        };
        let vb = if i < pb.len() {
            pb[i]
        } else {
            0
        };
        assert(va == part_at(pa@, i as int) && vb == part_at(pb@, i as int));
        if va != vb {
            assert(!(i >= pa@.len() && i >= pb@.len()));
            assert(parts_lt_from(pa@, pb@, i as nat) == (va < vb));
            return va < vb;
        }
        assert(parts_lt_from(pa@, pb@, i as nat) == parts_lt_from(pa@, pb@, (i + 1) as nat));
        i = i + 1;
    }
    false
}

/// A bundle that needs a newer agentpacknest than the running one.
#[derive(Debug, Clone, PartialEq, Eq)]
pub struct CompatibilityError {
    pub required: String,
    pub current: String,
}

/// Refuse to run a bundle that requires a newer agentpacknest.
pub fn check_compatibility(m: &Manifest) -> (r: Result<(), CompatibilityError>)
    ensures
        match m.compatibility {
            None => r is Ok,
            Some(c) => if version_lt_spec(AGENTPACKNEST_VERSION@, c.min_agentpacknest_version@) {
                r matches Err(e) && e.required@ == c.min_agentpacknest_version@ && e.current@
                    == AGENTPACKNEST_VERSION@
            } else {
                r is Ok
            },
        },
{
    match &m.compatibility {
        None => Ok(()),
        Some(c) => {
            if version_lt(AGENTPACKNEST_VERSION, c.min_agentpacknest_version.as_str()) {
                Err(
                    CompatibilityError {
                        required: c.min_agentpacknest_version.clone(),
                        current: String::from_str(AGENTPACKNEST_VERSION),
                    },
                )
            } else {
                Ok(())
            }
        },
    }
}

/// Whether the bundle needs a newer agentpacknest than this one.
pub open spec fn needs_newer(m: Manifest) -> bool {
    m.compatibility matches Some(c) && version_lt_spec(
        AGENTPACKNEST_VERSION@,
        c.min_agentpacknest_version@,
    )
}

/// Why a bundle may not run.
#[derive(Debug, Clone, PartialEq, Eq)]
pub enum RunError {
    /// The integrity or signature check failed (without the override).
    Trust(TrustError),
    /// The bundle needs a newer agentpacknest.
    Incompatible(CompatibilityError),
    /// The harness is unknown or its runtime cannot be prepared.
    Harness(HarnessError),
}

/// A bundle cleared to run: the trust failures let through by the override,
/// and the prepared launch.
#[derive(Debug)]
pub struct RunAuthorization {
    pub warnings: Vec<TrustWarning>,
    pub prepared: PreparedRuntime,
}

/// The checks made before anything of a bundle is decrypted or started, in
/// their order: integrity and signature (`--allow-unverified` turns their
/// failures into warnings), then compatibility, then the harness's runtime
/// (neither of which the override affects). `files` is `None` when the
/// payload could not be read, `sig` and `public_key` are `None` when the
/// bundle lacks them, `node` is the output of `node --version`.
pub fn authorize_run(
    m: &Manifest,
    bundle_root: &str,
    files: Option<Vec<PayloadFile>>,
    canonical: &[u8],
    sig: Option<&[u8]>,
    public_key: Option<&[u8]>,
    allow_unverified: bool,
    node: Option<&str>,
) -> (r: Result<RunAuthorization, RunError>)
    ensures
        match trust_decision(
            checksum_check_spec(
                match m.integrity.checksum {
                    Some(c) => Some(c@),
                    None => None,
                },
                match files {
                    Some(fs) => Some(fs@),
                    None => None,
                },
            ),
            signature_check_spec(
                canonical@,
                match sig {
                    Some(x) => Some(x@),
                    None => None,
                },
                match public_key {
                    Some(k) => Some(k@),
                    None => None,
                },
            ),
            allow_unverified,
        ) {
            Err(e) => r == Err::<RunAuthorization, RunError>(RunError::Trust(e)),
            Ok(w) => if needs_newer(*m) {
                r matches Err(RunError::Incompatible(e)) && e.required@
                    == m.compatibility->Some_0.min_agentpacknest_version@ && e.current@
                    == AGENTPACKNEST_VERSION@
            } else {
                match harness_from_name(m.harness.name@) {
                    None => r matches Err(RunError::Harness(HarnessError::Unsupported { name }))
                        && name@ == m.harness.name@,
                    Some(HarnessId::Aider) => r matches Err(
                        RunError::Harness(HarnessError::NotImplemented { .. }),
                    ),
                    Some(HarnessId::Pi) => match r {
                        Ok(a) => a.warnings@ == w && pi_prepare_outcome(
                            m.launch,
                            match node {
                                Some(o) => Some(o@),
                                None => None,
                            },
                            Ok(a.prepared),
                        ),
                        Err(RunError::Harness(e)) => pi_prepare_outcome(
                            m.launch,
                            match node {
                                Some(o) => Some(o@),
                                None => None,
                            },
                            Err(e),
                        ),
                        Err(_) => false,
                    },
                }
            }
        },
        !allow_unverified && r is Ok ==> (m.integrity.checksum matches Some(e) && files matches Some(
            fs,
        ) && checksum_spec(fs@) == e@),
        !allow_unverified && r is Ok ==> (sig matches Some(s) && public_key matches Some(k)
            && verify_spec(canonical@, s@, k@) == Ok::<bool, SigningError>(true)),
{
    let ghost expected_view = match &m.integrity.checksum {
        Some(c) => Some(c@),
        None => None,
    };
    let ghost files_view = match &files {
        Some(fs) => Some(fs@),
        None => None,
    };
    let ghost sig_view = match sig {
        Some(x) => Some(x@),
        None => None,
    };
    let ghost key_view = match public_key {
        Some(k) => Some(k@),
        None => None,
    };
    let expected = match &m.integrity.checksum {
        Some(c) => Some(c.as_str()),
        None => None,
    };
    let warnings = match verify_bundle_integrity_and_signature(
        expected,
        files,
        canonical,
        sig,
        public_key,
        allow_unverified,
    ) {
        Ok(w) => w,
        Err(e) => {
            return Err(RunError::Trust(e));
        },
    };
    proof {
        if !allow_unverified {
            lemma_strict_run_requires_proof_of_integrity(
                expected_view,
                files_view,
                canonical@,
                sig_view,
                key_view,
            );
        }
    }
    if let Err(e) = check_compatibility(m) {
        return Err(RunError::Incompatible(e));
    }
    let registry = HarnessRegistry::with_defaults();
    let harness = match registry.by_name(m.harness.name.as_str()) {
        Ok(h) => h,
        Err(e) => {
            return Err(RunError::Harness(e));
        },
    };
    let request = PrepareRuntimeRequest {
        bundle_root: String::from_str(bundle_root),
        launch: copy_launch(&m.launch),
    };
    let res = registry.prepare_runtime(harness.identity(), &request, node);
    proof {
        assert(launch_args(request.launch) == launch_args(m.launch));
    }
    match res {
        Ok(prepared) => Ok(RunAuthorization { warnings, prepared }),
        Err(e) => Err(RunError::Harness(e)),
    }
}

/// A copy of a launch specification.
fn copy_launch(l: &Launch) -> (r: Launch)
    ensures
        r.command@ == l.command@,
        r.args@.map_values(|s: String| s@) == l.args@.map_values(|s: String| s@),
        r.working_directory.is_some() == l.working_directory.is_some(),
        r.working_directory matches Some(w) ==> w@ == l.working_directory->Some_0@,
{
    Launch {
        command: l.command.clone(),
        args: clone_strings(&l.args),
        working_directory: match &l.working_directory {
            Some(w) => Some(w.clone()),
            None => None,
        },
    }
}

proof fn lemma_parts_lt_irreflexive(a: Seq<u64>, i: nat)
    ensures
        !parts_lt_from(a, a, i),
    decreases a.len() - i,
{
    if i < a.len() {
        lemma_parts_lt_irreflexive(a, i + 1);
    }
}

proof fn lemma_parts_lt_asymmetric(a: Seq<u64>, b: Seq<u64>, i: nat)
    requires
        parts_lt_from(a, b, i),
    ensures
        !parts_lt_from(b, a, i),
    decreases (if a.len() > b.len() {
        a.len()
    } else {
        b.len()
    }) - i,
{
    if !(i >= a.len() && i >= b.len()) && part_at(a, i as int) == part_at(b, i as int) {
        lemma_parts_lt_asymmetric(a, b, i + 1);
    }
}

/// No version is older than itself, and of two versions at most one is
/// older than the other.
pub proof fn lemma_version_lt_strict(a: Seq<char>, b: Seq<char>)
    ensures
        !version_lt_spec(a, a),
        version_lt_spec(a, b) ==> !version_lt_spec(b, a),
{
    lemma_parts_lt_irreflexive(version_parts(a), 0);
    if version_lt_spec(a, b) {
        lemma_parts_lt_asymmetric(version_parts(a), version_parts(b), 0);
    }
}

// ---------------------------------------------------------------------------
// Working directory containment
// ---------------------------------------------------------------------------

/// The non-empty `/`-separated segments of a path.
pub open spec fn segments(p: Seq<char>) -> Seq<Seq<char>> {
    split_char(p, '/').filter(|s: Seq<char>| s.len() > 0)
}

/// Whether `p` is absolute.
pub open spec fn rooted(p: Seq<char>) -> bool {
    p.len() > 0 && p[0] == '/'
}

/// `candidate` lies at or below `root`: both absolute or both relative, and
/// the segments of `root` begin those of `candidate` (`Path::starts_with`
/// on canonical paths).
pub open spec fn within_spec(root: Seq<char>, candidate: Seq<char>) -> bool {
    rooted(root) == rooted(candidate) && segments(root).len() <= segments(candidate).len()
        && segments(candidate).take(segments(root).len() as int) == segments(root)
}

fn nonempty_segments(p: &str) -> (r: Vec<&str>)
    ensures
        views(r@) == segments(p@),
{
    let pieces = split(p, '/');
    let ghost ps = split_char(p@, '/');
    let mut out: Vec<&str> = Vec::new();
    let mut i: usize = 0;
    assert(ps.take(0).filter(|s: Seq<char>| s.len() > 0) =~= Seq::<Seq<char>>::empty());
    while i < pieces.len()
        invariant
            i <= pieces@.len(),
            views(pieces@) == ps,
            views(out@) == ps.take(i as int).filter(|s: Seq<char>| s.len() > 0),
        decreases pieces@.len() - i,
    {
        let ghost before = out@;
        assert(ps.take(i + 1).drop_last() =~= ps.take(i as int));
        assert(ps.take(i + 1).last() == pieces@[i as int]@);
        reveal(Seq::filter);
        if pieces[i].unicode_len() > 0 {
            out.push(pieces[i]);
            assert(views(out@) =~= views(before).push(pieces@[i as int]@));
        }
        i = i + 1;
    }
    assert(ps.take(pieces@.len() as int) =~= ps);
    out
}

/// Whether the resolved (canonical) `candidate` lies inside `root`.
pub fn is_within(root: &str, candidate: &str) -> (r: bool)
    ensures
        r == within_spec(root@, candidate@),
{
    let ra = root.unicode_len() > 0 && root.get_char(0) == '/';
    let ca = candidate.unicode_len() > 0 && candidate.get_char(0) == '/';
    if ra != ca {
        return false;
    }
    let rs = nonempty_segments(root);
    let cs = nonempty_segments(candidate);
    if rs.len() > cs.len() {
        return false;
    }
    let mut i: usize = 0;
    while i < rs.len()
        invariant
            i <= rs@.len(),
            rs@.len() <= cs@.len(),
            views(rs@) == segments(root@),
            views(cs@) == segments(candidate@),
            forall|j: int| 0 <= j < i ==> (#[trigger] rs@[j])@ == cs@[j]@,
        decreases rs@.len() - i,
    {
        if !crate::text::str_eq(rs[i], cs[i]) {
            assert(segments(candidate@).take(segments(root@).len() as int)[i as int] != segments(
                root@,
            )[i as int]);
            return false;
        }
        i = i + 1;
    }
    assert(segments(candidate@).take(segments(root@).len() as int) =~= segments(root@));
    true
}

// ---------------------------------------------------------------------------
// The agent's environment
// ---------------------------------------------------------------------------

/// `AGENTPACKNEST_BUNDLE`, `..._HARNESS`, `..._CONFIG`, `..._MEMORY`,
/// `..._PACKAGES`
pub open spec fn var_name(i: int) -> Seq<char> {
    let p = seq!['A', 'G', 'E', 'N', 'T', 'P', 'A', 'C', 'K', 'N', 'E', 'S', 'T', '_'];
    if i == 0 {
        p + seq!['B', 'U', 'N', 'D', 'L', 'E']
    } else if i == 1 {
        p + seq!['H', 'A', 'R', 'N', 'E', 'S', 'S']
    } else if i == 2 {
        p + seq!['C', 'O', 'N', 'F', 'I', 'G']
    } else if i == 3 {
        p + seq!['M', 'E', 'M', 'O', 'R', 'Y']
    } else {
        p + seq!['P', 'A', 'C', 'K', 'A', 'G', 'E', 'S']
    }
}

/// The bundle's own variables: its path, the harness name, and the agent's
/// config, memory and packages directories.
pub open spec fn core_env(bundle_dir: Seq<char>, harness: Seq<char>) -> Map<Seq<char>, Seq<char>> {
    let agent = join_spec(bundle_dir, seq!['a', 'g', 'e', 'n', 't']);
    Map::empty().insert(var_name(0), bundle_dir).insert(var_name(1), harness).insert(
        var_name(2),
        join_spec(agent, seq!['c', 'o', 'n', 'f', 'i', 'g']),
    ).insert(var_name(3), join_spec(agent, seq!['m', 'e', 'm', 'o', 'r', 'y'])).insert(
        var_name(4),
        join_spec(agent, seq!['p', 'a', 'c', 'k', 'a', 'g', 'e', 's']),
    )
}

proof fn lemma_insert_all_union(m: Map<Seq<char>, Seq<char>>, s: Seq<(Seq<char>, Seq<char>)>)
    ensures
        insert_all(m, s) == m.union_prefer_right(pairs_to_map(s)),
    decreases s.len(),
{
    if s.len() == 0 {
        assert(m.union_prefer_right(pairs_to_map(s)) =~= m);
    } else {
        lemma_insert_all_union(m, s.drop_last());
        assert(insert_all(m, s) =~= m.union_prefer_right(pairs_to_map(s)));
    }
}

/// The variables of the agent process: the bundle's own variables, then
/// the decrypted secrets (which win on a clash).
pub fn build_env(bundle_dir: &str, m: &Manifest, secrets: Option<&SecretsBundle>) -> (r:
    RuntimeEnvironment)
    ensures
        r@ == match secrets {
            Some(s) => core_env(bundle_dir@, m.harness.name@).union_prefer_right(s@),
            None => core_env(bundle_dir@, m.harness.name@),
        },
{
    proof {
        reveal_strlit("AGENTPACKNEST_BUNDLE");
        reveal_strlit("AGENTPACKNEST_HARNESS");
        reveal_strlit("AGENTPACKNEST_CONFIG");
        reveal_strlit("AGENTPACKNEST_MEMORY");
        reveal_strlit("AGENTPACKNEST_PACKAGES");
        reveal_strlit("agent");
        reveal_strlit("config");
        reveal_strlit("memory");
        reveal_strlit("packages");
        assert("AGENTPACKNEST_BUNDLE"@ =~= var_name(0));
        assert("AGENTPACKNEST_HARNESS"@ =~= var_name(1));
        assert("AGENTPACKNEST_CONFIG"@ =~= var_name(2));
        assert("AGENTPACKNEST_MEMORY"@ =~= var_name(3));
        assert("AGENTPACKNEST_PACKAGES"@ =~= var_name(4));
        assert("agent"@ =~= seq!['a', 'g', 'e', 'n', 't']);
        assert("config"@ =~= seq!['c', 'o', 'n', 'f', 'i', 'g']);
        assert("memory"@ =~= seq!['m', 'e', 'm', 'o', 'r', 'y']);
        assert("packages"@ =~= seq!['p', 'a', 'c', 'k', 'a', 'g', 'e', 's']);
    }
    let mut env = RuntimeEnvironment::clean();
    env.inject("AGENTPACKNEST_BUNDLE", bundle_dir);
    env.inject("AGENTPACKNEST_HARNESS", m.harness.name.as_str());
    let agent_dir = join(bundle_dir, "agent");
    let config = join(agent_dir.as_str(), "config");
    let memory = join(agent_dir.as_str(), "memory");
    let packages = join(agent_dir.as_str(), "packages");
    env.inject("AGENTPACKNEST_CONFIG", config.as_str());
    env.inject("AGENTPACKNEST_MEMORY", memory.as_str());
    env.inject("AGENTPACKNEST_PACKAGES", packages.as_str());
    let ghost base = env@;
    assert(base =~= core_env(bundle_dir@, m.harness.name@));
    if let Some(sec) = secrets {
        let pairs = sec.iter();
        let ghost es = sec.entry_seq();
        let mut i: usize = 0;
        assert(es.take(0) =~= Seq::<(Seq<char>, Seq<char>)>::empty());
        while i < pairs.len()
            invariant
                i <= pairs@.len(),
                pairs@.map_values(|p: (&str, &str)| (p.0@, p.1@)) == es,
                env@ == insert_all(base, es.take(i as int)),
            decreases pairs@.len() - i,
        {
            let (k, v) = pairs[i];
            assert(es.take(i + 1).drop_last() =~= es.take(i as int));
            assert(es.take(i + 1).last() == (k@, v@));
            env.inject(k, v);
            i = i + 1;
        }
        proof {
            assert(es.take(pairs@.len() as int) =~= es);
            lemma_insert_all_union(base, es);
            sec.lemma_view();
        }
    }
    env
}

proof fn lemma_number_with_unit(n: nat, unit: char)
    requires
        !is_ws(unit),
    ensures
        trimmed(decimal(n) + seq![unit]) == decimal(n) + seq![unit],
        (decimal(n) + seq![unit]).drop_last() == decimal(n),
        (decimal(n) + seq![unit]).last() == unit,
{
    lemma_decimal_parses(n);
    let d = decimal(n);
    let s = d + seq![unit];
    assert(s[0] == d[0]);
    assert('0' <= d[0] <= '9');
    assert(!is_ws(s[0]));
    assert(strip_start(s, Pat::Whitespace) == s);
    assert(strip_end(s, Pat::Whitespace) == s);
    assert(s.drop_last() =~= d);
}

/// A freshness duration is a number of days (`Nd` or a bare `N`), hours
/// (`Nh`) or weeks (`Nw`), counted in seconds; zero is refused.
pub proof fn lemma_duration_units(n: nat)
    ensures
        0 < n && n * 86400 <= u64::MAX ==> duration_spec(decimal(n) + seq!['d']) == Ok::<
            u64,
            DurationError,
        >((n * 86400) as u64) && duration_spec(decimal(n)) == Ok::<u64, DurationError>(
            (n * 86400) as u64,
        ),
        0 < n && n * 3600 <= u64::MAX ==> duration_spec(decimal(n) + seq!['h']) == Ok::<
            u64,
            DurationError,
        >((n * 3600) as u64),
        0 < n && n * 604800 <= u64::MAX ==> duration_spec(decimal(n) + seq!['w']) == Ok::<
            u64,
            DurationError,
        >((n * 604800) as u64),
        n == 0 ==> duration_spec(decimal(n) + seq!['d']) == Err::<u64, DurationError>(
            DurationError::Zero,
        ) && duration_spec(decimal(n) + seq!['h']) == Err::<u64, DurationError>(
            DurationError::Zero,
        ) && duration_spec(decimal(n)) == Err::<u64, DurationError>(DurationError::Zero),
{
    lemma_decimal_parses(n);
    lemma_number_with_unit(n, 'd');
    lemma_number_with_unit(n, 'h');
    lemma_number_with_unit(n, 'w');
    let d = decimal(n);
    assert('0' <= d.last() <= '9');
}

/// A bundle is reported stale exactly when more than the threshold has
/// passed since it was packed, and the report gives that time; a bundle
/// with no origin, or one packed now or later, is never stale.
pub proof fn lemma_stale_exactly_when_older(m: &Manifest, now_secs: u64, max_age_secs: u64)
    ensures
        m.origin is None ==> stale_spec(m, now_secs, max_age_secs) is None,
        m.origin is Some && parse_timestamp_spec(m.origin->Some_0.packed_at@) is Ok ==> ({
            let p = parse_timestamp_spec(m.origin->Some_0.packed_at@)->Ok_0;
            stale_spec(m, now_secs, max_age_secs) == if now_secs > p && now_secs - p
                > max_age_secs {
                Some((now_secs - p) as u64)
            } else {
                None
            }
        }),
{
}

/// The `--max-age` flag wins over the environment variable, which wins
/// over the default of seven days when it is not blank.
pub proof fn lemma_max_age_precedence(flag: Option<Seq<char>>, env_value: Option<Seq<char>>)
    ensures
        flag is Some && duration_spec(flag->Some_0) is Ok ==> max_age_spec(flag, env_value)
            == Ok::<u64, MaxAgeError>(duration_spec(flag->Some_0)->Ok_0),
        flag is Some && duration_spec(flag->Some_0) is Err ==> max_age_spec(flag, env_value)
            == Err::<u64, MaxAgeError>(MaxAgeError::Flag(duration_spec(flag->Some_0)->Err_0)),
        flag is None && env_value is Some && trimmed(env_value->Some_0).len() > 0 && duration_spec(
            env_value->Some_0,
        ) is Ok ==> max_age_spec(flag, env_value) == Ok::<u64, MaxAgeError>(
            duration_spec(env_value->Some_0)->Ok_0,
        ),
        flag is None && (env_value is None || trimmed(env_value->Some_0).len() == 0)
            ==> max_age_spec(flag, env_value) == Ok::<u64, MaxAgeError>(604800),
{
}

/// Containment of canonical paths: a path lies within itself, containment
/// chains, and an absolute path never lies within a relative one or the
/// other way round.
pub proof fn lemma_within_order(a: Seq<char>, b: Seq<char>, c: Seq<char>)
    ensures
        within_spec(a, a),
        within_spec(a, b) && within_spec(b, c) ==> within_spec(a, c),
        rooted(a) != rooted(b) ==> !within_spec(a, b),
{
    assert(segments(a).take(segments(a).len() as int) =~= segments(a));
    if within_spec(a, b) && within_spec(b, c) {
        let sa = segments(a);
        let sb = segments(b);
        let sc = segments(c);
        assert(sc.take(sa.len() as int) =~= sc.take(sb.len() as int).take(sa.len() as int));
        assert(sb.take(sa.len() as int) == sa);
    }
}

/// The agent's environment holds the bundle's five variables, named
/// `AGENTPACKNEST_BUNDLE`, `_HARNESS`, `_CONFIG`, `_MEMORY` and `_PACKAGES`,
/// with the bundle path, the harness name and the agent's `config`,
/// `memory` and `packages` directories under the bundle, and nothing else.
pub proof fn lemma_core_env_variables(bundle_dir: Seq<char>, harness: Seq<char>)
    ensures
        core_env(bundle_dir, harness).dom() == set![
            "AGENTPACKNEST_BUNDLE"@,
            "AGENTPACKNEST_HARNESS"@,
            "AGENTPACKNEST_CONFIG"@,
            "AGENTPACKNEST_MEMORY"@,
            "AGENTPACKNEST_PACKAGES"@,
        ],
        core_env(bundle_dir, harness)["AGENTPACKNEST_BUNDLE"@] == bundle_dir,
        core_env(bundle_dir, harness)["AGENTPACKNEST_HARNESS"@] == harness,
        core_env(bundle_dir, harness)["AGENTPACKNEST_CONFIG"@] == join_spec(
            join_spec(bundle_dir, "agent"@),
            "config"@,
        ),
        core_env(bundle_dir, harness)["AGENTPACKNEST_MEMORY"@] == join_spec(
            join_spec(bundle_dir, "agent"@),
            "memory"@,
        ),
        core_env(bundle_dir, harness)["AGENTPACKNEST_PACKAGES"@] == join_spec(
            join_spec(bundle_dir, "agent"@),
            "packages"@,
        ),
{
    reveal_strlit("AGENTPACKNEST_BUNDLE");
    reveal_strlit("AGENTPACKNEST_HARNESS");
    reveal_strlit("AGENTPACKNEST_CONFIG");
    reveal_strlit("AGENTPACKNEST_MEMORY");
    reveal_strlit("AGENTPACKNEST_PACKAGES");
    reveal_strlit("agent");
    reveal_strlit("config");
    reveal_strlit("memory");
    reveal_strlit("packages");
    assert("AGENTPACKNEST_BUNDLE"@ =~= var_name(0));
    assert("AGENTPACKNEST_HARNESS"@ =~= var_name(1));
    assert("AGENTPACKNEST_CONFIG"@ =~= var_name(2));
    assert("AGENTPACKNEST_MEMORY"@ =~= var_name(3));
    assert("AGENTPACKNEST_PACKAGES"@ =~= var_name(4));
    assert("agent"@ =~= seq!['a', 'g', 'e', 'n', 't']);
    assert("config"@ =~= seq!['c', 'o', 'n', 'f', 'i', 'g']);
    assert("memory"@ =~= seq!['m', 'e', 'm', 'o', 'r', 'y']);
    assert("packages"@ =~= seq!['p', 'a', 'c', 'k', 'a', 'g', 'e', 's']);
    assert(var_name(0) != var_name(1) && var_name(0) != var_name(2) && var_name(0) != var_name(3)
        && var_name(0) != var_name(4)) by {
        assert(var_name(0)[14] != var_name(1)[14]);
        assert(var_name(0)[14] != var_name(2)[14]);
        assert(var_name(0)[14] != var_name(3)[14]);
        assert(var_name(0)[14] != var_name(4)[14]);
    }
    assert(var_name(1) != var_name(2) && var_name(1) != var_name(3) && var_name(1) != var_name(4)) by {
        assert(var_name(1)[14] != var_name(2)[14]);
        assert(var_name(1)[14] != var_name(3)[14]);
        assert(var_name(1)[14] != var_name(4)[14]);
    }
    assert(var_name(2) != var_name(3) && var_name(2) != var_name(4)) by {
        assert(var_name(2)[14] != var_name(3)[14]);
        assert(var_name(2)[14] != var_name(4)[14]);
    }
    assert(var_name(3) != var_name(4)) by {
        assert(var_name(3)[14] != var_name(4)[14]);
    }
    assert(core_env(bundle_dir, harness).dom() =~= set![
        var_name(0),
        var_name(1),
        var_name(2),
        var_name(3),
        var_name(4),
    ]);
}

proof fn lemma_decimal_no_dot(n: nat)
    ensures
        forall|i: int| 0 <= i < decimal(n).len() ==> !Pat::Char('.').holds(#[trigger] decimal(n)[i]),
{
    lemma_decimal_parses(n);
    assert forall|i: int| 0 <= i < decimal(n).len() implies !Pat::Char('.').holds(
        #[trigger] decimal(n)[i],
    ) by {
        assert('0' <= decimal(n)[i] <= '9');
    }
}

/// Versions compare part by part as numbers, not as text: `x.y` is older
/// than `x2.y2` exactly when `x < x2`, or `x == x2` and `y < y2` (so `0.9` is
/// older than `0.10`); a single number compares as a number.
pub proof fn lemma_versions_compare_numerically(x: nat, y: nat, x2: nat, y2: nat)
    requires
        x <= u64::MAX,
        y <= u64::MAX,
        x2 <= u64::MAX,
        y2 <= u64::MAX,
    ensures
        version_lt_spec(decimal(x) + seq!['.'] + decimal(y), decimal(x2) + seq!['.'] + decimal(y2))
            <==> (x < x2 || (x == x2 && y < y2)),
        version_lt_spec(decimal(x), decimal(x2)) <==> x < x2,
{
    lemma_decimal_parses(x);
    lemma_decimal_parses(y);
    lemma_decimal_parses(x2);
    lemma_decimal_parses(y2);
    lemma_decimal_no_dot(x);
    lemma_decimal_no_dot(y);
    lemma_decimal_no_dot(x2);
    lemma_decimal_no_dot(y2);
    lemma_split_pat_none(decimal(y), Pat::Char('.'));
    lemma_split_pat_none(decimal(y2), Pat::Char('.'));
    lemma_split_pat_none(decimal(x), Pat::Char('.'));
    lemma_split_pat_none(decimal(x2), Pat::Char('.'));
    lemma_split_pat_cons(decimal(x), '.', decimal(y), Pat::Char('.'));
    lemma_split_pat_cons(decimal(x2), '.', decimal(y2), Pat::Char('.'));
    let a = decimal(x) + seq!['.'] + decimal(y);
    let b = decimal(x2) + seq!['.'] + decimal(y2);
    assert(split_char(a, '.') =~= seq![decimal(x), decimal(y)]);
    assert(split_char(b, '.') =~= seq![decimal(x2), decimal(y2)]);
    assert(version_parts(a) =~= seq![x as u64, y as u64]);
    assert(version_parts(b) =~= seq![x2 as u64, y2 as u64]);
    assert(version_parts(decimal(x)) =~= seq![x as u64]);
    assert(version_parts(decimal(x2)) =~= seq![x2 as u64]);
    let pa = version_parts(a);
    let pb = version_parts(b);
    assert(parts_lt_from(pa, pb, 2) == false);
    assert(parts_lt_from(pa, pb, 1) == (y < y2));
    assert(parts_lt_from(version_parts(decimal(x)), version_parts(decimal(x2)), 1) == false);
}

} // verus!
