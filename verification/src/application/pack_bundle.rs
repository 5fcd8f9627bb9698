//! Packing a bundle: which contents to pack, how source trees are copied,
//! and how the manifest is completed.
//!
//! The caller walks and copies the filesystem; the decisions are made here.

use vstd::prelude::*;
use crate::domain::manifest::{
    Manifest, Packages, PackageEntry, CryptoMeta, Compatibility, OriginMeta,
};
use crate::security::crypto::{CRYPTO_FORMAT_VERSION, CRYPTO_FORMAT_IDENTIFIER};
use crate::utils::ignore::{IgnorePatterns, ignored_by};
use crate::text::{has_suffix, ends_with, str_eq};

verus! {

/// Request to pack a bundle.
#[derive(Debug)]
pub struct PackBundleRequest {
    pub bundle_path: String,
    pub harness_path: Option<String>,
    pub with_config: bool,
    pub with_memory: bool,
    pub with_skills: bool,
    pub with_secrets: bool,
    pub force: bool,
}

/// Result of packing: the completed manifest and the payload checksum.
#[derive(Debug)]
pub struct PackBundleResult {
    pub manifest: Manifest,
    pub checksum: String,
}

// ---------------------------------------------------------------------------
// What to pack
// ---------------------------------------------------------------------------

/// The content selection after `--all` is expanded.
#[derive(Debug, Clone, Copy, PartialEq, Eq, Structural)]
pub struct PackFlags {
    pub config: bool,
    pub memory: bool,
    pub skills: bool,
    pub secrets: bool,
    pub archive: bool,
    pub encrypt_archive: bool,
}

/// Why a pack request was refused.
#[derive(Debug, Clone, PartialEq, Eq)]
pub enum PackError {
    /// No content flag and no archive.
    NothingToPack,
    /// `--encrypt-archive` without `--archive`.
    EncryptArchiveNeedsArchive,
    /// The destination exists and `--force` was not given.
    DestinationExists { path: String },
    /// A symbolic link in a source tree (it could point outside the bundle).
    SymlinkNotAllowed { path: String },
    /// The bundle was made for a harness that cannot be packed.
    UnsupportedHarness { name: String },
    /// A required source of the harness is missing.
    MissingSource { path: String },
}

/// Only bundles for Pi can be packed.
pub fn check_pack_harness(m: &Manifest) -> (r: Result<(), PackError>)
    ensures
        m.harness.name@ == "pi"@ ==> r is Ok,
        m.harness.name@ != "pi"@ ==> (r matches Err(PackError::UnsupportedHarness { name })
            && name@ == m.harness.name@),
{
    if str_eq(m.harness.name.as_str(), "pi") {
        Ok(())
    } else {
        Err(PackError::UnsupportedHarness { name: m.harness.name.clone() })
    }
}

/// Expand `--all` and check the combination of pack flags.
pub fn resolve_pack_flags(
    with_config: bool,
    with_memory: bool,
    with_skills: bool,
    with_secrets: bool,
    all: bool,
    archive: bool,
    encrypt_archive: bool,
) -> (r: Result<PackFlags, PackError>)
    ensures
        !(all || with_config || with_memory || with_skills || with_secrets || archive) ==> r
            == Err::<PackFlags, PackError>(PackError::NothingToPack),
        (all || with_config || with_memory || with_skills || with_secrets || archive)
            && encrypt_archive && !archive ==> r == Err::<PackFlags, PackError>(
            PackError::EncryptArchiveNeedsArchive,
        ),
        (all || with_config || with_memory || with_skills || with_secrets || archive) && (
        !encrypt_archive || archive) ==> r == Ok::<PackFlags, PackError>(
            PackFlags {
                config: all || with_config,
                memory: all || with_memory,
                skills: all || with_skills,
                secrets: all || with_secrets,
                archive,
                encrypt_archive,
            },
        ),
{
    let config = all || with_config;
    let memory = all || with_memory;
    let skills = all || with_skills;
    let secrets = all || with_secrets;
    if !config && !memory && !skills && !secrets && !archive {
        return Err(PackError::NothingToPack);
    }
    if encrypt_archive && !archive {
        return Err(PackError::EncryptArchiveNeedsArchive);
    }
    Ok(PackFlags { config, memory, skills, secrets, archive, encrypt_archive })
}

/// `yes` or `no`.
pub fn flag(v: bool) -> (r: &'static str)
    ensures
        r@ == if v {
            "yes"@
        } else {
            "no"@
        },
{
    if v {
        "yes"
    } else {
        "no"
    }
}

/// The archive file name: the bundle directory's name with `.tar.gz`, or
/// `.tar.gz.enc` when encrypted.
pub fn archive_name(dir_name: &str, encrypt: bool) -> (r: String)
    ensures
        r@ == dir_name@ + if encrypt {
            ".tar.gz.enc"@
        } else {
            ".tar.gz"@
        },
{
    let ext = if encrypt {
        ".tar.gz.enc"
    } else {
        ".tar.gz"
    };
    String::from_str(dir_name).concat(ext)
}

/// The file an encrypted archive decrypts to: its name without the `.enc`
/// suffix; `None` when the name does not end in `.enc`.
pub fn decrypted_archive_name(file_name: &str) -> (r: Option<&str>)
    ensures
        match r {
            Some(stem) => has_suffix(file_name@, ".enc"@) && stem@ == file_name@.take(
                file_name@.len() - 4,
            ),
            None => !has_suffix(file_name@, ".enc"@),
        },
{
    proof {
        reveal_strlit(".enc");
    }
    if ends_with(file_name, ".enc") {
        let n = file_name.unicode_len();
        let stem = file_name.substring_char(0, n - 4);
        assert(stem@ =~= file_name@.take(n - 4));
        Some(stem)
    } else {
        None
    }
}

// ---------------------------------------------------------------------------
// Copying source trees
// ---------------------------------------------------------------------------

/// Whether copying into an existing destination may go ahead: a missing
/// source is skipped (`Ok(false)`), an existing destination needs
/// `--force`.
pub fn copy_precheck(src_is_dir: bool, dst: &str, dst_exists: bool, force: bool) -> (r: Result<
    bool,
    PackError,
>)
    ensures
        !src_is_dir ==> r == Ok::<bool, PackError>(false),
        src_is_dir && dst_exists && !force ==> (r matches Err(PackError::DestinationExists { path })
            && path@ == dst@),
        src_is_dir && (!dst_exists || force) ==> r == Ok::<bool, PackError>(true),
{
    if !src_is_dir {
        return Ok(false);
    }
    if dst_exists && !force {
        return Err(PackError::DestinationExists { path: String::from_str(dst) });
    }
    Ok(true)
}

/// The kind of a walked source entry.
#[derive(Debug, Clone, Copy, PartialEq, Eq, Structural)]
pub enum EntryKind {
    Dir,
    File,
    Symlink,
}

/// A walked source entry: its path relative to the source root.
#[derive(Debug)]
pub struct TreeEntry {
    pub rel: String,
    pub kind: EntryKind,
}

/// What to do with an entry.
#[derive(Debug, Clone, Copy, PartialEq, Eq, Structural)]
pub enum CopyAction {
    MakeDir,
    CopyFile,
    /// Left out by an ignore pattern.
    Ignored,
    /// Not part of the component (an excluded name, or a file that a
    /// secret source reads).
    Excluded,
}

/// The action for one (non-link) entry.
pub open spec fn action_for(kind: EntryKind, ignored: bool) -> CopyAction {
    if ignored {
        CopyAction::Ignored
    } else if kind == EntryKind::Dir {
        CopyAction::MakeDir
    } else {
        CopyAction::CopyFile
    }
}

/// Index of the first symbolic link among the entries, if any.
pub open spec fn first_symlink(entries: Seq<TreeEntry>) -> Option<int>
    decreases entries.len(),
{
    if entries.len() == 0 {
        None
    } else if entries[0].kind == EntryKind::Symlink {
        Some(0)
    } else {
        match first_symlink(entries.drop_first()) {
            Some(i) => Some(i + 1),
            None => None,
        }
    }
}

proof fn lemma_first_symlink(entries: Seq<TreeEntry>)
    ensures
        first_symlink(entries) matches Some(i) ==> 0 <= i < entries.len()
            && entries[i].kind == EntryKind::Symlink && forall|j: int|
            0 <= j < i ==> (#[trigger] entries[j]).kind != EntryKind::Symlink,
        first_symlink(entries) is None ==> forall|j: int|
            0 <= j < entries.len() ==> (#[trigger] entries[j]).kind != EntryKind::Symlink,
    decreases entries.len(),
{
    if entries.len() > 0 && entries[0].kind != EntryKind::Symlink {
        lemma_first_symlink(entries.drop_first());
        assert forall|j: int| 1 <= j < entries.len() implies entries[j] == entries.drop_first()[j
            - 1] by {}
    }
}

/// Plan the copy of a walked source tree, in walk order: links are
/// refused (the first one is reported), ignored paths are skipped,
/// directories are created and files copied.
pub fn plan_copy(entries: &Vec<TreeEntry>, ignore: &IgnorePatterns) -> (r: Result<
    Vec<CopyAction>,
    PackError,
>)
    ensures
        match first_symlink(entries@) {
            Some(i) => r matches Err(PackError::SymlinkNotAllowed { path }) && path@
                == entries@[i].rel@,
            None => r matches Ok(actions) && actions@.len() == entries@.len() && forall|i: int|
                0 <= i < entries@.len() ==> #[trigger] actions@[i] == action_for(
                    entries@[i].kind,
                    ignored_by(ignore@, entries@[i].rel@),
                ),
        },
{
    proof {
        lemma_first_symlink(entries@);
    }
    let mut actions: Vec<CopyAction> = Vec::new();
    let mut i: usize = 0;
    while i < entries.len()
        invariant
            i <= entries@.len(),
            actions@.len() == i,
            forall|j: int| 0 <= j < i ==> (#[trigger] entries@[j]).kind != EntryKind::Symlink,
            forall|j: int|
                0 <= j < i ==> #[trigger] actions@[j] == action_for(
                    entries@[j].kind,
                    ignored_by(ignore@, entries@[j].rel@),
                ),
            first_symlink(entries@) matches Some(k) ==> 0 <= k < entries@.len()
                && entries@[k].kind == EntryKind::Symlink && forall|j: int|
                0 <= j < k ==> (#[trigger] entries@[j]).kind != EntryKind::Symlink,
            first_symlink(entries@) is None ==> forall|j: int|
                0 <= j < entries@.len() ==> (#[trigger] entries@[j]).kind != EntryKind::Symlink,
        decreases entries@.len() - i,
    {
        let e = &entries[i];
        match e.kind {
            EntryKind::Symlink => {
                proof {
                    if first_symlink(entries@) is Some {
                        let k = first_symlink(entries@)->Some_0;
                        assert(k == i);
                    }
                }
                return Err(PackError::SymlinkNotAllowed { path: e.rel.clone() });
            },
            _ => {},
        }
        let ign = ignore.is_ignored(e.rel.as_str());
        let a = if ign {
            CopyAction::Ignored
        } else {
            match e.kind {
                EntryKind::Dir => CopyAction::MakeDir,
                _ => CopyAction::CopyFile,
            }
        };
        actions.push(a);
        i = i + 1;
    }
    proof {
        if first_symlink(entries@) is Some {
            let k = first_symlink(entries@)->Some_0;
            assert(entries@[k].kind != EntryKind::Symlink);
        }
    }
    Ok(actions)
}

/// Number of actions of a given kind.
pub open spec fn count_action(actions: Seq<CopyAction>, a: CopyAction) -> nat
    decreases actions.len(),
{
    if actions.len() == 0 {
        0
    } else {
        count_action(actions.drop_last(), a) + if actions.last() == a {
            1nat
        } else {
            0nat
        }
    }
}

/// Number of files copied and of entries ignored by a plan.
pub fn plan_counts(actions: &Vec<CopyAction>) -> (r: (u64, u64))
    ensures
        r.0 == count_action(actions@, CopyAction::CopyFile),
        r.1 == count_action(actions@, CopyAction::Ignored),
{
    let mut files: u64 = 0;
    let mut ignored: u64 = 0;
    let mut i: usize = 0;
    while i < actions.len()
        invariant
            i <= actions@.len(),
            files == count_action(actions@.take(i as int), CopyAction::CopyFile),
            ignored == count_action(actions@.take(i as int), CopyAction::Ignored),
            files <= i,
            ignored <= i,
        decreases actions@.len() - i,
    {
        assert(actions@.take(i + 1).drop_last() =~= actions@.take(i as int));
        match actions[i] {
            CopyAction::CopyFile => {
                files = files + 1;
            },
            CopyAction::Ignored => {
                ignored = ignored + 1;
            },
            CopyAction::MakeDir | CopyAction::Excluded => {},
        }
        i = i + 1;
    }
    assert(actions@.take(actions@.len() as int) =~= actions@);
    (files, ignored)
}

// ---------------------------------------------------------------------------
// The manifest
// ---------------------------------------------------------------------------

/// A package recorded by name (version `0.0.0`).
pub open spec fn package_of(name: Seq<char>, e: PackageEntry) -> bool {
    e.name@ == name && e.version@ == "0.0.0"@ && e.source is None && e.path is None
}

fn entries_of(names: &Vec<String>) -> (r: Vec<PackageEntry>)
    ensures
        r@.len() == names@.len(),
        forall|i: int| 0 <= i < names@.len() ==> package_of(names@[i]@, #[trigger] r@[i]),
{
    let mut out: Vec<PackageEntry> = Vec::new();
    let mut i: usize = 0;
    while i < names.len()
        invariant
            i <= names@.len(),
            out@.len() == i,
            forall|j: int| 0 <= j < i ==> package_of(names@[j]@, #[trigger] out@[j]),
        decreases names@.len() - i,
    {
        out.push(
            PackageEntry {
                name: names[i].clone(),
                version: String::from_str("0.0.0"),
                source: None,
                path: None,
            },
        );
        i = i + 1;
    }
    out
}

/// The package lists from the names of the sub-directories of
/// `packages/extensions`, `packages/skills` and `packages/themes`.
pub fn packages_from_names(
    extensions: &Vec<String>,
    skills: &Vec<String>,
    themes: &Vec<String>,
) -> (r: Packages)
    ensures
        r.extensions@.len() == extensions@.len(),
        forall|i: int|
            0 <= i < extensions@.len() ==> package_of(
                extensions@[i]@,
                #[trigger] r.extensions@[i],
            ),
        r.skills@.len() == skills@.len(),
        forall|i: int| 0 <= i < skills@.len() ==> package_of(skills@[i]@, #[trigger] r.skills@[i]),
        r.themes@.len() == themes@.len(),
        forall|i: int| 0 <= i < themes@.len() ==> package_of(themes@[i]@, #[trigger] r.themes@[i]),
{
    Packages {
        extensions: entries_of(extensions),
        skills: entries_of(skills),
        themes: entries_of(themes),
    }
}

/// Complete the manifest after the contents were packed: record what was
/// packed, the scanned packages (with skills), the encryption (with
/// secrets), the checksum, the crypto format, a default compatibility
/// floor of `0.1.0`, and the origin of this pack.
pub fn finalize_pack_manifest(
    m: Manifest,
    flags: &PackFlags,
    packages: Packages,
    checksum: String,
    origin_machine: String,
    packed_at: String,
) -> (r: Manifest)
    ensures
        r.contents.config == flags.config,
        r.contents.memory == flags.memory,
        r.contents.skills == flags.skills,
        r.contents.secrets == flags.secrets,
        r.packages == if flags.skills {
            packages
        } else {
            m.packages
        },
        r.security.secrets_encrypted == (flags.secrets || m.security.secrets_encrypted),
        flags.secrets ==> (r.security.encryption matches Some(e) && e@ == CRYPTO_FORMAT_IDENTIFIER@),
        !flags.secrets ==> r.security.encryption == m.security.encryption,
        r.integrity.checksum matches Some(c) && c@ == checksum@,
        r.integrity.format_version == 1,
        r.integrity.algorithm == m.integrity.algorithm,
        r.crypto == Some(CryptoMeta { format_version: CRYPTO_FORMAT_VERSION }),
        m.compatibility is None ==> (r.compatibility matches Some(c) && c.min_agentpacknest_version@
            == "0.1.0"@),
        m.compatibility is Some ==> r.compatibility == m.compatibility,
        r.origin matches Some(o) && o.origin_machine@ == origin_machine@ && o.packed_at@
            == packed_at@ && o.source_state_hash is None,
        r.schema_version == m.schema_version,
        r.agentpacknest_version == m.agentpacknest_version,
        r.bundle_version == m.bundle_version,
        r.bundle == m.bundle,
        r.harness == m.harness,
        r.platform == m.platform,
        r.runtime == m.runtime,
        r.launch == m.launch,
{
    let mut m = m;
    m.contents.config = flags.config;
    m.contents.memory = flags.memory;
    m.contents.skills = flags.skills;
    m.contents.secrets = flags.secrets;
    if flags.skills {
        m.packages = packages;
    }
    if flags.secrets {
        m.security.secrets_encrypted = true;
        m.security.encryption = Some(String::from_str(CRYPTO_FORMAT_IDENTIFIER));
    }
    m.integrity.checksum = Some(checksum);
    m.integrity.format_version = 1;
    m.crypto = Some(CryptoMeta { format_version: CRYPTO_FORMAT_VERSION });
    if m.compatibility.is_none() {
        m.compatibility = Some(
            Compatibility { min_agentpacknest_version: String::from_str("0.1.0") },
        );
    }
    m.origin = Some(OriginMeta { origin_machine, packed_at, source_state_hash: None });
    m
}

/// In a copy plan an entry is left out exactly when a pattern ignores it;
/// otherwise a directory is created and a file copied.
pub proof fn lemma_copy_plan_law(kind: EntryKind, ignored: bool)
    requires
        kind != EntryKind::Symlink,
    ensures
        (action_for(kind, ignored) == CopyAction::Ignored) <==> ignored,
        (action_for(kind, ignored) == CopyAction::CopyFile) <==> (!ignored && kind
            == EntryKind::File),
        (action_for(kind, ignored) == CopyAction::MakeDir) <==> (!ignored && kind
            == EntryKind::Dir),
{
}

/// A copy is refused exactly when the tree holds a symbolic link.
pub proof fn lemma_symlink_refused(entries: Seq<TreeEntry>)
    ensures
        first_symlink(entries) is Some <==> exists|j: int|
            0 <= j < entries.len() && (#[trigger] entries[j]).kind == EntryKind::Symlink,
{
    lemma_first_symlink(entries);
    if first_symlink(entries) is Some {
        let i = first_symlink(entries)->Some_0;
        assert(entries[i].kind == EntryKind::Symlink);
    }
}

} // verus!
