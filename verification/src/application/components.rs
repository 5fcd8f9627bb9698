//! Packing the portable components a harness describes: which components a
//! pack takes, whether a component may be copied, and what happens to each
//! entry of its tree. Files that a secret source reads are never copied as
//! plaintext; they only reach the bundle encrypted.

use vstd::prelude::*;
use crate::application::pack_bundle::{
    CopyAction, EntryKind, PackError, PackFlags, TreeEntry, action_for,
};
use crate::harness::traits::{PortableComponent, PortableKind, SecretFormat};
use crate::paths::{join, join_spec};
use crate::security::secrets::{env_file_name, is_env_file_name};
use crate::text::{contains_char, has_prefix, split, split_char, starts_with, str_eq, views};
use crate::utils::ignore::{IgnorePatterns, ignored_by};

verus! {

/// Whether a pack with these flags takes components of this kind (secret
/// sources are sealed, not copied).
pub open spec fn packs_kind_spec(flags: PackFlags, kind: PortableKind) -> bool {
    match kind {
        PortableKind::Config => flags.config,
        PortableKind::Memory => flags.memory,
        PortableKind::Extensions | PortableKind::Skills | PortableKind::Themes => flags.skills,
        PortableKind::SecretSource => false,
    }
}

/// Whether a pack with these flags copies components of this kind.
pub fn packs_kind(flags: &PackFlags, kind: PortableKind) -> (r: bool)
    ensures
        r == packs_kind_spec(*flags, kind),
{
    match kind {
        PortableKind::Config => flags.config,
        PortableKind::Memory => flags.memory,
        PortableKind::Extensions | PortableKind::Skills | PortableKind::Themes => flags.skills,
        PortableKind::SecretSource => false,
    }
}

/// Whether a component may be copied: a missing source is an error when
/// the component is required and is skipped (`Ok(false)`) otherwise; an
/// existing destination needs `--force`.
pub fn component_precheck(
    c: &PortableComponent,
    src_exists: bool,
    dst: &str,
    dst_exists: bool,
    force: bool,
) -> (r: Result<bool, PackError>)
    ensures
        !src_exists && c.required ==> (r matches Err(PackError::MissingSource { path }) && path@
            == c.source@),
        !src_exists && !c.required ==> r == Ok::<bool, PackError>(false),
        src_exists && dst_exists && !force ==> (r matches Err(PackError::DestinationExists { path })
            && path@ == dst@),
        src_exists && (!dst_exists || force) ==> r == Ok::<bool, PackError>(true),
{
    if !src_exists {
        if c.required {
            return Err(PackError::MissingSource { path: c.source.clone() });
        }
        return Ok(false);
    }
    if dst_exists && !force {
        return Err(PackError::DestinationExists { path: String::from_str(dst) });
    }
    Ok(true)
}

// ---------------------------------------------------------------------------
// Excluded names
// ---------------------------------------------------------------------------

/// The first `/`-separated segment of a relative path.
pub open spec fn first_segment(rel: Seq<char>) -> Seq<char> {
    split_char(rel, '/')[0]
}

/// Whether an entry lies under one of the names a component leaves out.
pub open spec fn excluded_by(excludes: Seq<Seq<char>>, rel: Seq<char>) -> bool {
    excludes.contains(first_segment(rel))
}

/// The names a component leaves out, as values.
pub open spec fn excludes_of(c: PortableComponent) -> Seq<Seq<char>> {
    c.excludes@.map_values(|e: String| e@)
}

/// Whether the entry at `rel` lies under one of `c`'s excluded names.
pub fn is_excluded(c: &PortableComponent, rel: &str) -> (r: bool)
    ensures
        r == excluded_by(excludes_of(*c), rel@),
{
    let parts = split(rel, '/');
    proof {
        assert(split_char(rel@, '/').len() >= 1);
    }
    let first = parts[0];
    assert(first@ == first_segment(rel@));
    let mut i: usize = 0;
    while i < c.excludes.len()
        invariant
            i <= c.excludes@.len(),
            first@ == first_segment(rel@),
            forall|j: int| 0 <= j < i ==> c.excludes@[j]@ != first@,
        decreases c.excludes@.len() - i,
    {
        if str_eq(c.excludes[i].as_str(), first) {
            assert(excludes_of(*c)[i as int] == first@);
            return true;
        }
        i = i + 1;
    }
    assert(!excludes_of(*c).contains(first@)) by {
        if excludes_of(*c).contains(first@) {
            let j = choose|j: int| 0 <= j < excludes_of(*c).len() && excludes_of(*c)[j] == first@;
            assert(c.excludes@[j]@ == first@);
        }
    }
    false
}

// ---------------------------------------------------------------------------
// Files that secret sources read
// ---------------------------------------------------------------------------

/// `dir` with a trailing `/`: the prefix of the paths inside it.
pub open spec fn dir_prefix(dir: Seq<char>) -> Seq<char> {
    join_spec(dir, Seq::empty())
}

/// Whether the secret source `c` reads the file at `path`: its credentials
/// file, any file of its key-per-file directory, or an `.env`-style file
/// directly inside its `.env` directory.
pub open spec fn reads_secret(c: PortableComponent, path: Seq<char>) -> bool {
    let prefix = dir_prefix(c.source@);
    let rest = path.skip(prefix.len() as int);
    &&& c.kind == PortableKind::SecretSource
    &&& match c.secret_format {
        Some(SecretFormat::AuthJsonFile) => path == c.source@,
        Some(SecretFormat::KeyFileDir) => has_prefix(path, prefix) && path.len() > prefix.len(),
        Some(SecretFormat::DotEnvDir) => has_prefix(path, prefix) && !rest.contains('/')
            && env_file_name(rest),
        None => false,
    }
}

/// Whether one of the secret sources reads the file at `path`.
pub open spec fn secret_file(sources: Seq<PortableComponent>, path: Seq<char>) -> bool {
    exists|i: int| 0 <= i < sources.len() && reads_secret(#[trigger] sources[i], path)
}

fn reads_secret_exec(c: &PortableComponent, path: &str) -> (r: bool)
    ensures
        r == reads_secret(*c, path@),
{
    match c.kind {
        PortableKind::SecretSource => {},
        _ => {
            return false;
        },
    }
    proof {
        reveal_strlit("");
    }
    let prefix = join(c.source.as_str(), "");
    assert(prefix@ == dir_prefix(c.source@));
    let n = path.unicode_len();
    let m = prefix.unicode_len();
    match c.secret_format {
        Some(SecretFormat::AuthJsonFile) => str_eq(path, c.source.as_str()),
        Some(SecretFormat::KeyFileDir) => starts_with(path, prefix.as_str()) && n > m,
        Some(SecretFormat::DotEnvDir) => {
            if !starts_with(path, prefix.as_str()) {
                return false;
            }
            let rest = path.substring_char(m, n);
            assert(rest@ =~= path@.skip(m as int));
            !contains_char(rest, '/') && is_env_file_name(rest)
        },
        None => false,
    }
}

/// Whether one of the secret sources reads the file at `path`.
pub fn is_secret_file(sources: &Vec<PortableComponent>, path: &str) -> (r: bool)
    ensures
        r == secret_file(sources@, path@),
{
    let mut i: usize = 0;
    while i < sources.len()
        invariant
            i <= sources@.len(),
            forall|j: int| 0 <= j < i ==> !reads_secret(#[trigger] sources@[j], path@),
        decreases sources@.len() - i,
    {
        if reads_secret_exec(&sources[i], path) {
            return true;
        }
        i = i + 1;
    }
    false
}

// ---------------------------------------------------------------------------
// Planning a component's copy
// ---------------------------------------------------------------------------

/// What happens to an entry of a component's tree: excluded names and
/// files that a secret source reads stay out, ignore patterns apply, then
/// directories are created and files copied.
pub open spec fn component_action(
    c: PortableComponent,
    sources: Seq<PortableComponent>,
    ignore: Seq<Seq<char>>,
    e: TreeEntry,
) -> CopyAction {
    if excluded_by(excludes_of(c), e.rel@) {
        CopyAction::Excluded
    } else if e.kind == EntryKind::File && secret_file(sources, join_spec(c.source@, e.rel@)) {
        CopyAction::Excluded
    } else {
        action_for(e.kind, ignored_by(ignore, e.rel@))
    }
}

/// Whether the copy meets the entry as a symbolic link.
pub open spec fn copied_symlink(excludes: Seq<Seq<char>>, e: TreeEntry) -> bool {
    e.kind == EntryKind::Symlink && !excluded_by(excludes, e.rel@)
}

/// Index of the first symbolic link the copy would meet.
pub open spec fn first_copied_symlink(excludes: Seq<Seq<char>>, entries: Seq<TreeEntry>) -> Option<
    int,
>
    decreases entries.len(),
{
    if entries.len() == 0 {
        None
    } else if copied_symlink(excludes, entries[0]) {
        Some(0)
    } else {
        match first_copied_symlink(excludes, entries.drop_first()) {
            Some(i) => Some(i + 1),
            None => None,
        }
    }
}

proof fn lemma_first_copied_symlink(excludes: Seq<Seq<char>>, entries: Seq<TreeEntry>)
    ensures
        first_copied_symlink(excludes, entries) matches Some(i) ==> 0 <= i < entries.len()
            && copied_symlink(excludes, entries[i]) && forall|j: int|
            0 <= j < i ==> !copied_symlink(excludes, #[trigger] entries[j]),
        first_copied_symlink(excludes, entries) is None ==> forall|j: int|
            0 <= j < entries.len() ==> !copied_symlink(excludes, #[trigger] entries[j]),
    decreases entries.len(),
{
    if entries.len() > 0 && !copied_symlink(excludes, entries[0]) {
        lemma_first_copied_symlink(excludes, entries.drop_first());
        assert forall|j: int| 1 <= j < entries.len() implies entries[j] == entries.drop_first()[j
            - 1] by {}
    }
}

fn entry_action(
    c: &PortableComponent,
    sources: &Vec<PortableComponent>,
    ignore: &IgnorePatterns,
    e: &TreeEntry,
) -> (r: CopyAction)
    requires
        !excluded_by(excludes_of(*c), e.rel@) ==> e.kind != EntryKind::Symlink,
    ensures
        r == component_action(*c, sources@, ignore@, *e),
{
    if is_excluded(c, e.rel.as_str()) {
        return CopyAction::Excluded;
    }
    match e.kind {
        EntryKind::File => {
            let full = join(c.source.as_str(), e.rel.as_str());
            if is_secret_file(sources, full.as_str()) {
                return CopyAction::Excluded;
            }
        },
        _ => {},
    }
    if ignore.is_ignored(e.rel.as_str()) {
        CopyAction::Ignored
    } else {
        match e.kind {
            EntryKind::Dir => CopyAction::MakeDir,
            _ => CopyAction::CopyFile,
        }
    }
}

/// Plan the copy of a walked component tree, in walk order: a symbolic
/// link that the copy would meet is refused (the first one is reported);
/// otherwise each entry gets its `component_action`. `sources` are the
/// environment's components, whose secret sources say which files stay out.
pub fn plan_component_copy(
    c: &PortableComponent,
    sources: &Vec<PortableComponent>,
    entries: &Vec<TreeEntry>,
    ignore: &IgnorePatterns,
) -> (r: Result<Vec<CopyAction>, PackError>)
    ensures
        match first_copied_symlink(excludes_of(*c), entries@) {
            Some(i) => r matches Err(PackError::SymlinkNotAllowed { path }) && path@
                == entries@[i].rel@,
            None => r matches Ok(actions) && actions@.len() == entries@.len() && forall|i: int|
                0 <= i < entries@.len() ==> #[trigger] actions@[i] == component_action(
                    *c,
                    sources@,
                    ignore@,
                    entries@[i],
                ),
        },
{
    let ghost ex = excludes_of(*c);
    proof {
        lemma_first_copied_symlink(ex, entries@);
    }
    let mut actions: Vec<CopyAction> = Vec::new();
    let mut i: usize = 0;
    while i < entries.len()
        invariant
            i <= entries@.len(),
            ex == excludes_of(*c),
            actions@.len() == i,
            forall|j: int| 0 <= j < i ==> !copied_symlink(ex, #[trigger] entries@[j]),
            forall|j: int|
                0 <= j < i ==> #[trigger] actions@[j] == component_action(
                    *c,
                    sources@,
                    ignore@,
                    entries@[j],
                ),
            first_copied_symlink(ex, entries@) matches Some(k) ==> 0 <= k < entries@.len()
                && copied_symlink(ex, entries@[k]) && forall|j: int|
                0 <= j < k ==> !copied_symlink(ex, #[trigger] entries@[j]),
            first_copied_symlink(ex, entries@) is None ==> forall|j: int|
                0 <= j < entries@.len() ==> !copied_symlink(ex, #[trigger] entries@[j]),
        decreases entries@.len() - i,
    {
        let e = &entries[i];
        let excluded = is_excluded(c, e.rel.as_str());
        if !excluded {
            match e.kind {
                EntryKind::Symlink => {
                    proof {
                        assert(copied_symlink(ex, entries@[i as int]));
                        if first_copied_symlink(ex, entries@) is Some {
                            let k = first_copied_symlink(ex, entries@)->Some_0;
                            assert(k == i);
                        }
                    }
                    return Err(PackError::SymlinkNotAllowed { path: e.rel.clone() });
                },
                _ => {},
            }
        }
        let a = entry_action(c, sources, ignore, e);
        actions.push(a);
        i = i + 1;
    }
    proof {
        if first_copied_symlink(ex, entries@) is Some {
            let k = first_copied_symlink(ex, entries@)->Some_0;
            assert(!copied_symlink(ex, entries@[k]));
        }
    }
    Ok(actions)
}

/// A file that a secret source reads is never copied as plaintext, whatever
/// the ignore patterns say.
pub proof fn lemma_secret_files_never_copied(
    c: PortableComponent,
    sources: Seq<PortableComponent>,
    ignore: Seq<Seq<char>>,
    e: TreeEntry,
)
    requires
        e.kind == EntryKind::File,
        secret_file(sources, join_spec(c.source@, e.rel@)),
    ensures
        component_action(c, sources, ignore, e) == CopyAction::Excluded,
{
}

/// The `--skills` flag governs all three package kinds: extensions, skills
/// and themes are packed exactly when it is set; config and memory follow
/// their own flags, and secret sources are never copied.
pub proof fn lemma_pack_flags_govern_kinds(flags: PackFlags)
    ensures
        packs_kind_spec(flags, PortableKind::Skills) <==> flags.skills,
        packs_kind_spec(flags, PortableKind::Extensions) <==> flags.skills,
        packs_kind_spec(flags, PortableKind::Themes) <==> flags.skills,
        packs_kind_spec(flags, PortableKind::Config) <==> flags.config,
        packs_kind_spec(flags, PortableKind::Memory) <==> flags.memory,
        !packs_kind_spec(flags, PortableKind::SecretSource),
{
}

/// In a component's copy plan a file is copied exactly when it lies under
/// none of the component's excluded names, no secret source reads it and
/// no pattern ignores it; a directory is created exactly when it is neither
/// excluded nor ignored; nothing excluded is ever reported as ignored.
pub proof fn lemma_component_copy_law(
    c: PortableComponent,
    sources: Seq<PortableComponent>,
    ignore: Seq<Seq<char>>,
    e: TreeEntry,
)
    requires
        e.kind != EntryKind::Symlink,
    ensures
        (component_action(c, sources, ignore, e) == CopyAction::CopyFile) <==> (e.kind
            == EntryKind::File && !excluded_by(excludes_of(c), e.rel@) && !secret_file(
            sources,
            join_spec(c.source@, e.rel@),
        ) && !ignored_by(ignore, e.rel@)),
        (component_action(c, sources, ignore, e) == CopyAction::MakeDir) <==> (e.kind
            == EntryKind::Dir && !excluded_by(excludes_of(c), e.rel@) && !ignored_by(ignore, e.rel@)),
        excluded_by(excludes_of(c), e.rel@) ==> component_action(c, sources, ignore, e)
            == CopyAction::Excluded,
        (component_action(c, sources, ignore, e) == CopyAction::Ignored) ==> ignored_by(
            ignore,
            e.rel@,
        ),
{
}

/// A component's copy is refused exactly when one of its entries outside
/// the excluded names is a symbolic link.
pub proof fn lemma_component_symlink_refused(excludes: Seq<Seq<char>>, entries: Seq<TreeEntry>)
    ensures
        first_copied_symlink(excludes, entries) is Some <==> exists|j: int|
            0 <= j < entries.len() && (#[trigger] entries[j]).kind == EntryKind::Symlink
                && !excluded_by(excludes, entries[j].rel@),
{
    lemma_first_copied_symlink(excludes, entries);
    if first_copied_symlink(excludes, entries) is Some {
        let i = first_copied_symlink(excludes, entries)->Some_0;
        assert(entries[i].kind == EntryKind::Symlink && !excluded_by(excludes, entries[i].rel@));
    }
}

} // verus!
