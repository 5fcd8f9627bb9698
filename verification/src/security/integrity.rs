//! Payload integrity: the SHA-256 checksum of a bundle's payload.
//!
//! The payload is every file under `agent/` and `secrets/` (bundle-relative
//! paths with `/` separators); `manifest.yaml`, `manifest.sig` and
//! `signing/public.key` are outside it. Files are taken in order of their
//! relative path, and each contributes `path ‖ NUL ‖ contents` to the hashed
//! stream. The checksum is the lower-case hex form of the digest.

use vstd::prelude::*;
use vstd::utf8::encode_utf8;
use sha2::Digest;
use crate::text::{has_prefix, starts_with, str_eq};
use crate::sorting::{Keyed, sorted_by, key_of, sort_by_key, distinct_keys, lemma_sorted_by_permutation};
use crate::hexfmt::{hex_lower, hex_encode, lemma_hex_lower};

verus! {

/// A file of the bundle: its bundle-relative path (with `/` separators) and
/// its contents.
#[derive(Clone, Debug)]
pub struct PayloadFile {
    pub path: String,
    pub content: Vec<u8>,
}

impl Keyed for PayloadFile {
    open spec fn key(&self) -> Seq<char> {
        self.path@
    }

    fn key_str(&self) -> (r: &str) {
        self.path.as_str()
    }
}

/// `agent/`
pub open spec fn agent_prefix() -> Seq<char> {
    seq!['a', 'g', 'e', 'n', 't', '/']
}

/// `secrets/`
pub open spec fn secrets_prefix() -> Seq<char> {
    seq!['s', 'e', 'c', 'r', 'e', 't', 's', '/']
}

/// Whether a bundle-relative path lies in the payload.
pub open spec fn in_payload(path: Seq<char>) -> bool {
    has_prefix(path, agent_prefix()) || has_prefix(path, secrets_prefix())
}

/// Whether the file at bundle-relative `path` is part of the payload
/// (`agent/` or `secrets/`).
pub fn is_payload_path(path: &str) -> (r: bool)
    ensures
        r == in_payload(path@),
{
    proof {
        reveal_strlit("agent/");
        reveal_strlit("secrets/");
        assert("agent/"@ =~= agent_prefix());
        assert("secrets/"@ =~= secrets_prefix());
    }
    starts_with(path, "agent/") || starts_with(path, "secrets/")
}

/// The payload files of `fs`, in their order.
pub open spec fn payload_only(fs: Seq<PayloadFile>) -> Seq<PayloadFile>
    decreases fs.len(),
{
    if fs.len() == 0 {
        Seq::empty()
    } else {
        let p = payload_only(fs.drop_last());
        if in_payload(fs.last().path@) {
            p.push(fs.last())
        } else {
            p
        }
    }
}

/// The bytes one file contributes: `path ‖ NUL ‖ contents`.
pub open spec fn frame_file(f: PayloadFile) -> Seq<u8> {
    encode_utf8(f.path@) + seq![0u8] + f.content@
}

/// The hashed stream of a sequence of files.
pub open spec fn frame_all(fs: Seq<PayloadFile>) -> Seq<u8>
    decreases fs.len(),
{
    if fs.len() == 0 {
        Seq::empty()
    } else {
        frame_all(fs.drop_last()) + frame_file(fs.last())
    }
}

/// What `Sha256::digest` returns for `data`.
pub uninterp spec fn sha256(data: Seq<u8>) -> Seq<u8>;

/// `sha2::Sha256::digest`.
/// Claims: the result is the named SHA-256 digest of the input, 32 bytes.
#[verifier::external_body]
fn sha256_digest(data: &[u8]) -> (r: Vec<u8>)
    ensures
        r@ == sha256(data@),
        r@.len() == 32,
{
    sha2::Sha256::digest(data).to_vec()
}

/// The checksum of a bundle whose files are `fs`.
pub open spec fn checksum_spec(fs: Seq<PayloadFile>) -> Seq<char> {
    hex_lower(sha256(frame_all(sorted_by(payload_only(fs), key_of::<PayloadFile>()))))
}

/// Keep the payload files, in order.
fn select_payload(files: Vec<PayloadFile>) -> (r: Vec<PayloadFile>)
    ensures
        r@ == payload_only(files@),
{
    let ghost orig = files@;
    let mut rem = files;
    let mut out: Vec<PayloadFile> = Vec::new();
    let mut i: usize = 0;
    let n = rem.len();
    while i < n
        invariant
            n == orig.len(),
            i <= n,
            rem@ == orig.skip(i as int),
            out@ == payload_only(orig.take(i as int)),
        decreases n - i,
    {
        assert(rem@[0] == orig[i as int]);
        let f = rem.remove(0);
        assert(orig.take(i + 1).drop_last() =~= orig.take(i as int));
        if is_payload_path(f.path.as_str()) {
            out.push(f);
        }
        assert(rem@ =~= orig.skip(i + 1));
        i = i + 1;
    }
    assert(orig.take(n as int) =~= orig);
    out
}

/// Append the framing of each file.
fn frame_files(files: &Vec<PayloadFile>) -> (r: Vec<u8>)
    ensures
        r@ == frame_all(files@),
{
    let mut out: Vec<u8> = Vec::new();
    let mut i: usize = 0;
    while i < files.len()
        invariant
            i <= files@.len(),
            out@ == frame_all(files@.take(i as int)),
        decreases files@.len() - i,
    {
        let f = &files[i];
        let ghost before = out@;
        let pb = f.path.as_str().as_bytes();
        let mut j: usize = 0;
        while j < pb.len()
            invariant
                j <= pb@.len(),
                out@ == before + pb@.take(j as int),
            decreases pb@.len() - j,
        {
            out.push(pb[j]);
            assert(out@ =~= before + pb@.take(j + 1));
            j = j + 1;
        }
        out.push(0u8);
        let mut k: usize = 0;
        let ghost mid = out@;
        while k < f.content.len()
            invariant
                k <= f.content@.len(),
                out@ == mid + f.content@.take(k as int),
            decreases f.content@.len() - k,
        {
            out.push(f.content[k]);
            assert(out@ =~= mid + f.content@.take(k + 1));
            k = k + 1;
        }
        proof {
            assert(pb@.take(pb@.len() as int) =~= pb@);
            assert(f.content@.take(f.content@.len() as int) =~= f.content@);
            assert(files@.take(i + 1).drop_last() =~= files@.take(i as int));
            assert(out@ =~= before + frame_file(*f));
        }
        i = i + 1;
    }
    assert(files@.take(files@.len() as int) =~= files@);
    out
}

/// The payload checksum of a bundle: 64 lower-case hex digits.
pub fn compute_bundle_checksum(files: Vec<PayloadFile>) -> (r: String)
    ensures
        r@ == checksum_spec(files@),
        r@.len() == 64,
{
    let payload = select_payload(files);
    let sorted = sort_by_key(payload);
    let stream = frame_files(&sorted);
    let digest = sha256_digest(stream.as_slice());
    proof {
        lemma_hex_lower(digest@);
    }
    hex_encode(digest.as_slice())
}

/// Whether the payload checksum of a bundle equals `expected`.
pub fn verify_checksum(files: Vec<PayloadFile>, expected: &str) -> (r: bool)
    ensures
        r == (checksum_spec(files@) == expected@),
{
    let computed = compute_bundle_checksum(files);
    str_eq(computed.as_str(), expected)
}

// ---------------------------------------------------------------------------
// Laws
// ---------------------------------------------------------------------------

/// Adding a file outside the payload anywhere in the list keeps the payload.
proof fn lemma_payload_only_insert(fs: Seq<PayloadFile>, i: int, extra: PayloadFile)
    requires
        0 <= i <= fs.len(),
        !in_payload(extra.path@),
    ensures
        payload_only(fs.insert(i, extra)) == payload_only(fs),
    decreases fs.len(),
{
    let g = fs.insert(i, extra);
    if i == fs.len() {
        assert(g.drop_last() =~= fs);
    } else {
        assert(g.drop_last() =~= fs.drop_last().insert(i, extra));
        assert(g.last() == fs.last());
        lemma_payload_only_insert(fs.drop_last(), i, extra);
    }
}

/// Files outside `agent/` and `secrets/` (the manifest, its signature, the
/// public key) do not affect the checksum.
pub proof fn lemma_checksum_ignores_non_payload(fs: Seq<PayloadFile>, i: int, extra: PayloadFile)
    requires
        0 <= i <= fs.len(),
        !in_payload(extra.path@),
    ensures
        checksum_spec(fs.insert(i, extra)) == checksum_spec(fs),
{
    lemma_payload_only_insert(fs, i, extra);
}

/// The checksum is a function of the payload files and their contents
/// alone: two bundles with the same payload (in the same order) have the
/// same checksum, whatever else they hold.
pub proof fn lemma_checksum_depends_on_payload(a: Seq<PayloadFile>, b: Seq<PayloadFile>)
    requires
        payload_only(a) == payload_only(b),
    ensures
        checksum_spec(a) == checksum_spec(b),
{
}

/// How often a file occurs among the payload files of `fs`.
proof fn lemma_payload_only_count(fs: Seq<PayloadFile>)
    ensures
        forall|x: PayloadFile|
            #[trigger] payload_only(fs).to_multiset().count(x) == if in_payload(x.path@) {
                fs.to_multiset().count(x)
            } else {
                0
            },
    decreases fs.len(),
{
    broadcast use vstd::seq_lib::group_to_multiset_ensures;
    broadcast use vstd::multiset::group_multiset_axioms;

    if fs.len() == 0 {
        assert forall|x: PayloadFile| #[trigger]
            payload_only(fs).to_multiset().count(x) == if in_payload(x.path@) {
                fs.to_multiset().count(x)
            } else {
                0
            } by {
            assert(!payload_only(fs).contains(x));
            assert(!fs.contains(x));
        }
    } else {
        let d = fs.drop_last();
        let l = fs.last();
        lemma_payload_only_count(d);
        assert(fs =~= d.push(l));
        assert(fs.to_multiset() == d.to_multiset().insert(l));
        let p = payload_only(d);
        if in_payload(l.path@) {
            assert(payload_only(fs).to_multiset() == p.to_multiset().insert(l));
        }
    }
}

/// Every payload file of `fs` is a file of `fs`.
proof fn lemma_payload_only_from(fs: Seq<PayloadFile>)
    ensures
        forall|i: int|
            0 <= i < payload_only(fs).len() ==> fs.contains(#[trigger] payload_only(fs)[i]),
    decreases fs.len(),
{
    if fs.len() > 0 {
        let d = fs.drop_last();
        lemma_payload_only_from(d);
        assert forall|i: int| 0 <= i < payload_only(fs).len() implies fs.contains(
            #[trigger] payload_only(fs)[i],
        ) by {
            if i < payload_only(d).len() {
                let k = choose|k: int| 0 <= k < d.len() && d[k] == payload_only(d)[i];
                assert(fs[k] == d[k]);
            } else {
                assert(fs[fs.len() - 1] == fs.last());
            }
        }
    }
}

/// Distinct paths stay distinct among the payload files.
proof fn lemma_payload_only_distinct(fs: Seq<PayloadFile>)
    requires
        distinct_keys(fs, key_of::<PayloadFile>()),
    ensures
        distinct_keys(payload_only(fs), key_of::<PayloadFile>()),
    decreases fs.len(),
{
    let key = key_of::<PayloadFile>();
    if fs.len() > 0 {
        let d = fs.drop_last();
        assert forall|i: int, j: int| 0 <= i < j < d.len() implies key(#[trigger] d[i]) != key(
            #[trigger] d[j],
        ) by {
            assert(key(fs[i]) != key(fs[j]));
        }
        lemma_payload_only_distinct(d);
        lemma_payload_only_from(d);
        let p = payload_only(d);
        if in_payload(fs.last().path@) {
            let q = payload_only(fs);
            assert forall|i: int, j: int| 0 <= i < j < q.len() implies key(#[trigger] q[i]) != key(
                #[trigger] q[j],
            ) by {
                if j < p.len() {
                    assert(key(p[i]) != key(p[j]));
                } else {
                    assert(d.contains(p[i]));
                    let k = choose|k: int| 0 <= k < d.len() && d[k] == p[i];
                    assert(key(fs[k]) != key(fs[fs.len() - 1]));
                }
            }
        }
    }
}

/// The checksum does not depend on the order in which the files are
/// listed: two listings of the same files, whose paths are distinct, have
/// the same checksum.
pub proof fn lemma_checksum_order_independent(a: Seq<PayloadFile>, b: Seq<PayloadFile>)
    requires
        a.to_multiset() == b.to_multiset(),
        forall|i: int, j: int| 0 <= i < j < a.len() ==> (#[trigger] a[i]).path@ != (#[trigger] a[j]).path@,
    ensures
        checksum_spec(a) == checksum_spec(b),
{
    let key = key_of::<PayloadFile>();
    assert forall|i: int, j: int| 0 <= i < j < a.len() implies key(#[trigger] a[i]) != key(
        #[trigger] a[j],
    ) by {
        assert(a[i].path@ != a[j].path@);
    }
    lemma_payload_only_distinct(a);
    lemma_payload_only_count(a);
    lemma_payload_only_count(b);
    assert(payload_only(a).to_multiset() =~= payload_only(b).to_multiset());
    lemma_sorted_by_permutation(payload_only(a), payload_only(b), key);
}

/// The checksum covers exactly the files under `agent/` and `secrets/`:
/// those are the payload files, and no other file is.
pub proof fn lemma_payload_members(fs: Seq<PayloadFile>, f: PayloadFile)
    ensures
        payload_only(fs).contains(f) <==> (fs.contains(f) && (has_prefix(f.path@, "agent/"@)
            || has_prefix(f.path@, "secrets/"@))),
{
    reveal_strlit("agent/");
    reveal_strlit("secrets/");
    assert(agent_prefix() =~= "agent/"@);
    assert(secrets_prefix() =~= "secrets/"@);
    lemma_payload_only_count(fs);
    vstd::seq_lib::to_multiset_contains(fs, f);
    vstd::seq_lib::to_multiset_contains(payload_only(fs), f);
}

} // verus!
