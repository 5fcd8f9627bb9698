//! Ed25519 signing of the canonical manifest bytes.
//!
//! The signer holds a 32-byte seed; the bundle carries the 32-byte public
//! key (`signing/public.key`) and the 64-byte signature (`manifest.sig`).
//! A valid signature shows control of the private key that belongs to the
//! public key; it says nothing of who holds it.

use vstd::prelude::*;

verus! {

/// Length of a signing seed.
pub const SEED_LEN: usize = 32;
/// Length of a public key.
pub const PUBLIC_KEY_LEN: usize = 32;
/// Length of a signature.
pub const SIGNATURE_LEN: usize = 64;

/// Why signing or verification could not be carried out.
#[derive(Debug, Clone, Copy, PartialEq, Eq, Structural)]
pub enum SigningError {
    /// The keypair file does not hold 32 bytes.
    InvalidKeypair { len: usize },
    /// The public key does not hold 32 bytes.
    InvalidPublicKey { len: usize },
    /// The signature does not hold 64 bytes.
    InvalidSignature { len: usize },
    /// The 32 bytes are not a valid Ed25519 public key.
    MalformedPublicKey,
}

// ---------------------------------------------------------------------------
// Outside primitives
// ---------------------------------------------------------------------------

/// The public key (`VerifyingKey::to_bytes`) of the signing key with a
/// given 32-byte seed.
pub uninterp spec fn ed25519_public_key(seed: Seq<u8>) -> Seq<u8>;

/// The signature (`Signature::to_bytes`) that the signing key with a given
/// seed makes over a message.
pub uninterp spec fn ed25519_signature(seed: Seq<u8>, msg: Seq<u8>) -> Seq<u8>;

/// Whether `VerifyingKey::verify` accepts a signature over a message under
/// a public key; `None` when `VerifyingKey::from_bytes` rejects the key.
pub uninterp spec fn ed25519_accepts(public_key: Seq<u8>, msg: Seq<u8>, sig: Seq<u8>) -> Option<bool>;

/// `SigningKey::from_bytes(seed).verifying_key().to_bytes()`.
/// Claims: the named public key of the seed, 32 bytes.
#[verifier::external_body]
fn public_key_of_seed(seed: &[u8]) -> (r: Vec<u8>)
    requires
        seed@.len() == SEED_LEN,
    ensures
        r@ == ed25519_public_key(seed@),
        r@.len() == PUBLIC_KEY_LEN,
{
    let mut b = [0u8; 32];
    b.copy_from_slice(seed);
    ed25519_dalek::SigningKey::from_bytes(&b).verifying_key().to_bytes().to_vec()
}

/// `Signer::sign` with `SigningKey::from_bytes(seed)`.
/// Claims: the named signature, 64 bytes, which verification under the
/// seed's public key accepts (Ed25519 signatures verify under the key that
/// made them).
#[verifier::external_body]
fn sign_with_seed(seed: &[u8], msg: &[u8]) -> (r: Vec<u8>)
    requires
        seed@.len() == SEED_LEN,
    ensures
        r@ == ed25519_signature(seed@, msg@),
        r@.len() == SIGNATURE_LEN,
        ed25519_accepts(ed25519_public_key(seed@), msg@, r@) == Some(true),
{
    let mut b = [0u8; 32];
    b.copy_from_slice(seed);
    let key = ed25519_dalek::SigningKey::from_bytes(&b);
    ed25519_dalek::Signer::sign(&key, msg).to_bytes().to_vec()
}

/// `VerifyingKey::from_bytes(public_key)` and then `Verifier::verify` of
/// `Signature::from_bytes(sig)` over `msg`.
/// Claims: the named outcome: `None` when the key bytes are not a valid
/// key, else whether verification succeeded.
#[verifier::external_body]
fn verify_with_key(public_key: &[u8], msg: &[u8], sig: &[u8]) -> (r: Option<bool>)
    requires
        public_key@.len() == PUBLIC_KEY_LEN,
        sig@.len() == SIGNATURE_LEN,
    ensures
        r == ed25519_accepts(public_key@, msg@, sig@),
{
    let mut kb = [0u8; 32];
    kb.copy_from_slice(public_key);
    let mut sb = [0u8; 64];
    sb.copy_from_slice(sig);
    match ed25519_dalek::VerifyingKey::from_bytes(&kb) {
        Ok(k) => Some(ed25519_dalek::Verifier::verify(&k, msg, &ed25519_dalek::Signature::from_bytes(&sb)).is_ok()),
        Err(_) => None,
    }
}

/// `SigningKey::generate(&mut rand::thread_rng()).to_bytes()`: a fresh
/// random seed.
/// Claims: 32 bytes; nothing of their value.
#[verifier::external_body]
fn random_seed() -> (r: Vec<u8>)
    ensures
        r@.len() == SEED_LEN,
{
    ed25519_dalek::SigningKey::generate(&mut rand::thread_rng()).to_bytes().to_vec()
}

// ---------------------------------------------------------------------------
// Operations
// ---------------------------------------------------------------------------

/// The outcome of verifying `sig` over `data` under `public_key`.
pub open spec fn verify_spec(data: Seq<u8>, sig: Seq<u8>, public_key: Seq<u8>) -> Result<
    bool,
    SigningError,
> {
    if public_key.len() != PUBLIC_KEY_LEN {
        Err(SigningError::InvalidPublicKey { len: public_key.len() as usize })
    } else if sig.len() != SIGNATURE_LEN {
        Err(SigningError::InvalidSignature { len: sig.len() as usize })
    } else {
        match ed25519_accepts(public_key, data, sig) {
            None => Err(SigningError::MalformedPublicKey),
            Some(ok) => Ok(ok),
        }
    }
}

/// A freshly generated keypair: the private seed and its public key.
pub struct KeyPair {
    pub seed: Vec<u8>,
    pub public_key: Vec<u8>,
}

/// Generate a new signing keypair.
pub fn generate_keypair() -> (r: KeyPair)
    ensures
        r.seed@.len() == SEED_LEN,
        r.public_key@ == ed25519_public_key(r.seed@),
        r.public_key@.len() == PUBLIC_KEY_LEN,
{
    let seed = random_seed();
    let public_key = public_key_of_seed(seed.as_slice());
    KeyPair { seed, public_key }
}

/// The public key for the keypair file contents `seed`.
pub fn get_public_key_bytes(seed: &[u8]) -> (r: Result<Vec<u8>, SigningError>)
    ensures
        seed@.len() != SEED_LEN ==> r == Err::<Vec<u8>, SigningError>(
            SigningError::InvalidKeypair { len: seed@.len() as usize },
        ),
        seed@.len() == SEED_LEN ==> (r matches Ok(pk) && pk@ == ed25519_public_key(seed@)
            && pk@.len() == PUBLIC_KEY_LEN),
{
    if seed.len() != SEED_LEN {
        return Err(SigningError::InvalidKeypair { len: seed.len() });
    }
    Ok(public_key_of_seed(seed))
}

/// Sign `data` with the keypair file contents `seed`.
pub fn sign(seed: &[u8], data: &[u8]) -> (r: Result<Vec<u8>, SigningError>)
    ensures
        seed@.len() != SEED_LEN ==> r == Err::<Vec<u8>, SigningError>(
            SigningError::InvalidKeypair { len: seed@.len() as usize },
        ),
        seed@.len() == SEED_LEN ==> (r matches Ok(sig) && sig@ == ed25519_signature(
            seed@,
            data@,
        )),
        r matches Ok(sig) ==> sig@.len() == SIGNATURE_LEN && ed25519_accepts(
            ed25519_public_key(seed@),
            data@,
            sig@,
        ) == Some(true),
{
    if seed.len() != SEED_LEN {
        return Err(SigningError::InvalidKeypair { len: seed.len() });
    }
    Ok(sign_with_seed(seed, data))
}

/// Sign the canonical manifest bytes with the keypair file contents `seed`.
pub fn sign_canonical_manifest(canonical_bytes: &[u8], seed: &[u8]) -> (r: Result<
    Vec<u8>,
    SigningError,
>)
    ensures
        seed@.len() != SEED_LEN ==> r == Err::<Vec<u8>, SigningError>(
            SigningError::InvalidKeypair { len: seed@.len() as usize },
        ),
        seed@.len() == SEED_LEN ==> (r matches Ok(sig) && sig@ == ed25519_signature(
            seed@,
            canonical_bytes@,
        )),
        r matches Ok(sig) ==> sig@.len() == SIGNATURE_LEN && ed25519_accepts(
            ed25519_public_key(seed@),
            canonical_bytes@,
            sig@,
        ) == Some(true),
{
    sign(seed, canonical_bytes)
}

/// Verify a signature over `data` against a public key.
pub fn verify(data: &[u8], signature_bytes: &[u8], public_key_bytes: &[u8]) -> (r: Result<
    bool,
    SigningError,
>)
    ensures
        r == verify_spec(data@, signature_bytes@, public_key_bytes@),
{
    if public_key_bytes.len() != PUBLIC_KEY_LEN {
        return Err(SigningError::InvalidPublicKey { len: public_key_bytes.len() });
    }
    if signature_bytes.len() != SIGNATURE_LEN {
        return Err(SigningError::InvalidSignature { len: signature_bytes.len() });
    }
    match verify_with_key(public_key_bytes, data, signature_bytes) {
        None => Err(SigningError::MalformedPublicKey),
        Some(ok) => Ok(ok),
    }
}

/// A signature made with a seed verifies, over the same bytes, under the
/// public key of that seed: what `sign` returns is accepted by `verify`
/// with the key that `get_public_key_bytes` returns.
pub proof fn lemma_sign_verify_roundtrip(seed: Seq<u8>, data: Seq<u8>, sig: Seq<u8>, public_key: Seq<u8>)
    requires
        public_key == ed25519_public_key(seed),
        public_key.len() == PUBLIC_KEY_LEN,
        sig.len() == SIGNATURE_LEN,
        ed25519_accepts(ed25519_public_key(seed), data, sig) == Some(true),
    ensures
        verify_spec(data, sig, public_key) == Ok::<bool, SigningError>(true),
{
}

} // verus!
