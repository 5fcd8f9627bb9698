//! Passphrase encryption of secrets.
//!
//! Format: `[16B salt][12B nonce][ciphertext + 16B GCM tag]`, where the key
//! is derived from the passphrase and the salt with Argon2 (default
//! parameters) and the data is sealed with AES-256-GCM.

use vstd::prelude::*;
use vstd::utf8::encode_utf8;
use crate::system::os_random_bytes;
use aes_gcm::aead::{Aead, KeyInit};

verus! {

pub const SALT_LEN: usize = 16;
pub const NONCE_LEN: usize = 12;
pub const KEY_LEN: usize = 32;
/// Length of the GCM authentication tag appended to the ciphertext.
pub const TAG_LEN: usize = 16;
/// Longest password Argon2 accepts (`argon2::MAX_PWD_LEN`).
pub const MAX_PASSWORD_LEN: u64 = 4294967295;
/// Shortest salt Argon2 accepts (`argon2::MIN_SALT_LEN`).
pub const MIN_SALT_LEN: u64 = 8;
/// Longest plaintext AES-GCM seals (`aes_gcm::P_MAX`, 2^36 bytes).
pub const MAX_PLAINTEXT_LEN: u64 = 68719476736;
/// Version of the encryption format described above.
pub const CRYPTO_FORMAT_VERSION: u32 = 1;
/// Name of the encryption format recorded in manifests.
pub const CRYPTO_FORMAT_IDENTIFIER: &'static str = "aes-256-gcm/argon2id/v1";

/// Why encryption or decryption failed.
#[derive(Debug, Clone, Copy, PartialEq, Eq, Structural)]
pub enum CryptoError {
    /// The passphrase is empty.
    EmptyPassphrase,
    /// The two passphrases entered differ.
    PassphraseMismatch,
    /// Argon2 refused its inputs.
    KeyDerivationFailed,
    /// AES-GCM refused to seal the data.
    EncryptionFailed,
    /// The encrypted data is shorter than salt, nonce and one byte.
    TooShort { len: usize },
    /// Wrong passphrase or corrupted data.
    DecryptionFailed,
}

// ---------------------------------------------------------------------------
// Outside primitives
// ---------------------------------------------------------------------------

/// What `Argon2::default().hash_password_into` writes into a 32-byte buffer
/// for a password and a salt, or `None` when it returns an error.
pub uninterp spec fn argon2_key(password: Seq<u8>, salt: Seq<u8>) -> Option<Seq<u8>>;

/// What `Aes256Gcm::encrypt` returns (ciphertext with tag) for a key, a
/// nonce and a plaintext, or `None` when it returns an error.
pub uninterp spec fn aes_gcm_seal(key: Seq<u8>, nonce: Seq<u8>, plaintext: Seq<u8>) -> Option<Seq<u8>>;

/// What `Aes256Gcm::decrypt` returns for a key, a nonce and a ciphertext
/// with tag, or `None` when authentication fails.
pub uninterp spec fn aes_gcm_open(key: Seq<u8>, nonce: Seq<u8>, ciphertext: Seq<u8>) -> Option<Seq<u8>>;

/// `argon2::Argon2::default().hash_password_into` into a 32-byte key.
/// Claims: the result is the named Argon2 output, of 32 bytes; it fails only
/// on a password longer than `MAX_PWD_LEN` or a salt outside
/// `MIN_SALT_LEN..=MAX_SALT_LEN` (its only input checks; the 32-byte output
/// is within the default output bounds and the memory is allocated to fit).
#[verifier::external_body]
fn derive_key(password: &[u8], salt: &[u8]) -> (r: Option<Vec<u8>>)
    ensures
        match r {
            Some(k) => argon2_key(password@, salt@) == Some(k@) && k@.len() == KEY_LEN,
            None => argon2_key(password@, salt@) is None,
        },
        password@.len() <= MAX_PASSWORD_LEN && MIN_SALT_LEN <= salt@.len() <= 4294967295 ==> r is Some,
{
    let mut key = [0u8; 32];
    match argon2::Argon2::default().hash_password_into(password, salt, &mut key) {
        Ok(()) => Some(key.to_vec()),
        Err(_) => None,
    }
}

/// `aes_gcm::Aes256Gcm` encryption (`new_from_slice`, then `Aead::encrypt`).
/// Claims: the result is the named ciphertext; it is the plaintext's length
/// plus the 16-byte tag; and decrypting it with the same key and nonce gives
/// the plaintext back (the AEAD correctness that the crate documents); it
/// fails only on a plaintext longer than `P_MAX` (the only check of
/// `encrypt_in_place_detached` with no associated data).
#[verifier::external_body]
fn aes_gcm_encrypt(key: &[u8], nonce: &[u8], plaintext: &[u8]) -> (r: Option<Vec<u8>>)
    requires
        key@.len() == KEY_LEN,
        nonce@.len() == NONCE_LEN,
    ensures
        match r {
            Some(c) => aes_gcm_seal(key@, nonce@, plaintext@) == Some(c@) && c@.len()
                == plaintext@.len() + TAG_LEN && aes_gcm_open(key@, nonce@, c@) == Some(plaintext@),
            None => aes_gcm_seal(key@, nonce@, plaintext@) is None,
        },
        plaintext@.len() <= MAX_PLAINTEXT_LEN ==> r is Some,
{
    let cipher = <aes_gcm::Aes256Gcm as KeyInit>::new_from_slice(key).ok()?;
    Aead::encrypt(&cipher, aes_gcm::Nonce::from_slice(nonce), plaintext).ok()
}

/// `aes_gcm::Aes256Gcm` decryption (`new_from_slice`, then `Aead::decrypt`).
/// Claims: the result is the named plaintext, `None` on failure.
#[verifier::external_body]
fn aes_gcm_decrypt(key: &[u8], nonce: &[u8], ciphertext: &[u8]) -> (r: Option<Vec<u8>>)
    requires
        key@.len() == KEY_LEN,
        nonce@.len() == NONCE_LEN,
    ensures
        match r {
            Some(p) => aes_gcm_open(key@, nonce@, ciphertext@) == Some(p@),
            None => aes_gcm_open(key@, nonce@, ciphertext@) is None,
        },
{
    let cipher = <aes_gcm::Aes256Gcm as KeyInit>::new_from_slice(key).ok()?;
    Aead::decrypt(&cipher, aes_gcm::Nonce::from_slice(nonce), ciphertext).ok()
}

/// `zeroize::Zeroize::zeroize` on a byte vector: the bytes are overwritten
/// with zeros and the vector is left empty.
#[verifier::external_body]
pub(crate) fn zeroize_bytes(buf: &mut Vec<u8>)
    ensures
        final(buf)@.len() == 0,
{
    zeroize::Zeroize::zeroize(buf);
}

// ---------------------------------------------------------------------------
// Envelope
// ---------------------------------------------------------------------------

/// The UTF-8 bytes of a passphrase.
pub open spec fn passphrase_bytes(passphrase: Seq<char>) -> Seq<u8> {
    encode_utf8(passphrase)
}

/// `out` is `salt ‖ nonce ‖ ciphertext` where the ciphertext seals
/// `plaintext` under the key that Argon2 derives from `password` and the
/// salt, and opens back to `plaintext`.
pub open spec fn sealed_envelope(password: Seq<u8>, plaintext: Seq<u8>, out: Seq<u8>) -> bool {
    let salt = out.take(SALT_LEN as int);
    let nonce = out.subrange(SALT_LEN as int, (SALT_LEN + NONCE_LEN) as int);
    let ct = out.skip((SALT_LEN + NONCE_LEN) as int);
    &&& out.len() == SALT_LEN + NONCE_LEN + plaintext.len() + TAG_LEN
    &&& argon2_key(password, salt) matches Some(key)
    &&& aes_gcm_seal(key, nonce, plaintext) == Some(ct)
    &&& aes_gcm_open(key, nonce, ct) == Some(plaintext)
}

/// Decrypting `encrypted` with `password`.
pub open spec fn decrypt_spec(password: Seq<u8>, encrypted: Seq<u8>) -> Result<Seq<u8>, CryptoError> {
    if encrypted.len() < SALT_LEN + NONCE_LEN + 1 {
        Err(CryptoError::TooShort { len: encrypted.len() as usize })
    } else {
        let salt = encrypted.take(SALT_LEN as int);
        let nonce = encrypted.subrange(SALT_LEN as int, (SALT_LEN + NONCE_LEN) as int);
        let ct = encrypted.skip((SALT_LEN + NONCE_LEN) as int);
        match argon2_key(password, salt) {
            None => Err(CryptoError::KeyDerivationFailed),
            Some(key) => match aes_gcm_open(key, nonce, ct) {
                None => Err(CryptoError::DecryptionFailed),
                Some(p) => Ok(p),
            },
        }
    }
}

/// Encrypt arbitrary bytes with a passphrase, under a fresh random salt and
/// nonce.
pub fn encrypt_secrets(passphrase: &str, plaintext: &[u8]) -> (r: Result<Vec<u8>, CryptoError>)
    ensures
        passphrase@.len() == 0 ==> r == Err::<Vec<u8>, CryptoError>(CryptoError::EmptyPassphrase),
        passphrase@.len() > 0 ==> match r {
            Ok(out) => sealed_envelope(passphrase_bytes(passphrase@), plaintext@, out@),
            Err(e) => e == CryptoError::KeyDerivationFailed || e == CryptoError::EncryptionFailed,
        },
        r matches Err(CryptoError::KeyDerivationFailed) ==> exists|salt: Seq<u8>|
            salt.len() == SALT_LEN && argon2_key(passphrase_bytes(passphrase@), salt) is None,
        passphrase@.len() > 0 && passphrase_bytes(passphrase@).len() <= MAX_PASSWORD_LEN
            && plaintext@.len() <= MAX_PLAINTEXT_LEN ==> r is Ok,
{
    if passphrase.unicode_len() == 0 {
        return Err(CryptoError::EmptyPassphrase);
    }
    let salt = os_random_bytes(SALT_LEN);
    let nonce = os_random_bytes(NONCE_LEN);
    let pw = passphrase.as_bytes();
    let mut key = match derive_key(pw, salt.as_slice()) {
        Some(k) => k,
        None => {
            return Err(CryptoError::KeyDerivationFailed);
        },
    };
    let ghost k = key@;
    let ct = match aes_gcm_encrypt(key.as_slice(), nonce.as_slice(), plaintext) {
        Some(c) => c,
        None => {
            zeroize_bytes(&mut key);
            return Err(CryptoError::EncryptionFailed);
        },
    };
    zeroize_bytes(&mut key);
    let mut out: Vec<u8> = Vec::new();
    let mut i: usize = 0;
    while i < salt.len()
        invariant
            i <= salt@.len(),
            out@ == salt@.take(i as int),
        decreases salt@.len() - i,
    {
        out.push(salt[i]);
        assert(out@ =~= salt@.take(i + 1));
        i = i + 1;
    }
    let mut j: usize = 0;
    while j < nonce.len()
        invariant
            j <= nonce@.len(),
            out@ == salt@ + nonce@.take(j as int),
        decreases nonce@.len() - j,
    {
        out.push(nonce[j]);
        assert(out@ =~= salt@ + nonce@.take(j + 1));
        j = j + 1;
    }
    let mut t: usize = 0;
    while t < ct.len()
        invariant
            t <= ct@.len(),
            out@ == salt@ + nonce@ + ct@.take(t as int),
        decreases ct@.len() - t,
    {
        out.push(ct[t]);
        assert(out@ =~= salt@ + nonce@ + ct@.take(t + 1));
        t = t + 1;
    }
    proof {
        assert(salt@.take(16) =~= salt@);
        assert(nonce@.take(12) =~= nonce@);
        assert(ct@.take(ct@.len() as int) =~= ct@);
        assert(out@.take(16) =~= salt@);
        assert(out@.subrange(16, 28) =~= nonce@);
        assert(out@.skip(28) =~= ct@);
    }
    Ok(out)
}

/// Decrypt bytes produced by `encrypt_secrets`.
pub fn decrypt_secrets(passphrase: &str, encrypted: &[u8]) -> (r: Result<Vec<u8>, CryptoError>)
    ensures
        match decrypt_spec(passphrase_bytes(passphrase@), encrypted@) {
            Ok(p) => r matches Ok(v) && v@ == p,
            Err(e) => r == Err::<Vec<u8>, CryptoError>(e),
        },
{
    let n = encrypted.len();
    if n < SALT_LEN + NONCE_LEN + 1 {
        return Err(CryptoError::TooShort { len: n });
    }
    let salt = slice_range(encrypted, 0, SALT_LEN);
    let nonce = slice_range(encrypted, SALT_LEN, SALT_LEN + NONCE_LEN);
    let ct = slice_range(encrypted, SALT_LEN + NONCE_LEN, n);
    assert(salt@ =~= encrypted@.take(16));
    assert(ct@ =~= encrypted@.skip(28));
    let mut key = match derive_key(passphrase.as_bytes(), salt.as_slice()) {
        Some(k) => k,
        None => {
            return Err(CryptoError::KeyDerivationFailed);
        },
    };
    let result = aes_gcm_decrypt(key.as_slice(), nonce.as_slice(), ct.as_slice());
    zeroize_bytes(&mut key);
    match result {
        Some(p) => Ok(p),
        None => Err(CryptoError::DecryptionFailed),
    }
}

/// The bytes `data[from..to]` as a new vector.
pub fn slice_range(data: &[u8], from: usize, to: usize) -> (r: Vec<u8>)
    requires
        from <= to <= data@.len(),
    ensures
        r@ == data@.subrange(from as int, to as int),
{
    let mut out: Vec<u8> = Vec::new();
    let mut i: usize = from;
    while i < to
        invariant
            from <= i <= to,
            to <= data@.len(),
            out@ == data@.subrange(from as int, i as int),
        decreases to - i,
    {
        out.push(data[i]);
        assert(out@ =~= data@.subrange(from as int, i + 1));
        i = i + 1;
    }
    out
}

/// Accept a passphrase that is not empty.
pub fn check_passphrase(pass: String) -> (r: Result<String, CryptoError>)
    ensures
        pass@.len() == 0 ==> r == Err::<String, CryptoError>(CryptoError::EmptyPassphrase),
        pass@.len() > 0 ==> (r matches Ok(p) && p@ == pass@),
{
    if pass.as_str().unicode_len() == 0 {
        Err(CryptoError::EmptyPassphrase)
    } else {
        Ok(pass)
    }
}

/// Accept a passphrase entered twice when both entries agree.
pub fn confirm_passphrase(first: String, second: String) -> (r: Result<String, CryptoError>)
    ensures
        first@ != second@ ==> r == Err::<String, CryptoError>(CryptoError::PassphraseMismatch),
        first@ == second@ ==> (r matches Ok(p) && p@ == first@),
{
    if crate::text::str_eq(first.as_str(), second.as_str()) {
        Ok(first)
    } else {
        Err(CryptoError::PassphraseMismatch)
    }
}

/// Whatever `encrypt_secrets` returns decrypts, under the same passphrase,
/// to the original plaintext.
pub proof fn lemma_encrypt_decrypt_roundtrip(password: Seq<u8>, plaintext: Seq<u8>, out: Seq<u8>)
    requires
        sealed_envelope(password, plaintext, out),
    ensures
        decrypt_spec(password, out) == Ok::<Seq<u8>, CryptoError>(plaintext),
{
}

} // verus!
