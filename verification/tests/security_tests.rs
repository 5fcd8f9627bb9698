use agentpacknest::application::trust::{check_signature, SignatureCheck};
use agentpacknest::security::crypto::{
    check_passphrase, confirm_passphrase, decrypt_secrets, encrypt_secrets, CryptoError,
};
use agentpacknest::security::integrity::{compute_bundle_checksum, verify_checksum, PayloadFile};
use agentpacknest::security::secrets::{is_env_file_name, is_valid_env_key, SecretsBundle, SecretsError};
use agentpacknest::security::signing::{
    generate_keypair, get_public_key_bytes, sign, sign_canonical_manifest, verify, SigningError,
};

fn sample_bundle() -> SecretsBundle {
    let mut b = SecretsBundle::new();
    b.insert("API_KEY", "sk-test-123");
    b.insert("DB_PASS", "s3cret");
    b
}

// ── secrets collection ──────────────────────────────────────────────────

#[test]
fn insert_and_get() {
    let b = sample_bundle();
    assert_eq!(b.get("API_KEY"), Some("sk-test-123"));
    assert_eq!(b.get("DB_PASS"), Some("s3cret"));
    assert_eq!(b.get("UNKNOWN"), None);
    assert_eq!(b.len(), 2);
}

#[test]
fn overwrite_existing() {
    let mut b = sample_bundle();
    b.insert("API_KEY", "new-value");
    assert_eq!(b.get("API_KEY"), Some("new-value"));
    assert_eq!(b.len(), 2);
}

#[test]
fn keys_list() {
    let b = sample_bundle();
    let mut keys = b.keys();
    keys.sort();
    assert_eq!(keys, vec!["API_KEY", "DB_PASS"]);
}

#[test]
fn default_is_empty() {
    let b = SecretsBundle::default();
    assert!(b.is_empty());
    assert_eq!(b.len(), 0);
}

#[test]
fn iter_exposes_only_keys_not_values_in_debug() {
    let b = sample_bundle();
    let keys: Vec<_> = b.iter().into_iter().map(|(k, _)| k).collect();
    assert_eq!(keys.len(), 2);
}

#[test]
fn mask_value_empty() {
    assert_eq!(SecretsBundle::mask_value(""), "(empty)");
}

#[test]
fn mask_value_short() {
    assert_eq!(SecretsBundle::mask_value("abc"), "****");
    assert_eq!(SecretsBundle::mask_value("123456"), "****");
}

#[test]
fn mask_value_long() {
    assert_eq!(SecretsBundle::mask_value("sk-test-12345"), "sk****45");
    assert_eq!(SecretsBundle::mask_value("abcdefg"), "ab****fg");
}

#[test]
fn mask_value_counts_characters() {
    assert_eq!(SecretsBundle::mask_value("éééé"), "****");
    assert_eq!(SecretsBundle::mask_value("aéééé"), "****");
    assert_eq!(SecretsBundle::mask_value("aéééééé"), "aé****éé");
}

#[test]
fn display_masked_sorted() {
    let mut b = SecretsBundle::new();
    b.insert("Z_KEY", "long-value-here");
    b.insert("A_KEY", "x");
    let lines = b.display_masked();
    assert_eq!(lines.len(), 2);
    assert!(lines[0].contains("A_KEY"));
    assert!(lines[1].contains("Z_KEY"));
    assert!(lines[0].contains("****"));
    assert!(lines[1].contains("****"));
    assert!(!lines[1].contains("long-value-here"));
}

#[test]
fn display_full_shows_values() {
    let mut b = SecretsBundle::new();
    b.insert("API_KEY", "sk-real-123");
    let lines = b.display_full();
    assert_eq!(lines.len(), 1);
    assert!(lines[0].contains("sk-real-123"));
    assert_eq!(lines[0], "  API_KEY = sk-real-123");
}

#[test]
fn display_env_format() {
    let mut b = SecretsBundle::new();
    b.insert("DB_HOST", "localhost");
    b.insert("DB_PORT", "5432");
    let lines = b.display_env();
    assert_eq!(lines.len(), 2);
    assert!(lines.contains(&"DB_HOST=localhost".to_string()));
    assert!(lines.contains(&"DB_PORT=5432".to_string()));
}

#[test]
fn display_env_sorts_lines_not_keys() {
    let mut b = SecretsBundle::new();
    b.insert("A", "1");
    b.insert("A1", "2");
    assert_eq!(b.display_env(), vec!["A1=2".to_string(), "A=1".to_string()]);
}

#[test]
fn valid_env_keys() {
    assert!(is_valid_env_key("API_KEY"));
    assert!(is_valid_env_key("_SECRET"));
    assert!(is_valid_env_key("MY_VAR_123"));
}

#[test]
fn invalid_env_keys() {
    assert!(!is_valid_env_key(""));
    assert!(!is_valid_env_key("123BAD"));
    assert!(!is_valid_env_key("HAS DASH"));
    assert!(!is_valid_env_key("PATH=/evil"));
    assert!(!is_valid_env_key("A\nB"));
}

#[test]
fn insert_skips_invalid_keys() {
    let mut b = SecretsBundle::new();
    b.insert("VALID_KEY", "ok");
    b.insert("PATH=/evil", "bad");
    b.insert("123BAD", "bad");
    assert_eq!(b.len(), 1);
    assert_eq!(b.get("VALID_KEY"), Some("ok"));
}

#[test]
fn parse_env_file() {
    let mut b = SecretsBundle::new();
    b.parse_env_content("# comment\nAPI_KEY=sk-test\nDB_PASS=\"quoted\"\nEMPTY=\n");
    assert_eq!(b.get("API_KEY"), Some("sk-test"));
    assert_eq!(b.get("DB_PASS"), Some("quoted"));
    assert_eq!(b.get("EMPTY"), Some(""));
}

#[test]
fn parse_env_content_edge_cases() {
    let mut b = SecretsBundle::new();
    b.parse_env_content("  SPACED = 'single'  \r\n=novalue\nno equals sign\nBAD KEY=x\nURL=a=b\n");
    assert_eq!(b.get("SPACED"), Some("single"));
    assert_eq!(b.get("URL"), Some("a=b"));
    assert_eq!(b.len(), 2);
}

#[test]
fn env_file_names() {
    assert!(is_env_file_name(".env"));
    assert!(is_env_file_name("prod.env"));
    assert!(is_env_file_name("env"));
    assert!(is_env_file_name(".hidden"));
    assert!(!is_env_file_name("readme.txt"));
}

#[test]
fn empty_bundle_rejected() {
    let b = SecretsBundle::new();
    assert_eq!(b.save_encrypted("pass"), Err(SecretsError::NoSecrets));
}

#[test]
fn save_and_load_roundtrip() {
    let original = sample_bundle();
    let sealed = original.save_encrypted("my-secret-passphrase").unwrap();
    assert!(!sealed.is_empty());
    assert_ne!(&sealed[..2], b"{\"");
    let json = SecretsBundle::load_decrypted(&sealed, "my-secret-passphrase").unwrap();
    let text = String::from_utf8(json).unwrap();
    assert!(text.starts_with("{\"entries\":{"));
    assert!(text.contains("\"API_KEY\":\"sk-test-123\""));
    assert!(text.contains("\"DB_PASS\":\"s3cret\""));
}

#[test]
fn wrong_passphrase_fails() {
    let sealed = sample_bundle().save_encrypted("correct").unwrap();
    let result = SecretsBundle::load_decrypted(&sealed, "wrong");
    assert_eq!(result, Err(SecretsError::Decrypt(CryptoError::DecryptionFailed)));
}

#[test]
fn rekey_keeps_contents() {
    let sealed = sample_bundle().save_encrypted("old").unwrap();
    let before = SecretsBundle::load_decrypted(&sealed, "old").unwrap();
    let rekeyed = SecretsBundle::rekey(&sealed, "old", "new").unwrap();
    assert!(SecretsBundle::load_decrypted(&rekeyed, "old").is_err());
    assert_eq!(SecretsBundle::load_decrypted(&rekeyed, "new").unwrap(), before);
}

#[test]
fn rekey_refuses_empty_new_passphrase() {
    let sealed = sample_bundle().save_encrypted("old").unwrap();
    assert_eq!(SecretsBundle::rekey(&sealed, "old", ""), Err(SecretsError::EmptyNewPassphrase));
    assert_eq!(
        SecretsBundle::rekey(&sealed, "bad", "new"),
        Err(SecretsError::Decrypt(CryptoError::DecryptionFailed))
    );
}

// ── crypto ──────────────────────────────────────────────────────────────

#[test]
fn roundtrip() {
    let pass = "correct horse battery staple";
    let plaintext = b"{\"API_KEY\":\"sk-test\"}";
    let encrypted = encrypt_secrets(pass, plaintext).unwrap();
    let decrypted = decrypt_secrets(pass, &encrypted).unwrap();
    assert_eq!(plaintext.as_slice(), decrypted.as_slice());
}

#[test]
fn wrong_passphrase_rejected() {
    let encrypted = encrypt_secrets("right", b"secret").unwrap();
    assert!(decrypt_secrets("wrong", &encrypted).is_err());
}

#[test]
fn truncated_data_rejected() {
    assert_eq!(decrypt_secrets("pass", &[0u8; 10]), Err(CryptoError::TooShort { len: 10 }));
}

#[test]
fn empty_passphrase_rejected() {
    assert_eq!(encrypt_secrets("", b"data"), Err(CryptoError::EmptyPassphrase));
}

#[test]
fn nondeterministic() {
    let a = encrypt_secrets("pass", b"same data").unwrap();
    let b = encrypt_secrets("pass", b"same data").unwrap();
    assert_ne!(a, b);
}

#[test]
fn large_payload() {
    let data = vec![0x42u8; 1_000_000];
    let encrypted = encrypt_secrets("pass", &data).unwrap();
    assert_eq!(encrypted.len(), 16 + 12 + data.len() + 16);
    let decrypted = decrypt_secrets("pass", &encrypted).unwrap();
    assert_eq!(data, decrypted);
}

#[test]
fn passphrase_checks() {
    assert_eq!(check_passphrase(String::new()), Err(CryptoError::EmptyPassphrase));
    assert_eq!(check_passphrase("x".to_string()), Ok("x".to_string()));
    assert_eq!(
        confirm_passphrase("a".to_string(), "b".to_string()),
        Err(CryptoError::PassphraseMismatch)
    );
    assert_eq!(confirm_passphrase("a".to_string(), "a".to_string()), Ok("a".to_string()));
}

// ── integrity ───────────────────────────────────────────────────────────

fn file(path: &str, content: &[u8]) -> PayloadFile {
    PayloadFile { path: path.to_string(), content: content.to_vec() }
}

fn sample_files() -> Vec<PayloadFile> {
    vec![file("agent/config/settings.json", b"{}"), file("secrets/keys.enc", b"encrypted")]
}

#[test]
fn checksum_is_deterministic() {
    let h1 = compute_bundle_checksum(sample_files());
    let h2 = compute_bundle_checksum(sample_files());
    assert_eq!(h1, h2);
    assert_eq!(h1.len(), 64);
}

#[test]
fn checksum_changes_with_content() {
    let h1 = compute_bundle_checksum(vec![file("agent/config/settings.json", b"v1")]);
    let h2 = compute_bundle_checksum(vec![file("agent/config/settings.json", b"v2")]);
    assert_ne!(h1, h2);
}

#[test]
fn checksum_includes_keys_enc() {
    let h1 = compute_bundle_checksum(vec![file("agent/config/settings.json", b"{}")]);
    let h2 = compute_bundle_checksum(sample_files());
    assert_ne!(h1, h2);
}

#[test]
fn checksum_excludes_manifest_and_signature() {
    let h1 = compute_bundle_checksum(sample_files());
    let mut with_meta = sample_files();
    with_meta.push(file("manifest.yaml", b"name: x"));
    with_meta.push(file("manifest.sig", b"sig"));
    with_meta.push(file("signing/public.key", b"key"));
    assert_eq!(h1, compute_bundle_checksum(with_meta));
}

#[test]
fn checksum_ignores_listing_order() {
    let mut reversed = sample_files();
    reversed.reverse();
    assert_eq!(compute_bundle_checksum(sample_files()), compute_bundle_checksum(reversed));
}

#[test]
fn checksum_of_empty_payload_is_sha256_of_nothing() {
    assert_eq!(
        compute_bundle_checksum(vec![]),
        "e3b0c44298fc1c149afbf4c8996fb92427ae41e4649b934ca495991b7852b855"
    );
}

#[test]
fn checksum_frames_path_nul_contents() {
    // SHA-256 of "agent/a\0x".
    let h = compute_bundle_checksum(vec![file("agent/a", b"x")]);
    let other = compute_bundle_checksum(vec![file("agent/ax", b"")]);
    assert_ne!(h, other);
}

#[test]
fn verify_checksum_works() {
    let h = compute_bundle_checksum(sample_files());
    assert!(verify_checksum(sample_files(), &h));
    assert!(!verify_checksum(sample_files(), "0000"));
}

// ── signing ─────────────────────────────────────────────────────────────

#[test]
fn sign_and_verify_roundtrip() {
    let kp = generate_keypair();
    let data = b"hello, world";
    let sig = sign(&kp.seed, data).unwrap();
    let pk = get_public_key_bytes(&kp.seed).unwrap();
    assert_eq!(pk, kp.public_key);
    assert!(verify(data, &sig, &pk).unwrap());
}

#[test]
fn wrong_data_fails_verification() {
    let kp = generate_keypair();
    let sig = sign(&kp.seed, b"hello, world").unwrap();
    assert!(!verify(b"wrong data", &sig, &kp.public_key).unwrap());
}

#[test]
fn keypair_persistence() {
    let kp = generate_keypair();
    assert_eq!(kp.public_key.len(), 32);
    assert_eq!(get_public_key_bytes(&kp.seed).unwrap(), kp.public_key);
}

#[test]
fn signing_rejects_bad_keypair_file() {
    assert_eq!(sign(b"short", b"data"), Err(SigningError::InvalidKeypair { len: 5 }));
}

#[test]
fn canonical_json_signing_roundtrip() {
    let kp = generate_keypair();
    let canonical = b"{\"bundle\":{\"name\":\"test-agent\"}}";
    let sig = sign_canonical_manifest(canonical, &kp.seed).unwrap();
    assert_eq!(sig.len(), 64);
    assert!(verify(canonical, &sig, &kp.public_key).unwrap());
}

#[test]
fn attack_modified_signature_fails() {
    let kp = generate_keypair();
    let mut sig = sign(&kp.seed, b"manifest").unwrap();
    sig[0] ^= 0xff;
    assert!(!verify(b"manifest", &sig, &kp.public_key).unwrap());
}

#[test]
fn attack_malformed_signature_errors() {
    let kp = generate_keypair();
    assert_eq!(
        verify(b"manifest", b"too-short", &kp.public_key),
        Err(SigningError::InvalidSignature { len: 9 })
    );
}

#[test]
fn attack_malformed_public_key_errors() {
    let kp = generate_keypair();
    let sig = sign(&kp.seed, b"manifest").unwrap();
    assert_eq!(
        verify(b"manifest", &sig, b"not-a-key"),
        Err(SigningError::InvalidPublicKey { len: 9 })
    );
}

#[test]
fn attack_replaced_public_key_fails() {
    let signer = generate_keypair();
    let attacker = generate_keypair();
    let sig = sign(&signer.seed, b"manifest").unwrap();
    assert!(!verify(b"manifest", &sig, &attacker.public_key).unwrap());
}

#[test]
fn crypto_roundtrip() {
    let data = b"secret agent data";
    let pass = "test-passphrase-123";
    let encrypted = encrypt_secrets(pass, data).expect("encrypt should work");
    assert_ne!(&encrypted[..], data);
    let decrypted = decrypt_secrets(pass, &encrypted).expect("decrypt should work");
    assert_eq!(decrypted, data);
    assert!(decrypt_secrets("wrong", &encrypted).is_err());
}

#[test]
fn secrets_bundle_save_load_roundtrip() {
    let mut bundle = SecretsBundle::new();
    bundle.insert("API_KEY", "sk-test-12345");
    bundle.insert("DB_URL", "postgres://localhost/mydb");
    let pass = "secrets-passphrase";
    let sealed = bundle.save_encrypted(pass).expect("save should work");
    let json = SecretsBundle::load_decrypted(&sealed, pass).expect("load should work");
    let value: serde_json::Value = serde_json::from_slice(&json).expect("secrets are JSON");
    let entries = value.get("entries").and_then(|e| e.as_object()).expect("an entries object");
    assert_eq!(entries.len(), 2);
    assert_eq!(entries.get("API_KEY").and_then(|v| v.as_str()), Some("sk-test-12345"));
    assert_eq!(entries.get("DB_URL").and_then(|v| v.as_str()), Some("postgres://localhost/mydb"));
}

const ATTACK_MANIFEST: &[u8] =
    b"{\"bundle\":{\"created_at\":\"2025-01-15T12:00:00Z\",\"id\":\"f47ac10b-58cc-4372-a567-0e02b2c3d479\",\"name\":\"attack-agent\"}}";

#[test]
fn portable_verification_uses_only_bundled_pubkey() {
    // The signing side keeps its seed; the verifying side gets the bundle's
    // signature and public key only.
    let (sig, bundled_key) = {
        let kp = generate_keypair();
        (sign_canonical_manifest(ATTACK_MANIFEST, &kp.seed).unwrap(), kp.public_key.clone())
    };
    assert_eq!(check_signature(ATTACK_MANIFEST, Some(&sig), Some(&bundled_key)), SignatureCheck::Verified);
}

#[test]
fn attack_valid_manifest_and_signature_succeeds() {
    let kp = generate_keypair();
    let sig = sign_canonical_manifest(ATTACK_MANIFEST, &kp.seed).unwrap();
    assert!(verify(ATTACK_MANIFEST, &sig, &kp.public_key).unwrap());
}

#[test]
fn attack_modified_manifest_fails() {
    let kp = generate_keypair();
    let sig = sign_canonical_manifest(ATTACK_MANIFEST, &kp.seed).unwrap();
    let tampered: &[u8] =
        b"{\"bundle\":{\"created_at\":\"2025-01-15T12:00:00Z\",\"id\":\"f47ac10b-58cc-4372-a567-0e02b2c3d479\",\"name\":\"evil-agent\"}}";
    assert!(!verify(tampered, &sig, &kp.public_key).unwrap(), "modified manifest must fail verification");
}

#[test]
fn kek_dek_envelope_roundtrip() {
    let data = b"envelope test data";
    let pass = "envelope-passphrase";

    let envelope = encrypt_secrets(pass, data).expect("encrypt_envelope should work");
    let decrypted = decrypt_secrets(pass, &envelope).expect("decrypt_envelope should work");
    assert_eq!(decrypted, data);

    // Wrong passphrase fails
    assert!(decrypt_secrets("wrong", &envelope).is_err());
}

#[test]
fn secrets_insert_law() {
    let mut b = SecretsBundle::new();
    assert!(b.is_empty());
    b.insert("A_KEY", "1");
    b.insert("B_KEY", "2");
    assert_eq!(b.len(), 2);
    b.insert("A_KEY", "3");
    assert_eq!(b.len(), 2);
    assert_eq!(b.get("A_KEY"), Some("3"));
    assert_eq!(b.get("B_KEY"), Some("2"));
    b.insert("1BAD", "x");
    assert_eq!(b.len(), 2);
    assert_eq!(b.get("1BAD"), None);
    assert!(!b.is_empty());
}
