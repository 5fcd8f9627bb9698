//! The trust checkpoint before a bundle runs: payload checksum and manifest
//! signature.
//!
//! A bundle whose checksum or signature cannot be confirmed does not run,
//! unless the user passes `--allow-unverified`; then each failure becomes a
//! warning. The override covers these trust checks only.

use vstd::prelude::*;
use crate::security::integrity::{PayloadFile, checksum_spec, verify_checksum};
use crate::security::signing::{SigningError, verify_spec, verify};

verus! {

/// What checking the payload checksum found.
#[derive(Debug, Clone, Copy, PartialEq, Eq, Structural)]
pub enum ChecksumCheck {
    /// The computed checksum equals the manifest's.
    Verified,
    /// The computed checksum differs.
    Mismatch,
    /// The payload could not be read.
    Unreadable,
    /// The manifest records no checksum.
    Missing,
}

/// What checking the manifest signature found.
#[derive(Debug, Clone, Copy, PartialEq, Eq, Structural)]
pub enum SignatureCheck {
    /// The signature verifies under the bundled public key.
    Verified,
    /// The signature does not verify.
    Invalid,
    /// Verification could not be carried out.
    Failed(SigningError),
    /// The bundle is signed but carries no public key.
    MissingPublicKey,
    /// The bundle carries no signature.
    Missing,
}

/// A trust failure let through by `--allow-unverified`.
#[derive(Debug, Clone, Copy, PartialEq, Eq, Structural)]
pub enum TrustWarning {
    Checksum(ChecksumCheck),
    Signature(SignatureCheck),
}

/// A trust failure that stops the run.
#[derive(Debug, Clone, Copy, PartialEq, Eq, Structural)]
pub enum TrustError {
    Checksum(ChecksumCheck),
    Signature(SignatureCheck),
}

/// The checksum outcome: `files` is `None` when the payload could not be
/// read.
pub open spec fn checksum_check_spec(expected: Option<Seq<char>>, files: Option<Seq<PayloadFile>>) -> ChecksumCheck {
    match expected {
        None => ChecksumCheck::Missing,
        Some(e) => match files {
            None => ChecksumCheck::Unreadable,
            Some(fs) => if checksum_spec(fs) == e {
                ChecksumCheck::Verified
            } else {
                ChecksumCheck::Mismatch
            },
        },
    }
}

/// The signature outcome over the canonical manifest bytes.
pub open spec fn signature_check_spec(
    canonical: Seq<u8>,
    sig: Option<Seq<u8>>,
    public_key: Option<Seq<u8>>,
) -> SignatureCheck {
    match sig {
        None => SignatureCheck::Missing,
        Some(s) => match public_key {
            None => SignatureCheck::MissingPublicKey,
            Some(k) => match verify_spec(canonical, s, k) {
                Ok(true) => SignatureCheck::Verified,
                Ok(false) => SignatureCheck::Invalid,
                Err(e) => SignatureCheck::Failed(e),
            },
        },
    }
}

/// The decision: failures stop the run (the checksum is looked at first),
/// or, with the override, become warnings in the same order.
pub open spec fn trust_decision(c: ChecksumCheck, s: SignatureCheck, allow_unverified: bool) -> Result<
    Seq<TrustWarning>,
    TrustError,
> {
    let cw: Seq<TrustWarning> = if c == ChecksumCheck::Verified {
        Seq::empty()
    } else {
        seq![TrustWarning::Checksum(c)]
    };
    let sw: Seq<TrustWarning> = if s == SignatureCheck::Verified {
        Seq::empty()
    } else {
        seq![TrustWarning::Signature(s)]
    };
    if c != ChecksumCheck::Verified && !allow_unverified {
        Err(TrustError::Checksum(c))
    } else if s != SignatureCheck::Verified && !allow_unverified {
        Err(TrustError::Signature(s))
    } else {
        Ok(cw + sw)
    }
}

/// Check the payload checksum.
pub fn check_checksum(expected: Option<&str>, files: Option<Vec<PayloadFile>>) -> (r: ChecksumCheck)
    ensures
        r == checksum_check_spec(
            match expected {
                Some(e) => Some(e@),
                None => None,
            },
            match files {
                Some(fs) => Some(fs@),
                None => None,
            },
        ),
{
    match expected {
        None => ChecksumCheck::Missing,
        Some(e) => match files {
            None => ChecksumCheck::Unreadable,
            Some(fs) => if verify_checksum(fs, e) {
                ChecksumCheck::Verified
            } else {
                ChecksumCheck::Mismatch
            },
        },
    }
}

/// Check the manifest signature with the bundled public key.
pub fn check_signature(canonical: &[u8], sig: Option<&[u8]>, public_key: Option<&[u8]>) -> (r:
    SignatureCheck)
    ensures
        r == signature_check_spec(
            canonical@,
            match sig {
                Some(s) => Some(s@),
                None => None,
            },
            match public_key {
                Some(k) => Some(k@),
                None => None,
            },
        ),
{
    match sig {
        None => SignatureCheck::Missing,
        Some(s) => match public_key {
            None => SignatureCheck::MissingPublicKey,
            Some(k) => match verify(canonical, s, k) {
                Ok(true) => SignatureCheck::Verified,
                Ok(false) => SignatureCheck::Invalid,
                Err(e) => SignatureCheck::Failed(e),
            },
        },
    }
}

/// Decide from the two outcomes.
pub fn decide_trust(c: ChecksumCheck, s: SignatureCheck, allow_unverified: bool) -> (r: Result<
    Vec<TrustWarning>,
    TrustError,
>)
    ensures
        match trust_decision(c, s, allow_unverified) {
            Ok(w) => r matches Ok(v) && v@ == w,
            Err(e) => r == Err::<Vec<TrustWarning>, TrustError>(e),
        },
{
    let c_ok = match c {
        ChecksumCheck::Verified => true,
        _ => false,
    };
    let s_ok = match s {
        SignatureCheck::Verified => true,
        _ => false,
    };
    if !c_ok && !allow_unverified {
        return Err(TrustError::Checksum(c));
    }
    if !s_ok && !allow_unverified {
        return Err(TrustError::Signature(s));
    }
    let mut w: Vec<TrustWarning> = Vec::new();
    if !c_ok {
        w.push(TrustWarning::Checksum(c));
    }
    if !s_ok {
        w.push(TrustWarning::Signature(s));
    }
    proof {
        let t = trust_decision(c, s, allow_unverified);
        assert(t matches Ok(x) && w@ =~= x);
    }
    Ok(w)
}

/// Verify bundle integrity (checksum over the payload files) and the
/// manifest signature (over the canonical manifest bytes, with the bundled
/// public key). `files` is `None` when the payload could not be read, `sig`
/// and `public_key` are `None` when the bundle lacks them.
pub fn verify_bundle_integrity_and_signature(
    expected_checksum: Option<&str>,
    files: Option<Vec<PayloadFile>>,
    canonical: &[u8],
    sig: Option<&[u8]>,
    public_key: Option<&[u8]>,
    allow_unverified: bool,
) -> (r: Result<Vec<TrustWarning>, TrustError>)
    ensures
        ({
            let c = checksum_check_spec(
                match expected_checksum {
                    Some(e) => Some(e@),
                    None => None,
                },
                match files {
                    Some(fs) => Some(fs@),
                    None => None,
                },
            );
            let s = signature_check_spec(
                canonical@,
                match sig {
                    Some(x) => Some(x@),
                    None => None,
                },
                match public_key {
                    Some(k) => Some(k@),
                    None => None,
                },
            );
            match trust_decision(c, s, allow_unverified) {
                Ok(w) => r matches Ok(v) && v@ == w,
                Err(e) => r == Err::<Vec<TrustWarning>, TrustError>(e),
            }
        }),
{
    let c = check_checksum(expected_checksum, files);
    let s = check_signature(canonical, sig, public_key);
    decide_trust(c, s, allow_unverified)
}

// ---------------------------------------------------------------------------
// Laws
// ---------------------------------------------------------------------------

/// Without the override a bundle runs only when its payload hashes to the
/// recorded checksum and its manifest signature verifies under the bundled
/// public key.
pub proof fn lemma_strict_run_requires_proof_of_integrity(
    expected: Option<Seq<char>>,
    files: Option<Seq<PayloadFile>>,
    canonical: Seq<u8>,
    sig: Option<Seq<u8>>,
    public_key: Option<Seq<u8>>,
)
    requires
        trust_decision(
            checksum_check_spec(expected, files),
            signature_check_spec(canonical, sig, public_key),
            false,
        ) is Ok,
    ensures
        expected matches Some(e) && files matches Some(fs) && checksum_spec(fs) == e,
        sig matches Some(s) && public_key matches Some(k) && verify_spec(canonical, s, k) == Ok::<
            bool,
            SigningError,
        >(true),
{
}

/// With the override the trust checks never stop a run; each failed check
/// is reported as a warning.
pub proof fn lemma_override_warns_instead_of_failing(c: ChecksumCheck, s: SignatureCheck)
    ensures
        trust_decision(c, s, true) is Ok,
        c != ChecksumCheck::Verified ==> trust_decision(c, s, true)->Ok_0.contains(
            TrustWarning::Checksum(c),
        ),
        s != SignatureCheck::Verified ==> trust_decision(c, s, true)->Ok_0.contains(
            TrustWarning::Signature(s),
        ),
{
    let w = trust_decision(c, s, true)->Ok_0;
    if c != ChecksumCheck::Verified {
        assert(w[0] == TrustWarning::Checksum(c));
    }
    if s != SignatureCheck::Verified {
        assert(w[w.len() - 1] == TrustWarning::Signature(s));
    }
}

/// A fully verified bundle runs without warnings, with or without the
/// override.
pub proof fn lemma_verified_bundle_runs_clean(allow_unverified: bool)
    ensures
        trust_decision(ChecksumCheck::Verified, SignatureCheck::Verified, allow_unverified)
            == Ok::<Seq<TrustWarning>, TrustError>(Seq::empty()),
{
    assert(Seq::<TrustWarning>::empty() + Seq::<TrustWarning>::empty() =~= Seq::<
        TrustWarning,
    >::empty());
}

/// Without the override the checksum is judged first: a failed checksum is
/// the reported error whatever the signature; with a verified checksum a
/// failed signature is; with the override nothing but warnings come out,
/// and only for the checks that failed.
pub proof fn lemma_trust_order(c: ChecksumCheck, s: SignatureCheck)
    ensures
        c != ChecksumCheck::Verified ==> trust_decision(c, s, false) == Err::<
            Seq<TrustWarning>,
            TrustError,
        >(TrustError::Checksum(c)),
        c == ChecksumCheck::Verified && s != SignatureCheck::Verified ==> trust_decision(c, s, false)
            == Err::<Seq<TrustWarning>, TrustError>(TrustError::Signature(s)),
        trust_decision(c, s, true) is Ok && trust_decision(c, s, true)->Ok_0.len() == (if c
            == ChecksumCheck::Verified {
            0int
        } else {
            1int
        }) + (if s == SignatureCheck::Verified {
            0int
        } else {
            1int
        }),
{
}

} // verus!
