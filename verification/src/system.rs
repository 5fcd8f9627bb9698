//! What the library reads from the machine: random bytes and the clock.
//!
//! Both depend on the moment of the call; nothing is promised of their
//! values beyond their shape.

use vstd::prelude::*;

verus! {

/// Sixteen bytes from `rand::thread_rng()` (`Rng::gen::<[u8; 16]>`).
#[verifier::external_body]
pub(crate) fn thread_random_16() -> (r: Vec<u8>)
    ensures
        r@.len() == 16,
{
    let b: [u8; 16] = rand::Rng::gen(&mut rand::thread_rng());
    b.to_vec()
}

/// `n` bytes from the operating system's generator (`OsRng::fill_bytes`).
#[verifier::external_body]
pub(crate) fn os_random_bytes(n: usize) -> (r: Vec<u8>)
    ensures
        r@.len() == n,
{
    let mut b = vec![0u8; n];
    rand::RngCore::fill_bytes(&mut rand::rngs::OsRng, &mut b);
    b
}

/// Whole seconds since the Unix epoch from `SystemTime::now()` (0 when the
/// clock is before the epoch).
#[verifier::external_body]
pub(crate) fn unix_now_secs() -> (r: u64) {
    std::time::SystemTime::now().duration_since(std::time::UNIX_EPOCH).unwrap_or_default().as_secs()
}

} // verus!
