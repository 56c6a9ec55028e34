//! Cryptographically secure randomness.
//!
//! Session keys and nonces are drawn from the operating system's random
//! source through `rand_core::OsRng`.  Nothing can be promised about the
//! bytes that come back, so callers state what holds of every outcome.

use vstd::prelude::*;

use rand_core::RngCore;

verus! {

#[verifier::external_type_specification]
#[verifier::external_body]
pub struct ExRandError(rand_core::Error);

/// Relies on `rand_core`: `OsRng::try_fill_bytes` fills the buffer from the
/// operating system's random source, or reports that the source failed.
/// Nothing is promised of the bytes themselves.
#[verifier::external_body]
pub(crate) fn random_bytes<const N: usize>() -> (r: Result<[u8; N], rand_core::Error>)
{
    let mut buf = [0u8; N];
    match rand_core::OsRng.try_fill_bytes(&mut buf) {
        Ok(()) => Ok(buf),
        Err(e) => Err(e),
    }
}

} // verus!
