//! The operating system's random source.
//!
//! Nothing can be known in advance of a random draw, so the two draws below
//! promise nothing of their bytes. Every operation that needs randomness has
//! a deterministic counterpart that takes the drawn bytes as an argument and
//! carries the exact contract.

use rand_core::RngCore;
use ring::rand::SecureRandom;
use vstd::prelude::*;

verus! {

/// Calls `ring::rand::SystemRandom::fill` on `N` bytes.
///
/// Trusted: nothing is claimed of the bytes; `None` is the source's failure.
#[verifier::external_body]
pub(crate) fn system_random<const N: usize>() -> (drawn: Option<[u8; N]>) {
    let mut bytes = [0u8; N];
    match ring::rand::SystemRandom::new().fill(&mut bytes) {
        Ok(()) => Some(bytes),
        Err(_) => None,
    }
}

/// Calls `rand_core::OsRng::try_fill_bytes` on `N` bytes.
///
/// Trusted: nothing is claimed of the bytes; `None` is the source's failure.
#[verifier::external_body]
pub(crate) fn os_random<const N: usize>() -> (drawn: Option<[u8; N]>) {
    let mut bytes = [0u8; N];
    match rand_core::OsRng.try_fill_bytes(&mut bytes) {
        Ok(()) => Some(bytes),
        Err(_) => None,
    }
}

} // verus!
