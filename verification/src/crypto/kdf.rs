//! HKDF-SHA-256 key derivation.
//!
//! The derivations themselves are computed by `ring` and by the `hkdf` crate;
//! this module gives their results names that the key schedule's contracts
//! are stated over.

use vstd::prelude::*;

verus! {

/// Length in bytes of every key that the session layer derives.
pub const KEY_LEN: usize = 32;

/// Longest input, in bytes, that the library hands to a hash or a key
/// derivation. SHA-256 and SHA-512 as used here take fewer than 2^61 bytes.
pub const MAX_HASH_INPUT_LEN: u64 = 0x1000_0000_0000_0000;

/// Whether a byte string of length `len` is short enough to be hashed.
pub open spec fn hashable_len(len: nat) -> bool {
    len <= MAX_HASH_INPUT_LEN
}

/// The 32 bytes of HKDF-SHA-256 output for `salt`, input keying material
/// `ikm` and context `info`, as `ring::hkdf` computes them.
pub uninterp spec fn hkdf_sha256(salt: Seq<u8>, ikm: Seq<u8>, info: Seq<u8>) -> Seq<u8>;

/// The 32 bytes of HKDF-SHA-256 output for input keying material `ikm` and
/// context `info` with no salt, as the `hkdf` crate computes them.
pub uninterp spec fn hkdf_sha256_unsalted(ikm: Seq<u8>, info: Seq<u8>) -> Seq<u8>;

/// Whether `len` fits the hash input limit, decided at run time.
pub fn check_hashable_len(len: usize) -> (ok: bool)
    ensures
        ok == hashable_len(len as nat),
{
    len as u64 <= MAX_HASH_INPUT_LEN
}

/// Calls `ring::hkdf`: `Salt::new(HKDF_SHA256, salt)`, `extract(ikm)`,
/// `expand(&[info], HKDF_SHA256)` and `fill` into 32 bytes.
///
/// Trusted: the result is the named HKDF output of the three arguments. The
/// length bounds keep the underlying HMAC inside its input limit, beyond
/// which `ring` panics.
#[verifier::external_body]
pub(crate) fn ring_hkdf_sha256(salt: &[u8], ikm: &[u8], info: &[u8]) -> (okm: [u8; 32])
    requires
        hashable_len(salt@.len()),
        hashable_len(ikm@.len()),
        hashable_len(info@.len()),
    ensures
        okm@ == hkdf_sha256(salt@, ikm@, info@),
{
    let mut okm = [0u8; 32];
    let prk = ring::hkdf::Salt::new(ring::hkdf::HKDF_SHA256, salt).extract(ikm);
    let parts = [info];
    if let Ok(material) = prk.expand(&parts, ring::hkdf::HKDF_SHA256) {
        let _ = material.fill(&mut okm);
    }
    okm
}

/// Calls the `hkdf` crate: `Hkdf::<Sha256>::new(None, ikm)` and
/// `expand(info, ..)` into 32 bytes.
///
/// Trusted: the result is the named unsalted HKDF output of the two
/// arguments.
#[verifier::external_body]
pub(crate) fn hkdf_expand_unsalted(ikm: &[u8], info: &[u8]) -> (okm: [u8; 32])
    ensures
        okm@ == hkdf_sha256_unsalted(ikm@, info@),
{
    let mut okm = [0u8; 32];
    let _ = hkdf::Hkdf::<sha2::Sha256>::new(None, ikm).expand(info, &mut okm);
    okm
}

} // verus!
