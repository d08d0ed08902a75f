//! X25519 Diffie-Hellman agreement.
//!
//! The curve arithmetic is computed by `x25519-dalek`. This module names its
//! results and adds the rule that the session layer applies to every
//! agreement: an all-zero shared value is a failed agreement.

use crate::bytes::{is_all_zero, to_array, zeros};
use crate::error::CryptoError;
use vstd::prelude::*;
use x25519_dalek::{PublicKey, StaticSecret};

verus! {

/// Length in bytes of an X25519 secret, public key and shared value.
pub const DH_LEN: usize = 32;

/// The public key of the X25519 secret `secret`.
pub uninterp spec fn x25519_public(secret: Seq<u8>) -> Seq<u8>;

/// The X25519 shared value of `secret` and the peer's public key.
pub uninterp spec fn x25519_shared(secret: Seq<u8>, peer_public: Seq<u8>) -> Seq<u8>;

/// What an agreement between `secret` and `peer_public` yields: the shared
/// value, or `DhAgreementFailure` where the peer's key does not have 32
/// bytes or the shared value is all zeros.
pub open spec fn agreement(secret: Seq<u8>, peer_public: Seq<u8>) -> Result<
    Seq<u8>,
    CryptoError,
> {
    if peer_public.len() != DH_LEN {
        Err(CryptoError::DhAgreementFailure)
    } else if x25519_shared(secret, peer_public) == zeros(DH_LEN as nat) {
        Err(CryptoError::DhAgreementFailure)
    } else {
        Ok(x25519_shared(secret, peer_public))
    }
}

/// Calls `x25519_dalek`: `PublicKey::from(&StaticSecret::from(secret))`.
///
/// Trusted: the result is the named public key of `secret`.
#[verifier::external_body]
pub(crate) fn dalek_x25519_public(secret: &[u8; 32]) -> (public: [u8; 32])
    ensures
        public@ == x25519_public(secret@),
{
    PublicKey::from(&StaticSecret::from(*secret)).to_bytes()
}

/// Calls `x25519_dalek`: `StaticSecret::diffie_hellman` of `secret` with the
/// peer's public key.
///
/// Trusted: the result is the named shared value of the two arguments.
#[verifier::external_body]
pub(crate) fn dalek_x25519_shared(secret: &[u8; 32], peer_public: &[u8; 32]) -> (shared: [u8; 32])
    ensures
        shared@ == x25519_shared(secret@, peer_public@),
{
    StaticSecret::from(*secret).diffie_hellman(&PublicKey::from(*peer_public)).to_bytes()
}

/// Agrees on a shared value with a peer.
///
/// Fails with `DhAgreementFailure` where the peer's key is not 32 bytes long
/// or the shared value is all zeros, as a low-order peer key produces.
pub fn agree(secret: &[u8; 32], peer_public: &[u8]) -> (r: Result<[u8; 32], CryptoError>)
    ensures
        match r {
            Ok(shared) => agreement(secret@, peer_public@) == Ok::<Seq<u8>, CryptoError>(shared@),
            Err(e) => agreement(secret@, peer_public@) == Err::<Seq<u8>, CryptoError>(e),
        },
{
    if peer_public.len() != DH_LEN {
        return Err(CryptoError::DhAgreementFailure);
    }
    let peer: [u8; 32] = to_array(peer_public);
    let shared = dalek_x25519_shared(secret, &peer);
    if is_all_zero(shared.as_slice()) {
        Err(CryptoError::DhAgreementFailure)
    } else {
        Ok(shared)
    }
}

} // verus!
