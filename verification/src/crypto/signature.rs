//! Identity signing: Ed25519 key pairs, signatures and their verification.
//!
//! The signatures are computed and checked by `ring`. A key pair is held as
//! the PKCS#8 document that `ring` generated for it, next to its public key.

use crate::crypto::kdf::{check_hashable_len, hashable_len};
use crate::error::CryptoError;
use ring::signature::{Ed25519KeyPair, KeyPair, UnparsedPublicKey, ED25519};
use vstd::prelude::*;

verus! {

/// Length in bytes of an Ed25519 public key.
pub const PUBLIC_KEY_LEN: usize = 32;

/// Length in bytes of an Ed25519 signature.
pub const SIGNATURE_LEN: usize = 64;

/// The public key of the key pair that a PKCS#8 document holds, or `None`
/// where `ring` rejects the document.
pub uninterp spec fn ring_pkcs8_public_key(pkcs8: Seq<u8>) -> Option<Seq<u8>>;

/// The Ed25519 signature of `message` under the key pair of a PKCS#8
/// document.
pub uninterp spec fn ring_ed25519_signature(pkcs8: Seq<u8>, message: Seq<u8>) -> Seq<u8>;

/// Whether `signature` is a valid Ed25519 signature of `message` under
/// `public_key`, as `ring` decides it.
pub uninterp spec fn ring_ed25519_valid(
    public_key: Seq<u8>,
    message: Seq<u8>,
    signature: Seq<u8>,
) -> bool;

/// Calls `ring`: `Ed25519KeyPair::generate_pkcs8` with a `SystemRandom`.
///
/// Trusted: a document that comes back is one that `from_pkcs8` accepts.
/// Nothing else is claimed of it; `None` is the random source's failure.
#[verifier::external_body]
fn ring_generate_pkcs8() -> (document: Option<Vec<u8>>)
    ensures
        document is Some ==> ring_pkcs8_public_key(document->0@) is Some,
{
    let rng = ring::rand::SystemRandom::new();
    match Ed25519KeyPair::generate_pkcs8(&rng) {
        Ok(document) => Some(document.as_ref().to_vec()),
        Err(_) => None,
    }
}

/// Calls `ring`: `Ed25519KeyPair::from_pkcs8`, then `public_key()`.
///
/// Trusted: the result is the named public key of the document, `None` where
/// the document is rejected.
#[verifier::external_body]
fn ring_parse_pkcs8(pkcs8: &[u8]) -> (public_key: Option<[u8; 32]>)
    ensures
        match public_key {
            Some(key) => ring_pkcs8_public_key(pkcs8@) == Some(key@),
            None => ring_pkcs8_public_key(pkcs8@) is None,
        },
{
    let pair = Ed25519KeyPair::from_pkcs8(pkcs8).ok()?;
    pair.public_key().as_ref().try_into().ok()
}

/// Calls `ring`: `Ed25519KeyPair::from_pkcs8`, then `sign(message)`.
///
/// Trusted: for a document that `from_pkcs8` accepts the call succeeds; the
/// result is the named signature, 64 bytes long, and it is valid for
/// `message` under the document's public key. The length bound keeps the
/// hash inside its input limit, beyond which `ring` panics.
#[verifier::external_body]
fn ring_sign(pkcs8: &[u8], message: &[u8]) -> (signature: Option<Vec<u8>>)
    requires
        ring_pkcs8_public_key(pkcs8@) is Some,
        hashable_len(message@.len()),
    ensures
        signature is Some,
        signature->0@ == ring_ed25519_signature(pkcs8@, message@),
        signature->0@.len() == SIGNATURE_LEN,
        ring_ed25519_valid(ring_pkcs8_public_key(pkcs8@)->0, message@, signature->0@),
{
    let pair = Ed25519KeyPair::from_pkcs8(pkcs8).ok()?;
    Some(pair.sign(message).as_ref().to_vec())
}

/// Calls `ring`: `UnparsedPublicKey::new(&ED25519, public_key)`, then
/// `verify(message, signature)`.
///
/// Trusted: the result is the named verdict. The length bound keeps the hash
/// inside its input limit, beyond which `ring` panics.
#[verifier::external_body]
fn ring_verify(public_key: &[u8], message: &[u8], signature: &[u8]) -> (valid: bool)
    requires
        hashable_len(message@.len()),
    ensures
        valid == ring_ed25519_valid(public_key@, message@, signature@),
{
    UnparsedPublicKey::new(&ED25519, public_key).verify(message, signature).is_ok()
}

/// An Ed25519 key pair for signing.
pub struct SigningKey {
    pkcs8: Vec<u8>,
    public_key: [u8; 32],
}

impl SigningKey {
    /// A key pair always holds a document that parses, and the public key
    /// that the document holds.
    #[verifier::type_invariant]
    spec fn well_formed(&self) -> bool {
        ring_pkcs8_public_key(self.pkcs8@) == Some(self.public_key@)
    }

    /// The PKCS#8 document of the key pair.
    pub closed spec fn document(&self) -> Seq<u8> {
        self.pkcs8@
    }

    /// The public key of the key pair.
    pub closed spec fn public_key(&self) -> Seq<u8> {
        self.public_key@
    }

    /// Loads a key pair from its PKCS#8 document.
    ///
    /// A document that `ring` rejects is `MalformedInput`.
    pub fn from_pkcs8(pkcs8: &[u8]) -> (r: Result<SigningKey, CryptoError>)
        ensures
            match r {
                Ok(key) => key.document() == pkcs8@ && ring_pkcs8_public_key(pkcs8@) == Some(
                    key.public_key(),
                ),
                Err(e) => e == CryptoError::MalformedInput && ring_pkcs8_public_key(pkcs8@)
                    is None,
            },
    {
        match ring_parse_pkcs8(pkcs8) {
            Some(public_key) => {
                let document = vstd::slice::slice_to_vec(pkcs8);
                Ok(SigningKey { pkcs8: document, public_key })
            },
            None => Err(CryptoError::MalformedInput),
        }
    }

    /// Generates a new key pair.
    ///
    /// The only failure is that of the random source.
    pub fn generate() -> (r: Result<SigningKey, CryptoError>)
        ensures
            match r {
                Ok(key) => ring_pkcs8_public_key(key.document()) == Some(key.public_key()),
                Err(e) => e == CryptoError::RandomFailure,
            },
    {
        match ring_generate_pkcs8() {
            Some(document) => {
                match SigningKey::from_pkcs8(document.as_slice()) {
                    Ok(key) => Ok(key),
                    Err(_) => Err(CryptoError::RandomFailure),
                }
            },
            None => Err(CryptoError::RandomFailure),
        }
    }

    /// Signs a message. The signature is a function of the key and the
    /// message alone, and it verifies under the key's public half.
    pub fn sign(&self, message: &[u8]) -> (signature: Vec<u8>)
        requires
            hashable_len(message@.len()),
        ensures
            signature@ == ring_ed25519_signature(self.document(), message@),
            signature@.len() == SIGNATURE_LEN,
            ring_ed25519_valid(self.public_key(), message@, signature@),
    {
        proof {
            use_type_invariant(self);
        }
        ring_sign(self.pkcs8.as_slice(), message).unwrap()
    }

    /// The public key bytes.
    pub fn public_key_bytes(&self) -> (bytes: &[u8])
        ensures
            bytes@ == self.public_key(),
            bytes@.len() == PUBLIC_KEY_LEN,
    {
        self.public_key.as_slice()
    }

    /// The PKCS#8 document, for durable storage of the identity.
    pub fn pkcs8_bytes(&self) -> (bytes: &[u8])
        ensures
            bytes@ == self.document(),
    {
        self.pkcs8.as_slice()
    }
}

/// What verifying `signature` over `message` under `public_key` returns.
pub open spec fn verified(public_key: Seq<u8>, message: Seq<u8>, signature: Seq<u8>) -> Result<
    (),
    CryptoError,
> {
    if !hashable_len(message.len()) {
        Err(CryptoError::MalformedInput)
    } else if ring_ed25519_valid(public_key, message, signature) {
        Ok(())
    } else {
        Err(CryptoError::InvalidSignature)
    }
}

/// Verifies a signature under a public key.
///
/// Succeeds exactly where the signature is valid; a signature that is not is
/// `InvalidSignature`, and a message too long to be hashed is
/// `MalformedInput`.
pub fn verify_signature(public_key_bytes: &[u8], message: &[u8], signature: &[u8]) -> (r: Result<
    (),
    CryptoError,
>)
    ensures
        r == verified(public_key_bytes@, message@, signature@),
{
    if !check_hashable_len(message.len()) {
        return Err(CryptoError::MalformedInput);
    }
    if ring_verify(public_key_bytes, message, signature) {
        Ok(())
    } else {
        Err(CryptoError::InvalidSignature)
    }
}

} // verus!
