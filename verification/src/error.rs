//! Failure values shared by every operation of the session layer.

use vstd::prelude::*;

verus! {

/// Why an operation of the session layer refused its input.
///
/// Every failure is returned as one of these values; no operation hands back
/// partial output next to an error.
#[derive(Clone, Copy, Debug, PartialEq, Eq, Structural)]
pub enum CryptoError {
    /// A signature does not verify under the given public key.
    InvalidSignature,
    /// A published bundle's signed prekey is not signed by its identity key.
    InvalidBundle,
    /// A peer public key is malformed, or the agreement it produces is the
    /// all-zero value.
    DhAgreementFailure,
    /// An authentication tag does not match; nothing was decrypted.
    AuthFailure,
    /// A length or size precondition is violated.
    MalformedInput,
    /// The operating system's random source failed.
    RandomFailure,
}

impl CryptoError {
    /// A short description of the failure.
    pub fn message(&self) -> (text: &'static str)
        ensures
            text@ == Self::message_of(*self)@,
    {
        match self {
            CryptoError::InvalidSignature => "invalid signature",
            CryptoError::InvalidBundle => "invalid signed prekey bundle",
            CryptoError::DhAgreementFailure => "Diffie-Hellman agreement failed",
            CryptoError::AuthFailure => "authentication failed",
            CryptoError::MalformedInput => "malformed input",
            CryptoError::RandomFailure => "random source failed",
        }
    }

    /// The text that [`CryptoError::message`] returns for each failure.
    pub open spec fn message_of(e: CryptoError) -> &'static str {
        match e {
            CryptoError::InvalidSignature => "invalid signature",
            CryptoError::InvalidBundle => "invalid signed prekey bundle",
            CryptoError::DhAgreementFailure => "Diffie-Hellman agreement failed",
            CryptoError::AuthFailure => "authentication failed",
            CryptoError::MalformedInput => "malformed input",
            CryptoError::RandomFailure => "random source failed",
        }
    }
}

} // verus!
