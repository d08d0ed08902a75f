//! The public representation of a user.

use vstd::prelude::*;
use vstd::utf8::encode_utf8;

verus! {

/// Public representation of a user in the system.
#[derive(Clone, Debug)]
pub struct PublicIdentity {
    /// Unique `@user` identifier.
    pub username: String,
    /// Ed25519 public key, for signatures.
    pub signing_public_key: Vec<u8>,
    /// X25519 public key, for key exchange.
    pub encryption_public_key: Vec<u8>,
    /// Signature of the signed payload by the user.
    pub signature: Vec<u8>,
}

impl PublicIdentity {
    /// The bytes that the user's signature covers: the UTF-8 bytes of the
    /// username, then the signing key, then the encryption key.
    pub open spec fn payload(&self) -> Seq<u8> {
        encode_utf8(self.username@) + self.signing_public_key@ + self.encryption_public_key@
    }

    /// Returns the signed message content (username + keys).
    pub fn signed_payload(&self) -> (data: Vec<u8>)
        ensures
            data@ == self.payload(),
    {
        let mut data: Vec<u8> = Vec::new();
        data.extend_from_slice(self.username.as_str().as_bytes());
        data.extend_from_slice(self.signing_public_key.as_slice());
        data.extend_from_slice(self.encryption_public_key.as_slice());
        data
    }
}

} // verus!
