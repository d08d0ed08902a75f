//! The triple Diffie-Hellman handshake: publishable identity bundles, their
//! verification, and the agreement that seeds a ratchet.
//!
//! Identity keys are Ed25519 keys, handled by `ed25519-dalek`; in the two
//! agreements that involve an identity key it is used in its X25519 form.
//! Prekeys and ephemeral keys are X25519 keys.

use crate::bytes::to_array;
use crate::crypto::dh::{agree, agreement, dalek_x25519_public, x25519_public, x25519_shared};
use crate::crypto::kdf::{hkdf_expand_unsalted, hkdf_sha256_unsalted};
use crate::crypto::rng::os_random;
use crate::error::CryptoError;
use ed25519_dalek::{Signature, Signer, SigningKey, Verifier, VerifyingKey};
use vstd::prelude::*;
use vstd::slice::slice_subrange;

verus! {

/// Context label under which the handshake secret is derived.
pub const X3DH_LABEL: [u8; 16] = [
    0x78, 0x33, 0x64, 0x68, 0x20, 0x64, 0x65, 0x72, 0x69, 0x76, 0x65, 0x64, 0x20, 0x6b, 0x65, 0x79,
];

/// Length in bytes of an encoded bundle: two 32-byte keys and a 64-byte
/// signature.
pub const BUNDLE_LEN: usize = 128;

/// The public key of the Ed25519 secret `seed`.
pub uninterp spec fn ed25519_public(seed: Seq<u8>) -> Seq<u8>;

/// The Ed25519 signature of `message` under the secret `seed`.
pub uninterp spec fn ed25519_signature(seed: Seq<u8>, message: Seq<u8>) -> Seq<u8>;

/// Whether `signature` is a valid Ed25519 signature of `message` under
/// `public_key`, as `ed25519-dalek` decides it.
pub uninterp spec fn ed25519_valid(public_key: Seq<u8>, message: Seq<u8>, signature: Seq<u8>) -> bool;

/// The X25519 secret that belongs to the Ed25519 secret `seed`.
pub uninterp spec fn ed25519_dh_secret(seed: Seq<u8>) -> Seq<u8>;

/// The X25519 public key that belongs to an Ed25519 public key, or `None`
/// where the bytes are no point of the curve.
pub uninterp spec fn ed25519_dh_public(public_key: Seq<u8>) -> Option<Seq<u8>>;

/// Calls `ed25519_dalek`: `SigningKey::from_bytes(seed).verifying_key()`.
///
/// Trusted: the result is the named public key of `seed`.
#[verifier::external_body]
fn dalek_ed25519_public(seed: &[u8; 32]) -> (public_key: [u8; 32])
    ensures
        public_key@ == ed25519_public(seed@),
{
    SigningKey::from_bytes(seed).verifying_key().to_bytes()
}

/// Calls `ed25519_dalek`: `SigningKey::from_bytes(seed).sign(message)`.
///
/// Trusted: the result is the named signature, and it is valid for
/// `message` under the public key of `seed`.
#[verifier::external_body]
fn dalek_ed25519_sign(seed: &[u8; 32], message: &[u8]) -> (signature: [u8; 64])
    ensures
        signature@ == ed25519_signature(seed@, message@),
        ed25519_valid(ed25519_public(seed@), message@, signature@),
{
    SigningKey::from_bytes(seed).sign(message).to_bytes()
}

/// Calls `ed25519_dalek`: `VerifyingKey::from_bytes(public_key)`, then
/// `verify(message, &Signature::from_bytes(signature))`.
///
/// Trusted: the result is the named verdict; a key that is no point of the
/// curve verifies nothing.
#[verifier::external_body]
fn dalek_ed25519_verify(public_key: &[u8; 32], message: &[u8], signature: &[u8; 64]) -> (valid:
    bool)
    ensures
        valid == ed25519_valid(public_key@, message@, signature@),
{
    match VerifyingKey::from_bytes(public_key) {
        Ok(key) => key.verify(message, &Signature::from_bytes(signature)).is_ok(),
        Err(_) => false,
    }
}

/// Calls `ed25519_dalek`: `SigningKey::from_bytes(seed).to_scalar_bytes()`.
///
/// Trusted: the result is the named X25519 secret of `seed`.
#[verifier::external_body]
fn dalek_ed25519_dh_secret(seed: &[u8; 32]) -> (secret: [u8; 32])
    ensures
        secret@ == ed25519_dh_secret(seed@),
{
    SigningKey::from_bytes(seed).to_scalar_bytes()
}

/// Calls `ed25519_dalek`: `VerifyingKey::from_bytes(public_key)`, then
/// `to_montgomery()`.
///
/// Trusted: the result is the named X25519 form of the key, `None` where the
/// bytes are no point of the curve.
#[verifier::external_body]
fn dalek_ed25519_dh_public(public_key: &[u8; 32]) -> (dh_public: Option<[u8; 32]>)
    ensures
        match dh_public {
            Some(key) => ed25519_dh_public(public_key@) == Some(key@),
            None => ed25519_dh_public(public_key@) is None,
        },
{
    match VerifyingKey::from_bytes(public_key) {
        Ok(key) => Some(key.to_montgomery().to_bytes()),
        Err(_) => None,
    }
}

/// A long-term identity: an Ed25519 key pair.
pub struct IdentityKey {
    seed: [u8; 32],
    public: [u8; 32],
}

impl IdentityKey {
    #[verifier::type_invariant]
    spec fn well_formed(&self) -> bool {
        self.public@ == ed25519_public(self.seed@)
    }

    /// The secret half.
    pub closed spec fn seed(&self) -> Seq<u8> {
        self.seed@
    }

    /// The public half.
    pub closed spec fn public(&self) -> Seq<u8> {
        self.public@
    }

    /// The identity whose secret half is `seed`.
    pub fn from_seed(seed: [u8; 32]) -> (key: IdentityKey)
        ensures
            key.seed() == seed@,
            key.public() == ed25519_public(seed@),
    {
        let public = dalek_ed25519_public(&seed);
        IdentityKey { seed, public }
    }

    /// A fresh random identity, or `RandomFailure`.
    pub fn generate() -> (r: Result<IdentityKey, CryptoError>)
        ensures
            match r {
                Ok(key) => key.public() == ed25519_public(key.seed()),
                Err(e) => e == CryptoError::RandomFailure,
            },
    {
        match os_random::<32>() {
            Some(seed) => Ok(IdentityKey::from_seed(seed)),
            None => Err(CryptoError::RandomFailure),
        }
    }

    /// Signs `message` with the identity. The signature verifies under the
    /// identity's public half.
    pub fn sign(&self, message: &[u8]) -> (signature: [u8; 64])
        ensures
            signature@ == ed25519_signature(self.seed(), message@),
            ed25519_valid(self.public(), message@, signature@),
    {
        proof {
            use_type_invariant(self);
        }
        dalek_ed25519_sign(&self.seed, message)
    }

    /// The bytes of the secret half, for durable storage.
    pub fn seed_bytes(&self) -> (bytes: [u8; 32])
        ensures
            bytes@ == self.seed(),
    {
        self.seed
    }

    /// The bytes of the public half.
    pub fn public_bytes(&self) -> (bytes: [u8; 32])
        ensures
            bytes@ == self.public(),
            bytes@ == ed25519_public(self.seed()),
    {
        proof {
            use_type_invariant(self);
        }
        self.public
    }
}

/// A medium-term X25519 key pair whose public half is signed by an identity.
pub struct SignedPreKey {
    secret: [u8; 32],
    public: [u8; 32],
    signature: [u8; 64],
}

impl SignedPreKey {
    #[verifier::type_invariant]
    spec fn well_formed(&self) -> bool {
        self.public@ == x25519_public(self.secret@)
    }

    /// The secret half.
    pub closed spec fn secret(&self) -> Seq<u8> {
        self.secret@
    }

    /// The public half.
    pub closed spec fn public(&self) -> Seq<u8> {
        self.public@
    }

    /// The identity's signature over the public half.
    pub closed spec fn signature(&self) -> Seq<u8> {
        self.signature@
    }

    /// The prekey whose secret half is `secret`, signed by `identity`.
    pub fn from_secret(identity: &IdentityKey, secret: [u8; 32]) -> (key: SignedPreKey)
        ensures
            key.secret() == secret@,
            key.public() == x25519_public(secret@),
            key.signature() == ed25519_signature(identity.seed(), x25519_public(secret@)),
            ed25519_valid(identity.public(), key.public(), key.signature()),
    {
        let public = dalek_x25519_public(&secret);
        let signature = identity.sign(public.as_slice());
        SignedPreKey { secret, public, signature }
    }

    /// The bytes of the secret half, for durable storage.
    pub fn secret_bytes(&self) -> (bytes: [u8; 32])
        ensures
            bytes@ == self.secret(),
    {
        self.secret
    }

    /// The bytes of the public half.
    pub fn public_bytes(&self) -> (bytes: [u8; 32])
        ensures
            bytes@ == self.public(),
            bytes@ == x25519_public(self.secret()),
    {
        proof {
            use_type_invariant(self);
        }
        self.public
    }

    /// The bytes of the signature.
    pub fn signature_bytes(&self) -> (bytes: [u8; 64])
        ensures
            bytes@ == self.signature(),
    {
        self.signature
    }
}

/// A one-time X25519 key pair for a single handshake.
pub struct EphemeralKey {
    secret: [u8; 32],
    public: [u8; 32],
}

impl EphemeralKey {
    #[verifier::type_invariant]
    spec fn well_formed(&self) -> bool {
        self.public@ == x25519_public(self.secret@)
    }

    /// The secret half.
    pub closed spec fn secret(&self) -> Seq<u8> {
        self.secret@
    }

    /// The public half.
    pub closed spec fn public(&self) -> Seq<u8> {
        self.public@
    }

    /// The key pair whose secret half is `secret`.
    pub fn from_secret(secret: [u8; 32]) -> (key: EphemeralKey)
        ensures
            key.secret() == secret@,
            key.public() == x25519_public(secret@),
    {
        let public = dalek_x25519_public(&secret);
        EphemeralKey { secret, public }
    }

    /// A fresh random key pair, or `RandomFailure`.
    pub fn generate() -> (r: Result<EphemeralKey, CryptoError>)
        ensures
            match r {
                Ok(key) => key.public() == x25519_public(key.secret()),
                Err(e) => e == CryptoError::RandomFailure,
            },
    {
        match os_random::<32>() {
            Some(secret) => Ok(EphemeralKey::from_secret(secret)),
            None => Err(CryptoError::RandomFailure),
        }
    }

    /// The bytes of the public half, to be sent to the peer.
    pub fn public_bytes(&self) -> (bytes: [u8; 32])
        ensures
            bytes@ == self.public(),
            bytes@ == x25519_public(self.secret()),
    {
        proof {
            use_type_invariant(self);
        }
        self.public
    }
}

/// The publishable material of a responder: identity public key, signed
/// prekey public key, and the identity's signature over the prekey.
#[derive(Clone, Copy)]
pub struct X3DHBundle {
    /// Ed25519 identity public key.
    pub identity_pub: [u8; 32],
    /// X25519 signed-prekey public key.
    pub spk_pub: [u8; 32],
    /// Signature of `spk_pub` under `identity_pub`.
    pub spk_signature: [u8; 64],
}

/// What an initiator takes away from a handshake.
pub struct X3DHInitResult {
    /// The ephemeral public key, to be sent to the peer.
    pub ephemeral_public: [u8; 32],
    /// The shared secret, to seed a ratchet.
    pub shared_secret: [u8; 32],
}

/// The wire encoding of a bundle: the three fields in order.
pub open spec fn bundle_encoding(bundle: X3DHBundle) -> Seq<u8> {
    bundle.identity_pub@ + bundle.spk_pub@ + bundle.spk_signature@
}

/// Whether the bundle's prekey is signed by the bundle's identity.
pub open spec fn bundle_valid(bundle: X3DHBundle) -> bool {
    ed25519_valid(bundle.identity_pub@, bundle.spk_pub@, bundle.spk_signature@)
}

/// The shared secret that three agreements combine to: their concatenation,
/// in this order, expanded under the handshake label.
pub open spec fn x3dh_secret(dh1: Seq<u8>, dh2: Seq<u8>, dh3: Seq<u8>) -> Seq<u8> {
    hkdf_sha256_unsalted(dh1 + dh2 + dh3, X3DH_LABEL@)
}

/// The combination of three agreements, which fails where one of them does.
pub open spec fn x3dh_combined(
    dh1: Result<Seq<u8>, CryptoError>,
    dh2: Result<Seq<u8>, CryptoError>,
    dh3: Result<Seq<u8>, CryptoError>,
) -> Result<Seq<u8>, CryptoError> {
    if dh1 is Ok && dh2 is Ok && dh3 is Ok {
        Ok(x3dh_secret(dh1->Ok_0, dh2->Ok_0, dh3->Ok_0))
    } else {
        Err(CryptoError::DhAgreementFailure)
    }
}

/// The initiator's shared secret: `InvalidBundle` where the bundle does not
/// verify; otherwise the combination of ephemeral with peer prekey,
/// ephemeral with peer identity, and local identity with peer prekey.
pub open spec fn initiator_secret(
    identity_seed: Seq<u8>,
    bundle: X3DHBundle,
    ephemeral_secret: Seq<u8>,
) -> Result<Seq<u8>, CryptoError> {
    if !bundle_valid(bundle) {
        Err(CryptoError::InvalidBundle)
    } else {
        match ed25519_dh_public(bundle.identity_pub@) {
            Some(peer_identity) => x3dh_combined(
                agreement(ephemeral_secret, bundle.spk_pub@),
                agreement(ephemeral_secret, peer_identity),
                agreement(ed25519_dh_secret(identity_seed), bundle.spk_pub@),
            ),
            None => Err(CryptoError::DhAgreementFailure),
        }
    }
}

/// The responder's shared secret: the combination of own prekey with peer
/// ephemeral, own identity with peer ephemeral, and own prekey with peer
/// identity.
pub open spec fn responder_secret(
    identity_seed: Seq<u8>,
    prekey_secret: Seq<u8>,
    peer_identity_pub: Seq<u8>,
    peer_ephemeral_pub: Seq<u8>,
) -> Result<Seq<u8>, CryptoError> {
    match ed25519_dh_public(peer_identity_pub) {
        Some(peer_identity) => x3dh_combined(
            agreement(prekey_secret, peer_ephemeral_pub),
            agreement(ed25519_dh_secret(identity_seed), peer_ephemeral_pub),
            agreement(prekey_secret, peer_identity),
        ),
        None => Err(CryptoError::DhAgreementFailure),
    }
}

/// The two sides of a handshake combine the same three agreements in the
/// same order: wherever each of the three Diffie-Hellman pairs gives both
/// sides the same shared value, the responder derives exactly the
/// initiator's secret, or fails exactly where the initiator fails.
pub proof fn lemma_handshake_sides_agree(
    initiator_seed: Seq<u8>,
    ephemeral_secret: Seq<u8>,
    responder_seed: Seq<u8>,
    prekey_secret: Seq<u8>,
    bundle: X3DHBundle,
)
    requires
        bundle_valid(bundle),
        bundle.identity_pub@ == ed25519_public(responder_seed),
        bundle.spk_pub@ == x25519_public(prekey_secret),
        x25519_public(ephemeral_secret).len() == 32,
        ed25519_dh_public(ed25519_public(responder_seed)) matches Some(responder_identity)
            && responder_identity.len() == 32 && x25519_shared(
            ephemeral_secret,
            responder_identity,
        ) == x25519_shared(ed25519_dh_secret(responder_seed), x25519_public(ephemeral_secret)),
        ed25519_dh_public(ed25519_public(initiator_seed)) matches Some(initiator_identity)
            && initiator_identity.len() == 32 && x25519_shared(
            ed25519_dh_secret(initiator_seed),
            x25519_public(prekey_secret),
        ) == x25519_shared(prekey_secret, initiator_identity),
        x25519_shared(ephemeral_secret, x25519_public(prekey_secret)) == x25519_shared(
            prekey_secret,
            x25519_public(ephemeral_secret),
        ),
    ensures
        initiator_secret(initiator_seed, bundle, ephemeral_secret) == responder_secret(
            responder_seed,
            prekey_secret,
            ed25519_public(initiator_seed),
            x25519_public(ephemeral_secret),
        ),
{
}

impl X3DHBundle {
    /// Encodes the bundle for the wire: 128 bytes, the fields in order.
    pub fn to_bytes(&self) -> (bytes: Vec<u8>)
        ensures
            bytes@ == bundle_encoding(*self),
            bytes@.len() == BUNDLE_LEN,
    {
        let mut bytes: Vec<u8> = Vec::with_capacity(BUNDLE_LEN);
        bytes.extend_from_slice(self.identity_pub.as_slice());
        bytes.extend_from_slice(self.spk_pub.as_slice());
        bytes.extend_from_slice(self.spk_signature.as_slice());
        bytes
    }

    /// Decodes a bundle from the wire.
    ///
    /// Bytes of any other length than 128 are `MalformedInput`. The decoded
    /// bundle is not verified.
    pub fn from_bytes(bytes: &[u8]) -> (r: Result<X3DHBundle, CryptoError>)
        ensures
            bytes@.len() == BUNDLE_LEN ==> r is Ok && bundle_encoding(r->Ok_0) == bytes@,
            bytes@.len() != BUNDLE_LEN ==> r is Err && r->Err_0 == CryptoError::MalformedInput,
    {
        if bytes.len() != BUNDLE_LEN {
            return Err(CryptoError::MalformedInput);
        }
        let identity_pub: [u8; 32] = to_array(slice_subrange(bytes, 0, 32));
        let spk_pub: [u8; 32] = to_array(slice_subrange(bytes, 32, 64));
        let spk_signature: [u8; 64] = to_array(slice_subrange(bytes, 64, 128));
        let bundle = X3DHBundle { identity_pub, spk_pub, spk_signature };
        proof {
            assert(bundle_encoding(bundle) =~= bytes@);
        }
        Ok(bundle)
    }
}

/// Decoding inverts encoding: two bundles with the same encoding have the
/// same fields.
pub proof fn lemma_bundle_encoding_injective(a: X3DHBundle, b: X3DHBundle)
    requires
        bundle_encoding(a) == bundle_encoding(b),
    ensures
        a.identity_pub@ == b.identity_pub@,
        a.spk_pub@ == b.spk_pub@,
        a.spk_signature@ == b.spk_signature@,
{
    let e = bundle_encoding(a);
    assert(a.identity_pub@ =~= e.subrange(0, 32));
    assert(b.identity_pub@ =~= e.subrange(0, 32));
    assert(a.spk_pub@ =~= e.subrange(32, 64));
    assert(b.spk_pub@ =~= e.subrange(32, 64));
    assert(a.spk_signature@ =~= e.subrange(64, 128));
    assert(b.spk_signature@ =~= e.subrange(64, 128));
}

/// Builds an identity, a signed prekey and the bundle that publishes them
/// from the two secrets. The bundle verifies.
pub fn identity_bundle_from(identity_seed: [u8; 32], prekey_secret: [u8; 32]) -> (keys: (
    IdentityKey,
    SignedPreKey,
    X3DHBundle,
))
    ensures
        keys.0.seed() == identity_seed@,
        keys.0.public() == ed25519_public(identity_seed@),
        keys.1.secret() == prekey_secret@,
        keys.1.public() == x25519_public(prekey_secret@),
        keys.1.signature() == ed25519_signature(identity_seed@, x25519_public(prekey_secret@)),
        keys.2.identity_pub@ == keys.0.public(),
        keys.2.spk_pub@ == keys.1.public(),
        keys.2.spk_signature@ == keys.1.signature(),
        bundle_valid(keys.2),
{
    let identity = IdentityKey::from_seed(identity_seed);
    let prekey = SignedPreKey::from_secret(&identity, prekey_secret);
    let bundle = X3DHBundle {
        identity_pub: identity.public_bytes(),
        spk_pub: prekey.public_bytes(),
        spk_signature: prekey.signature_bytes(),
    };
    (identity, prekey, bundle)
}

/// Generates an identity and a signed prekey at random, and the bundle that
/// publishes them. The bundle verifies; the only failure is that of the
/// random source.
pub fn generate_identity_bundle() -> (r: Result<
    (IdentityKey, SignedPreKey, X3DHBundle),
    CryptoError,
>)
    ensures
        match r {
            Ok(keys) => keys.0.public() == ed25519_public(keys.0.seed()) && keys.1.public()
                == x25519_public(keys.1.secret()) && keys.1.signature() == ed25519_signature(
                keys.0.seed(),
                keys.1.public(),
            ) && keys.2.identity_pub@ == keys.0.public() && keys.2.spk_pub@ == keys.1.public()
                && keys.2.spk_signature@ == keys.1.signature() && bundle_valid(keys.2),
            Err(e) => e == CryptoError::RandomFailure,
        },
{
    let identity_seed = match os_random::<32>() {
        Some(seed) => seed,
        None => {
            return Err(CryptoError::RandomFailure);
        },
    };
    let prekey_secret = match os_random::<32>() {
        Some(secret) => secret,
        None => {
            return Err(CryptoError::RandomFailure);
        },
    };
    Ok(identity_bundle_from(identity_seed, prekey_secret))
}

/// Verifies that the bundle's prekey is signed by the bundle's identity.
///
/// Succeeds exactly where the signature over the prekey's public bytes is
/// valid under the identity public key; fails with `InvalidBundle`
/// otherwise. No private key is touched.
pub fn verify_signed_prekey(bundle: &X3DHBundle) -> (r: Result<(), CryptoError>)
    ensures
        bundle_valid(*bundle) ==> r is Ok,
        !bundle_valid(*bundle) ==> r is Err && r->Err_0 == CryptoError::InvalidBundle,
{
    if dalek_ed25519_verify(&bundle.identity_pub, bundle.spk_pub.as_slice(), &bundle.spk_signature) {
        Ok(())
    } else {
        Err(CryptoError::InvalidBundle)
    }
}

/// Concatenates three agreements and expands them to the shared secret.
fn derive_secret(dh1: &[u8; 32], dh2: &[u8; 32], dh3: &[u8; 32]) -> (secret: [u8; 32])
    ensures
        secret@ == x3dh_secret(dh1@, dh2@, dh3@),
{
    let mut material: Vec<u8> = Vec::with_capacity(96);
    material.extend_from_slice(dh1.as_slice());
    material.extend_from_slice(dh2.as_slice());
    material.extend_from_slice(dh3.as_slice());
    assert(material@ =~= dh1@ + dh2@ + dh3@);
    hkdf_expand_unsalted(material.as_slice(), X3DH_LABEL.as_slice())
}

/// The three agreements of the initiator, for a bundle that has verified.
fn initiator_agreements(identity: &IdentityKey, bundle: &X3DHBundle, ephemeral: EphemeralKey) -> (r:
    Result<X3DHInitResult, CryptoError>)
    requires
        bundle_valid(*bundle),
    ensures
        match r {
            Ok(result) => initiator_secret(identity.seed(), *bundle, ephemeral.secret()) == Ok::<
                Seq<u8>,
                CryptoError,
            >(result.shared_secret@) && result.ephemeral_public@ == x25519_public(
                ephemeral.secret(),
            ),
            Err(e) => initiator_secret(identity.seed(), *bundle, ephemeral.secret()) == Err::<
                Seq<u8>,
                CryptoError,
            >(e),
        },
{
    let peer_identity = match dalek_ed25519_dh_public(&bundle.identity_pub) {
        Some(key) => key,
        None => {
            return Err(CryptoError::DhAgreementFailure);
        },
    };
    let dh1 = match agree(&ephemeral.secret, bundle.spk_pub.as_slice()) {
        Ok(shared) => shared,
        Err(_) => {
            return Err(CryptoError::DhAgreementFailure);
        },
    };
    let dh2 = match agree(&ephemeral.secret, peer_identity.as_slice()) {
        Ok(shared) => shared,
        Err(_) => {
            return Err(CryptoError::DhAgreementFailure);
        },
    };
    let identity_secret = dalek_ed25519_dh_secret(&identity.seed);
    let dh3 = match agree(&identity_secret, bundle.spk_pub.as_slice()) {
        Ok(shared) => shared,
        Err(_) => {
            return Err(CryptoError::DhAgreementFailure);
        },
    };
    let shared_secret = derive_secret(&dh1, &dh2, &dh3);
    Ok(X3DHInitResult { ephemeral_public: ephemeral.public_bytes(), shared_secret })
}

/// The initiator's side of the handshake with a given ephemeral key pair,
/// which is consumed.
///
/// The bundle is verified before any agreement is computed; a bundle that
/// does not verify is `InvalidBundle`. An agreement that fails is
/// `DhAgreementFailure`. Otherwise the result holds the ephemeral public key
/// and the shared secret that [`initiator_secret`] names.
pub fn x3dh_initiate_with(identity: &IdentityKey, bundle: &X3DHBundle, ephemeral: EphemeralKey) -> (r:
    Result<X3DHInitResult, CryptoError>)
    ensures
        match r {
            Ok(result) => initiator_secret(identity.seed(), *bundle, ephemeral.secret()) == Ok::<
                Seq<u8>,
                CryptoError,
            >(result.shared_secret@) && result.ephemeral_public@ == x25519_public(
                ephemeral.secret(),
            ),
            Err(e) => initiator_secret(identity.seed(), *bundle, ephemeral.secret()) == Err::<
                Seq<u8>,
                CryptoError,
            >(e),
        },
{
    match verify_signed_prekey(bundle) {
        Ok(()) => initiator_agreements(identity, bundle, ephemeral),
        Err(e) => Err(e),
    }
}

/// The initiator's side of the handshake, with a fresh random ephemeral key
/// pair.
///
/// A bundle that does not verify is `InvalidBundle`, and is refused before
/// an ephemeral key is drawn. Otherwise the result is what
/// [`initiator_secret`] names for the ephemeral secret that was drawn, whose
/// public half the result carries.
pub fn x3dh_initiate(identity: &IdentityKey, bundle: &X3DHBundle) -> (r: Result<
    X3DHInitResult,
    CryptoError,
>)
    ensures
        !bundle_valid(*bundle) ==> r is Err && r->Err_0 == CryptoError::InvalidBundle,
        r is Ok ==> exists|ephemeral_secret: Seq<u8>|
            #![auto]
            r->Ok_0.ephemeral_public@ == x25519_public(ephemeral_secret) && initiator_secret(
                identity.seed(),
                *bundle,
                ephemeral_secret,
            ) == Ok::<Seq<u8>, CryptoError>(r->Ok_0.shared_secret@),
        bundle_valid(*bundle) && r is Err ==> r->Err_0 == CryptoError::RandomFailure || r->Err_0
            == CryptoError::DhAgreementFailure,
{
    match verify_signed_prekey(bundle) {
        Ok(()) => {},
        Err(e) => {
            return Err(e);
        },
    }
    let ephemeral = match EphemeralKey::generate() {
        Ok(key) => key,
        Err(e) => {
            return Err(e);
        },
    };
    let ghost ephemeral_secret = ephemeral.secret();
    let r = initiator_agreements(identity, bundle, ephemeral);
    proof {
        if r is Ok {
            assert(r->Ok_0.ephemeral_public@ == x25519_public(ephemeral_secret)
                && initiator_secret(identity.seed(), *bundle, ephemeral_secret) == Ok::<
                Seq<u8>,
                CryptoError,
            >(r->Ok_0.shared_secret@));
        }
    }
    r
}

/// The responder's side of the handshake: the shared secret from the
/// initiator's identity and ephemeral public keys and the responder's own
/// private keys.
///
/// An agreement that fails, or an initiator identity that is no point of
/// the curve, is `DhAgreementFailure`.
pub fn x3dh_respond(
    identity: &IdentityKey,
    signed_prekey: &SignedPreKey,
    peer_identity_pub: &[u8; 32],
    peer_ephemeral_pub: &[u8; 32],
) -> (r: Result<[u8; 32], CryptoError>)
    ensures
        match r {
            Ok(secret) => responder_secret(
                identity.seed(),
                signed_prekey.secret(),
                peer_identity_pub@,
                peer_ephemeral_pub@,
            ) == Ok::<Seq<u8>, CryptoError>(secret@),
            Err(e) => responder_secret(
                identity.seed(),
                signed_prekey.secret(),
                peer_identity_pub@,
                peer_ephemeral_pub@,
            ) == Err::<Seq<u8>, CryptoError>(e),
        },
{
    let peer_identity = match dalek_ed25519_dh_public(peer_identity_pub) {
        Some(key) => key,
        None => {
            return Err(CryptoError::DhAgreementFailure);
        },
    };
    let dh1 = match agree(&signed_prekey.secret, peer_ephemeral_pub.as_slice()) {
        Ok(shared) => shared,
        Err(_) => {
            return Err(CryptoError::DhAgreementFailure);
        },
    };
    let identity_secret = dalek_ed25519_dh_secret(&identity.seed);
    let dh2 = match agree(&identity_secret, peer_ephemeral_pub.as_slice()) {
        Ok(shared) => shared,
        Err(_) => {
            return Err(CryptoError::DhAgreementFailure);
        },
    };
    let dh3 = match agree(&signed_prekey.secret, peer_identity.as_slice()) {
        Ok(shared) => shared,
        Err(_) => {
            return Err(CryptoError::DhAgreementFailure);
        },
    };
    Ok(derive_secret(&dh1, &dh2, &dh3))
}

} // verus!
