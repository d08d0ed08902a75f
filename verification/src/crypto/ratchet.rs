//! The ratchet engine: a per-peer key schedule seeded by a handshake secret.
//!
//! A root key is folded forward by every Diffie-Hellman step; a sending and
//! a receiving chain key are advanced, one way, by every message. Each
//! message is sealed under a key derived from a chain key that is then
//! overwritten.

use crate::bytes::{to_array, zero_array, zeros};
use crate::crypto::aead::{
    check_sealable_len, envelope_nonce, open_envelope, opened_envelope, result_view,
    lemma_distinct_nonces_distinct_envelopes, seal_envelope, sealable_len, sealed_envelope,
    ENVELOPE_OVERHEAD, NONCE_LEN, TAG_LEN,
};
use crate::crypto::dh::{agree, agreement, dalek_x25519_public, x25519_public};
use crate::crypto::kdf::{check_hashable_len, hashable_len, hkdf_sha256, ring_hkdf_sha256};
use crate::crypto::rng::system_random;
use crate::crypto::window::ReceiveWindow;
use crate::error::CryptoError;
use vstd::prelude::*;
use vstd::slice::slice_subrange;

verus! {

/// Context label under which the next chain key is derived.
pub const CHAIN_LABEL: [u8; 5] = [0x63, 0x68, 0x61, 0x69, 0x6e];

/// Context label under which a message key is derived.
pub const MESSAGE_LABEL: [u8; 3] = [0x6d, 0x73, 0x67];

/// Associated data that every ratchet envelope is sealed with.
pub const MESSAGE_AAD: [u8; 3] = [0x6d, 0x73, 0x67];

/// The root key that a shared secret seeds: the secret expanded under the
/// fixed, empty salt.
pub open spec fn root_from_secret(shared_secret: Seq<u8>) -> Seq<u8> {
    hkdf_sha256(Seq::<u8>::empty(), shared_secret, Seq::<u8>::empty())
}

/// The root key after folding a Diffie-Hellman value into `root_key`.
pub open spec fn root_step(root_key: Seq<u8>, dh_shared: Seq<u8>) -> Seq<u8> {
    hkdf_sha256(root_key, dh_shared, Seq::<u8>::empty())
}

/// The chain key that follows `chain_key`.
pub open spec fn chain_next(chain_key: Seq<u8>) -> Seq<u8> {
    hkdf_sha256(chain_key, Seq::<u8>::empty(), CHAIN_LABEL@)
}

/// The message key that `chain_key` yields.
pub open spec fn chain_message_key(chain_key: Seq<u8>) -> Seq<u8> {
    hkdf_sha256(chain_key, Seq::<u8>::empty(), MESSAGE_LABEL@)
}

/// The envelope that a chain standing at `chain_key` emits for `plaintext`
/// under `nonce`.
pub open spec fn chain_seals(chain_key: Seq<u8>, nonce: Seq<u8>, plaintext: Seq<u8>) -> Seq<u8> {
    sealed_envelope(chain_message_key(chain_key), nonce, MESSAGE_AAD@, plaintext)
}

/// What a chain standing at `chain_key` makes of `envelope`.
pub open spec fn chain_opens(chain_key: Seq<u8>, envelope: Seq<u8>) -> Result<
    Seq<u8>,
    CryptoError,
> {
    opened_envelope(chain_message_key(chain_key), MESSAGE_AAD@, envelope)
}

/// The mathematical state of a ratchet.
pub struct RatchetState {
    /// Root key, 32 bytes.
    pub root_key: Seq<u8>,
    /// Sending chain key, 32 bytes; all zeros until first advanced.
    pub sending_chain_key: Seq<u8>,
    /// Receiving chain key, 32 bytes; all zeros until first advanced.
    pub receiving_chain_key: Seq<u8>,
    /// Local Diffie-Hellman secret.
    pub dh_private_key: Seq<u8>,
    /// Local Diffie-Hellman public key.
    pub dh_public_key: Seq<u8>,
    /// The peer's public key of the last Diffie-Hellman step, if any.
    pub peer_dh_public_key: Option<Seq<u8>>,
}

impl RatchetState {
    /// The state that a shared secret and a local Diffie-Hellman secret seed.
    pub open spec fn initial(shared_secret: Seq<u8>, dh_private_key: Seq<u8>) -> RatchetState {
        RatchetState {
            root_key: root_from_secret(shared_secret),
            sending_chain_key: zeros(32),
            receiving_chain_key: zeros(32),
            dh_private_key,
            dh_public_key: x25519_public(dh_private_key),
            peer_dh_public_key: None,
        }
    }

    /// The state after a Diffie-Hellman step with `peer_public_key`, or the
    /// failure of the agreement.
    pub open spec fn dh_ratcheted(self, peer_public_key: Seq<u8>) -> Result<
        RatchetState,
        CryptoError,
    > {
        match agreement(self.dh_private_key, peer_public_key) {
            Ok(shared) => Ok(
                RatchetState {
                    root_key: root_step(self.root_key, shared),
                    sending_chain_key: zeros(32),
                    receiving_chain_key: zeros(32),
                    peer_dh_public_key: Some(peer_public_key),
                    ..self
                },
            ),
            Err(e) => Err(e),
        }
    }

    /// The envelope that encrypting `plaintext` under `nonce` emits.
    pub open spec fn encrypted(self, nonce: Seq<u8>, plaintext: Seq<u8>) -> Seq<u8> {
        chain_seals(self.sending_chain_key, nonce, plaintext)
    }

    /// The state after one message was encrypted.
    pub open spec fn after_encrypt(self) -> RatchetState {
        RatchetState { sending_chain_key: chain_next(self.sending_chain_key), ..self }
    }

    /// What decrypting `envelope` returns.
    pub open spec fn decrypted(self, envelope: Seq<u8>) -> Result<Seq<u8>, CryptoError> {
        chain_opens(self.receiving_chain_key, envelope)
    }

    /// The state after decrypting `envelope`: the receiving chain advances
    /// where the envelope opened, and nothing changes where it did not.
    pub open spec fn after_decrypt(self, envelope: Seq<u8>) -> RatchetState {
        if self.decrypted(envelope) is Ok {
            RatchetState { receiving_chain_key: chain_next(self.receiving_chain_key), ..self }
        } else {
            self
        }
    }
}

/// Length in bytes of an encoded state without a peer key.
pub const STATE_LEN: usize = 161;

/// Length in bytes of an encoded state with a peer key.
pub const STATE_WITH_PEER_LEN: usize = 193;

/// The encoding of a state for durable storage: root key, sending chain
/// key, receiving chain key, local secret and local public key, 32 bytes
/// each, then one byte that is 1 where a peer key follows and 0 where none
/// does, then the peer key.
pub open spec fn state_encoding(state: RatchetState) -> Seq<u8> {
    state.root_key + state.sending_chain_key + state.receiving_chain_key + state.dh_private_key
        + state.dh_public_key + match state.peer_dh_public_key {
        Some(peer) => seq![1u8] + peer,
        None => seq![0u8],
    }
}

/// Whether `bytes` has the shape of an encoded state.
pub open spec fn decodable_state(bytes: Seq<u8>) -> bool {
    (bytes.len() == STATE_LEN && bytes[160] == 0u8) || (bytes.len() == STATE_WITH_PEER_LEN
        && bytes[160] == 1u8)
}

/// Whether the keys of a state have their lengths.
pub open spec fn state_has_key_lengths(state: RatchetState) -> bool {
    state.root_key.len() == 32 && state.sending_chain_key.len() == 32
        && state.receiving_chain_key.len() == 32 && state.dh_private_key.len() == 32
        && state.dh_public_key.len() == 32 && (state.peer_dh_public_key is Some
        ==> state.peer_dh_public_key->0.len() == 32)
}

/// Two states with the same encoding are the same state, so decoding what
/// was encoded restores the state exactly.
pub proof fn lemma_state_encoding_injective(a: RatchetState, b: RatchetState)
    requires
        state_has_key_lengths(a),
        state_has_key_lengths(b),
        state_encoding(a) == state_encoding(b),
    ensures
        a == b,
        decodable_state(state_encoding(a)),
{
    let e = state_encoding(a);
    let f = state_encoding(b);
    assert(a.root_key =~= e.subrange(0, 32));
    assert(b.root_key =~= f.subrange(0, 32));
    assert(a.sending_chain_key =~= e.subrange(32, 64));
    assert(b.sending_chain_key =~= f.subrange(32, 64));
    assert(a.receiving_chain_key =~= e.subrange(64, 96));
    assert(b.receiving_chain_key =~= f.subrange(64, 96));
    assert(a.dh_private_key =~= e.subrange(96, 128));
    assert(b.dh_private_key =~= f.subrange(96, 128));
    assert(a.dh_public_key =~= e.subrange(128, 160));
    assert(b.dh_public_key =~= f.subrange(128, 160));
    assert(e[160] == if a.peer_dh_public_key is Some {
        1u8
    } else {
        0u8
    });
    assert(f[160] == if b.peer_dh_public_key is Some {
        1u8
    } else {
        0u8
    });
    if a.peer_dh_public_key is Some {
        assert(a.peer_dh_public_key->0 =~= e.subrange(161, 193));
        assert(b.peer_dh_public_key->0 =~= f.subrange(161, 193));
    }
}

/// The ratchet of one peer session.
pub struct Ratchet {
    root_key: [u8; 32],
    sending_chain_key: [u8; 32],
    receiving_chain_key: [u8; 32],
    dh_private_key: [u8; 32],
    dh_public_key: [u8; 32],
    peer_dh_public_key: Option<[u8; 32]>,
}

impl View for Ratchet {
    type V = RatchetState;

    closed spec fn view(&self) -> RatchetState {
        RatchetState {
            root_key: self.root_key@,
            sending_chain_key: self.sending_chain_key@,
            receiving_chain_key: self.receiving_chain_key@,
            dh_private_key: self.dh_private_key@,
            dh_public_key: self.dh_public_key@,
            peer_dh_public_key: match self.peer_dh_public_key {
                Some(key) => Some(key@),
                None => None,
            },
        }
    }
}

impl Ratchet {
    /// The root key.
    pub fn root_key(&self) -> (key: [u8; 32])
        ensures
            key@ == self@.root_key,
    {
        self.root_key
    }

    /// The sending chain key.
    pub fn sending_chain_key(&self) -> (key: [u8; 32])
        ensures
            key@ == self@.sending_chain_key,
    {
        self.sending_chain_key
    }

    /// The receiving chain key.
    pub fn receiving_chain_key(&self) -> (key: [u8; 32])
        ensures
            key@ == self@.receiving_chain_key,
    {
        self.receiving_chain_key
    }

    /// The peer's public key of the last Diffie-Hellman step, if there was
    /// one.
    pub fn peer_public_key(&self) -> (key: Option<[u8; 32]>)
        ensures
            match key {
                Some(bytes) => self@.peer_dh_public_key == Some(bytes@),
                None => self@.peer_dh_public_key is None,
            },
    {
        self.peer_dh_public_key
    }

    /// Encodes the state for durable storage, as [`state_encoding`] lays it
    /// out.
    pub fn to_bytes(&self) -> (bytes: Vec<u8>)
        ensures
            bytes@ == state_encoding(self@),
            decodable_state(bytes@),
            state_has_key_lengths(self@),
    {
        let mut bytes: Vec<u8> = Vec::with_capacity(STATE_WITH_PEER_LEN);
        bytes.extend_from_slice(self.root_key.as_slice());
        bytes.extend_from_slice(self.sending_chain_key.as_slice());
        bytes.extend_from_slice(self.receiving_chain_key.as_slice());
        bytes.extend_from_slice(self.dh_private_key.as_slice());
        bytes.extend_from_slice(self.dh_public_key.as_slice());
        match &self.peer_dh_public_key {
            Some(peer) => {
                bytes.push(1u8);
                bytes.extend_from_slice(peer.as_slice());
                proof {
                    assert(bytes@ =~= state_encoding(self@));
                }
            },
            None => {
                bytes.push(0u8);
                proof {
                    assert(bytes@ =~= state_encoding(self@));
                }
            },
        }
        bytes
    }

    /// Restores a ratchet from its encoding.
    ///
    /// Bytes that do not have the shape of an encoded state are
    /// `MalformedInput`.
    pub fn from_bytes(bytes: &[u8]) -> (r: Result<Ratchet, CryptoError>)
        ensures
            decodable_state(bytes@) ==> r is Ok && state_encoding(r->Ok_0@) == bytes@,
            !decodable_state(bytes@) ==> r is Err && r->Err_0 == CryptoError::MalformedInput,
    {
        if bytes.len() != STATE_LEN && bytes.len() != STATE_WITH_PEER_LEN {
            return Err(CryptoError::MalformedInput);
        }
        let with_peer = bytes.len() == STATE_WITH_PEER_LEN;
        if bytes[160] != (if with_peer {
            1u8
        } else {
            0u8
        }) {
            return Err(CryptoError::MalformedInput);
        }
        let peer_dh_public_key: Option<[u8; 32]> = if with_peer {
            Some(to_array(slice_subrange(bytes, 161, 193)))
        } else {
            None
        };
        let ratchet = Ratchet {
            root_key: to_array(slice_subrange(bytes, 0, 32)),
            sending_chain_key: to_array(slice_subrange(bytes, 32, 64)),
            receiving_chain_key: to_array(slice_subrange(bytes, 64, 96)),
            dh_private_key: to_array(slice_subrange(bytes, 96, 128)),
            dh_public_key: to_array(slice_subrange(bytes, 128, 160)),
            peer_dh_public_key,
        };
        proof {
            assert(state_encoding(ratchet@) =~= bytes@);
        }
        Ok(ratchet)
    }

    /// Derives the next chain key and the message key from a chain key.
    ///
    /// The two outputs come from the same chain key under distinct labels.
    pub fn kdf_chain(chain_key: &[u8; 32]) -> (keys: ([u8; 32], [u8; 32]))
        ensures
            keys.0@ == chain_next(chain_key@),
            keys.1@ == chain_message_key(chain_key@),
    {
        let empty: [u8; 0] = [];
        let next = ring_hkdf_sha256(chain_key.as_slice(), empty.as_slice(), CHAIN_LABEL.as_slice());
        let message_key = ring_hkdf_sha256(
            chain_key.as_slice(),
            empty.as_slice(),
            MESSAGE_LABEL.as_slice(),
        );
        proof {
            assert(empty@ =~= Seq::<u8>::empty());
        }
        (next, message_key)
    }

    /// Seeds a ratchet from a shared secret and a given local Diffie-Hellman
    /// secret.
    ///
    /// Fails with `MalformedInput`, and only so, where the secret is too long
    /// to be hashed.
    pub fn with_dh_key(shared_secret: &[u8], dh_private_key: [u8; 32]) -> (r: Result<
        Ratchet,
        CryptoError,
    >)
        ensures
            hashable_len(shared_secret@.len()) ==> r is Ok && r->Ok_0@ == RatchetState::initial(
                shared_secret@,
                dh_private_key@,
            ),
            !hashable_len(shared_secret@.len()) ==> r is Err && r->Err_0
                == CryptoError::MalformedInput,
    {
        if !check_hashable_len(shared_secret.len()) {
            return Err(CryptoError::MalformedInput);
        }
        let empty: [u8; 0] = [];
        let root_key = ring_hkdf_sha256(empty.as_slice(), shared_secret, empty.as_slice());
        let dh_public_key = dalek_x25519_public(&dh_private_key);
        proof {
            assert(empty@ =~= Seq::<u8>::empty());
        }
        Ok(
            Ratchet {
                root_key,
                sending_chain_key: zero_array(),
                receiving_chain_key: zero_array(),
                dh_private_key,
                dh_public_key,
                peer_dh_public_key: None,
            },
        )
    }

    /// Seeds a ratchet from a shared secret, with a fresh random local
    /// Diffie-Hellman key pair.
    ///
    /// A secret too long to be hashed is `MalformedInput`; the only other
    /// failure is that of the random source.
    pub fn new(shared_secret: &[u8]) -> (r: Result<Ratchet, CryptoError>)
        ensures
            match r {
                Ok(ratchet) => hashable_len(shared_secret@.len()) && ratchet@
                    == RatchetState::initial(shared_secret@, ratchet@.dh_private_key),
                Err(e) => if hashable_len(shared_secret@.len()) {
                    e == CryptoError::RandomFailure
                } else {
                    e == CryptoError::MalformedInput
                },
            },
    {
        if !check_hashable_len(shared_secret.len()) {
            return Err(CryptoError::MalformedInput);
        }
        match system_random::<32>() {
            Some(dh_private_key) => Ratchet::with_dh_key(shared_secret, dh_private_key),
            None => Err(CryptoError::RandomFailure),
        }
    }

    /// The local public key, for transmission to the peer.
    pub fn public_key(&self) -> (key: &[u8])
        ensures
            key@ == self@.dh_public_key,
    {
        self.dh_public_key.as_slice()
    }

    /// Performs a Diffie-Hellman step with the peer's public key: the
    /// agreement is folded into the root key, both chain keys return to the
    /// all-zero value, and the peer's key is recorded.
    ///
    /// Where the agreement fails the state is left as it was.
    pub fn dh_ratchet(&mut self, peer_public_key: &[u8]) -> (r: Result<(), CryptoError>)
        ensures
            match old(self)@.dh_ratcheted(peer_public_key@) {
                Ok(next) => r is Ok && final(self)@ == next,
                Err(e) => r == Err::<(), CryptoError>(e) && final(self)@ == old(self)@,
            },
    {
        let shared = match agree(&self.dh_private_key, peer_public_key) {
            Ok(shared) => shared,
            Err(e) => {
                return Err(e);
            },
        };
        let empty: [u8; 0] = [];
        let root_key = ring_hkdf_sha256(
            self.root_key.as_slice(),
            shared.as_slice(),
            empty.as_slice(),
        );
        let peer: [u8; 32] = to_array(peer_public_key);
        proof {
            assert(empty@ =~= Seq::<u8>::empty());
        }
        self.root_key = root_key;
        self.sending_chain_key = zero_array();
        self.receiving_chain_key = zero_array();
        self.peer_dh_public_key = Some(peer);
        Ok(())
    }

    /// Encrypts `plaintext` under the given nonce and advances the sending
    /// chain.
    ///
    /// A plaintext too long to be sealed is `MalformedInput`, and the state
    /// is left as it was. Otherwise the envelope is
    /// `nonce || ciphertext || tag`, sealed under the message key of the
    /// sending chain, and it decrypts to `plaintext` on a receiving chain
    /// that stands where the sending chain stood.
    pub fn encrypt_with_nonce(&mut self, plaintext: &[u8], nonce: [u8; 12]) -> (r: Result<
        Vec<u8>,
        CryptoError,
    >)
        ensures
            sealable_len(plaintext@.len()) ==> r is Ok && r->Ok_0@ == old(self)@.encrypted(
                nonce@,
                plaintext@,
            ) && chain_opens(old(self)@.sending_chain_key, r->Ok_0@) == Ok::<Seq<u8>, CryptoError>(
                plaintext@,
            ) && r->Ok_0@.len() == plaintext@.len() + ENVELOPE_OVERHEAD && final(self)@ == old(
                self,
            )@.after_encrypt(),
            !sealable_len(plaintext@.len()) ==> r is Err && r->Err_0 == CryptoError::MalformedInput
                && final(self)@ == old(self)@,
    {
        if !check_sealable_len(plaintext.len()) {
            return Err(CryptoError::MalformedInput);
        }
        let (next_chain_key, message_key) = Ratchet::kdf_chain(&self.sending_chain_key);
        match seal_envelope(&message_key, &nonce, MESSAGE_AAD.as_slice(), plaintext) {
            Ok(envelope) => {
                self.sending_chain_key = next_chain_key;
                Ok(envelope)
            },
            Err(e) => Err(e),
        }
    }

    /// Encrypts `plaintext` under a fresh random nonce and advances the
    /// sending chain.
    ///
    /// On any failure the state is left as it was: `MalformedInput` for a
    /// plaintext too long to be sealed, `RandomFailure` where no nonce could
    /// be drawn.
    pub fn encrypt(&mut self, plaintext: &[u8]) -> (r: Result<Vec<u8>, CryptoError>)
        ensures
            match r {
                Ok(envelope) => sealable_len(plaintext@.len()) && envelope@ == old(
                    self,
                )@.encrypted(envelope_nonce(envelope@), plaintext@) && chain_opens(
                    old(self)@.sending_chain_key,
                    envelope@,
                ) == Ok::<Seq<u8>, CryptoError>(plaintext@) && envelope@.len() == plaintext@.len()
                    + ENVELOPE_OVERHEAD && final(self)@ == old(self)@.after_encrypt(),
                Err(e) => final(self)@ == old(self)@ && if sealable_len(plaintext@.len()) {
                    e == CryptoError::RandomFailure
                } else {
                    e == CryptoError::MalformedInput
                },
            },
    {
        if !check_sealable_len(plaintext.len()) {
            return Err(CryptoError::MalformedInput);
        }
        match system_random::<12>() {
            Some(nonce) => {
                let r = self.encrypt_with_nonce(plaintext, nonce);
                proof {
                    assert(envelope_nonce(r->Ok_0@) =~= nonce@);
                }
                r
            },
            None => Err(CryptoError::RandomFailure),
        }
    }

    /// Decrypts an envelope that may have arrived out of order, with the
    /// held-back keys of `window` or with a message key of the receiving
    /// chain up to `MAX_SKIP` positions ahead.
    ///
    /// Outcome and new state are those that the window's state names. Only
    /// the receiving chain key of the ratchet can change; where nothing
    /// opens the envelope, nothing changes at all.
    pub fn decrypt_in_window(&mut self, window: &mut ReceiveWindow, envelope: &[u8]) -> (r: Result<
        Vec<u8>,
        CryptoError,
    >)
        requires
            old(window).wf(),
        ensures
            final(window).wf(),
            result_view(r) == old(window).state(old(self)@.receiving_chain_key).received(
                envelope@,
            ),
            final(window).state(final(self)@.receiving_chain_key) == old(window).state(
                old(self)@.receiving_chain_key,
            ).after_receive(envelope@),
            final(self)@ == (RatchetState {
                receiving_chain_key: final(self)@.receiving_chain_key,
                ..old(self)@
            }),
    {
        let (outcome, chain_key) = window.receive(self.receiving_chain_key, envelope);
        self.receiving_chain_key = chain_key;
        outcome
    }

    /// Decrypts an envelope with the next message key of the receiving
    /// chain.
    ///
    /// An envelope shorter than a nonce and a tag is `MalformedInput`. A tag
    /// that does not match is `AuthFailure`. In both cases no plaintext is
    /// returned and the receiving chain is left where it stood: the advance
    /// is committed only after the envelope has opened.
    pub fn decrypt(&mut self, envelope: &[u8]) -> (r: Result<Vec<u8>, CryptoError>)
        ensures
            result_view(r) == old(self)@.decrypted(envelope@),
            r is Ok ==> r->Ok_0@.len() + ENVELOPE_OVERHEAD == envelope@.len(),
            final(self)@ == old(self)@.after_decrypt(envelope@),
    {
        if envelope.len() < NONCE_LEN + TAG_LEN {
            return Err(CryptoError::MalformedInput);
        }
        let (next_chain_key, message_key) = Ratchet::kdf_chain(&self.receiving_chain_key);
        match open_envelope(&message_key, MESSAGE_AAD.as_slice(), envelope) {
            Ok(plaintext) => {
                self.receiving_chain_key = next_chain_key;
                Ok(plaintext)
            },
            Err(e) => Err(e),
        }
    }
}

/// Decryption inverts encryption on matching chains: an envelope that opens
/// to `plaintext` where the sender's sending chain stood, which is what
/// `encrypt` promises of the envelope it returns, decrypts to `plaintext` on
/// every receiver whose receiving chain stands at the same key; afterwards
/// the two chains stand at the same key again.
pub proof fn lemma_decrypt_inverts_encrypt(
    sender: RatchetState,
    receiver: RatchetState,
    plaintext: Seq<u8>,
    envelope: Seq<u8>,
)
    requires
        receiver.receiving_chain_key == sender.sending_chain_key,
        chain_opens(sender.sending_chain_key, envelope) == Ok::<Seq<u8>, CryptoError>(plaintext),
    ensures
        receiver.decrypted(envelope) == Ok::<Seq<u8>, CryptoError>(plaintext),
        receiver.after_decrypt(envelope).receiving_chain_key
            == sender.after_encrypt().sending_chain_key,
        receiver.after_decrypt(envelope).root_key == receiver.root_key,
{
}

/// Two successive encryptions on one chain give different envelopes as soon
/// as their nonces differ, even for identical plaintexts.
pub proof fn lemma_successive_envelopes_differ(
    state: RatchetState,
    nonce1: Seq<u8>,
    nonce2: Seq<u8>,
    plaintext1: Seq<u8>,
    plaintext2: Seq<u8>,
)
    requires
        nonce1.len() == NONCE_LEN,
        nonce2.len() == NONCE_LEN,
        nonce1 != nonce2,
    ensures
        state.encrypted(nonce1, plaintext1) != state.after_encrypt().encrypted(
            nonce2,
            plaintext2,
        ),
{
    lemma_distinct_nonces_distinct_envelopes(
        chain_message_key(state.sending_chain_key),
        nonce1,
        MESSAGE_AAD@,
        plaintext1,
        chain_message_key(state.after_encrypt().sending_chain_key),
        nonce2,
        MESSAGE_AAD@,
        plaintext2,
    );
}

/// An envelope that does not decrypt leaves the whole state as it was, and
/// no plaintext comes out of it.
pub proof fn lemma_rejected_envelope_changes_nothing(state: RatchetState, envelope: Seq<u8>)
    requires
        state.decrypted(envelope) is Err,
    ensures
        state.after_decrypt(envelope) == state,
        envelope.len() >= NONCE_LEN + TAG_LEN ==> state.decrypted(envelope) == Err::<
            Seq<u8>,
            CryptoError,
        >(CryptoError::AuthFailure),
{
}

/// A Diffie-Hellman step that succeeds returns both chain keys to the
/// all-zero value, records the peer's key, makes the root key the fold of
/// the agreement into the old root key, and keeps the local key pair.
pub proof fn lemma_dh_ratchet_resets_chains(state: RatchetState, peer_public_key: Seq<u8>)
    requires
        state.dh_ratcheted(peer_public_key) is Ok,
    ensures
        state.dh_ratcheted(peer_public_key)->Ok_0.sending_chain_key == zeros(32),
        state.dh_ratcheted(peer_public_key)->Ok_0.receiving_chain_key == zeros(32),
        state.dh_ratcheted(peer_public_key)->Ok_0.peer_dh_public_key == Some(peer_public_key),
        agreement(state.dh_private_key, peer_public_key) is Ok,
        state.dh_ratcheted(peer_public_key)->Ok_0.root_key == root_step(
            state.root_key,
            agreement(state.dh_private_key, peer_public_key)->Ok_0,
        ),
        state.dh_ratcheted(peer_public_key)->Ok_0.dh_private_key == state.dh_private_key,
        state.dh_ratcheted(peer_public_key)->Ok_0.dh_public_key == state.dh_public_key,
{
}

} // verus!
