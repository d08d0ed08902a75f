//! ChaCha20-Poly1305 sealing and opening, and the self-describing envelope
//! `nonce || ciphertext || tag` that every encrypting component emits.
//!
//! The cipher is computed by `ring`. Its results are named here, so that the
//! envelope format and the failure rules can be stated and proved exactly.

use crate::error::CryptoError;
use ring::aead::{Aad, LessSafeKey, Nonce, UnboundKey, CHACHA20_POLY1305};
use vstd::prelude::*;
use vstd::slice::slice_subrange;

verus! {

/// Length in bytes of a nonce.
pub const NONCE_LEN: usize = 12;

/// Length in bytes of an authentication tag.
pub const TAG_LEN: usize = 16;

/// Length in bytes of what an envelope adds to its plaintext.
pub const ENVELOPE_OVERHEAD: usize = 28;

/// Longest plaintext, in bytes, that ChaCha20-Poly1305 seals under one nonce.
pub const MAX_PLAINTEXT_LEN: u64 = 274_877_906_880;

/// The ciphertext followed by the tag that sealing `plaintext` yields.
pub uninterp spec fn chacha20poly1305_seal(
    key: Seq<u8>,
    nonce: Seq<u8>,
    aad: Seq<u8>,
    plaintext: Seq<u8>,
) -> Seq<u8>;

/// The plaintext that opening `sealed` yields, or `None` where the tag does
/// not authenticate `sealed` and `aad` under `key` and `nonce`.
pub uninterp spec fn chacha20poly1305_open(
    key: Seq<u8>,
    nonce: Seq<u8>,
    aad: Seq<u8>,
    sealed: Seq<u8>,
) -> Option<Seq<u8>>;

/// Whether a plaintext of `len` bytes can be sealed into one envelope: the
/// cipher takes it, and the envelope's length is one a buffer can have.
pub open spec fn sealable_len(len: nat) -> bool {
    len <= MAX_PLAINTEXT_LEN && len + ENVELOPE_OVERHEAD <= isize::MAX
}

/// The envelope that sealing `plaintext` under `nonce` yields.
pub open spec fn sealed_envelope(
    key: Seq<u8>,
    nonce: Seq<u8>,
    aad: Seq<u8>,
    plaintext: Seq<u8>,
) -> Seq<u8> {
    nonce + chacha20poly1305_seal(key, nonce, aad, plaintext)
}

/// The nonce that an envelope of at least `NONCE_LEN` bytes starts with.
pub open spec fn envelope_nonce(envelope: Seq<u8>) -> Seq<u8> {
    envelope.subrange(0, NONCE_LEN as int)
}

/// The ciphertext and tag that follow an envelope's nonce.
pub open spec fn envelope_body(envelope: Seq<u8>) -> Seq<u8> {
    envelope.subrange(NONCE_LEN as int, envelope.len() as int)
}

/// What opening `envelope` yields: `MalformedInput` where it is too short to
/// hold a nonce and a tag, `AuthFailure` where the tag does not match, and
/// the plaintext otherwise.
pub open spec fn opened_envelope(key: Seq<u8>, aad: Seq<u8>, envelope: Seq<u8>) -> Result<
    Seq<u8>,
    CryptoError,
> {
    if envelope.len() < NONCE_LEN + TAG_LEN {
        Err(CryptoError::MalformedInput)
    } else {
        match chacha20poly1305_open(key, envelope_nonce(envelope), aad, envelope_body(envelope)) {
            Some(plaintext) => Ok(plaintext),
            None => Err(CryptoError::AuthFailure),
        }
    }
}

/// An executable result seen as a result over byte sequences.
pub open spec fn result_view(r: Result<Vec<u8>, CryptoError>) -> Result<Seq<u8>, CryptoError> {
    match r {
        Ok(bytes) => Ok(bytes@),
        Err(e) => Err(e),
    }
}

/// An envelope starts with the nonce it was sealed under, so envelopes
/// sealed under different nonces differ, whatever their keys and plaintexts.
pub proof fn lemma_distinct_nonces_distinct_envelopes(
    key1: Seq<u8>,
    nonce1: Seq<u8>,
    aad1: Seq<u8>,
    plaintext1: Seq<u8>,
    key2: Seq<u8>,
    nonce2: Seq<u8>,
    aad2: Seq<u8>,
    plaintext2: Seq<u8>,
)
    requires
        nonce1.len() == NONCE_LEN,
        nonce2.len() == NONCE_LEN,
        nonce1 != nonce2,
    ensures
        envelope_nonce(sealed_envelope(key1, nonce1, aad1, plaintext1)) == nonce1,
        envelope_nonce(sealed_envelope(key2, nonce2, aad2, plaintext2)) == nonce2,
        sealed_envelope(key1, nonce1, aad1, plaintext1) != sealed_envelope(
            key2,
            nonce2,
            aad2,
            plaintext2,
        ),
{
    assert(envelope_nonce(sealed_envelope(key1, nonce1, aad1, plaintext1)) =~= nonce1);
    assert(envelope_nonce(sealed_envelope(key2, nonce2, aad2, plaintext2)) =~= nonce2);
}

/// The byte string `bytes` with bit `bit` of byte `index` inverted.
pub open spec fn with_bit_flipped(bytes: Seq<u8>, index: int, bit: u8) -> Seq<u8> {
    bytes.update(index, bytes[index] ^ (1u8 << bit))
}

/// Inverting one bit of an envelope changes it and keeps its length, so an
/// envelope long enough to be opened is never `MalformedInput` after the
/// change: it opens, or it is `AuthFailure`, as the tag check decides.
pub proof fn lemma_bit_flip_is_never_malformed(
    key: Seq<u8>,
    aad: Seq<u8>,
    envelope: Seq<u8>,
    index: int,
    bit: u8,
)
    requires
        envelope.len() >= NONCE_LEN + TAG_LEN,
        0 <= index < envelope.len(),
        bit < 8,
    ensures
        with_bit_flipped(envelope, index, bit) != envelope,
        with_bit_flipped(envelope, index, bit).len() == envelope.len(),
        opened_envelope(key, aad, with_bit_flipped(envelope, index, bit)) != Err::<
            Seq<u8>,
            CryptoError,
        >(CryptoError::MalformedInput),
        opened_envelope(key, aad, with_bit_flipped(envelope, index, bit)) is Err
            ==> opened_envelope(key, aad, with_bit_flipped(envelope, index, bit)) == Err::<
            Seq<u8>,
            CryptoError,
        >(CryptoError::AuthFailure),
{
    let byte = envelope[index];
    assert(byte ^ (1u8 << bit) != byte) by (bit_vector)
        requires
            bit < 8,
    ;
    assert(with_bit_flipped(envelope, index, bit)[index] != envelope[index]);
}

/// Calls `ring::aead`: `UnboundKey::new(&CHACHA20_POLY1305, key)`, then
/// `LessSafeKey::seal_in_place_append_tag` on a copy of `plaintext`.
///
/// Trusted: for a plaintext within the cipher's limit the call succeeds; its
/// result is the named sealing, 16 bytes longer than the plaintext, and
/// opening that result under the same key, nonce and associated data gives
/// the plaintext back.
#[verifier::external_body]
pub(crate) fn ring_seal(key: &[u8; 32], nonce: &[u8; 12], aad: &[u8], plaintext: &[u8]) -> (sealed:
    Option<Vec<u8>>)
    requires
        sealable_len(plaintext@.len()),
    ensures
        sealed is Some,
        sealed->0@ == chacha20poly1305_seal(key@, nonce@, aad@, plaintext@),
        sealed->0@.len() == plaintext@.len() + TAG_LEN,
        chacha20poly1305_open(key@, nonce@, aad@, sealed->0@) == Some(plaintext@),
{
    let key = UnboundKey::new(&CHACHA20_POLY1305, key).ok()?;
    let mut in_out = plaintext.to_vec();
    LessSafeKey::new(key)
        .seal_in_place_append_tag(Nonce::assume_unique_for_key(*nonce), Aad::from(aad), &mut in_out)
        .ok()?;
    Some(in_out)
}

/// Calls `ring::aead`: `UnboundKey::new(&CHACHA20_POLY1305, key)`, then
/// `LessSafeKey::open_in_place` on a copy of `sealed`.
///
/// Trusted: the result is the named opening, and an opened plaintext is 16
/// bytes shorter than what was sealed.
#[verifier::external_body]
pub(crate) fn ring_open(key: &[u8; 32], nonce: &[u8; 12], aad: &[u8], sealed: &[u8]) -> (opened:
    Option<Vec<u8>>)
    ensures
        match opened {
            Some(plaintext) => chacha20poly1305_open(key@, nonce@, aad@, sealed@) == Some(
                plaintext@,
            ) && plaintext@.len() + TAG_LEN == sealed@.len(),
            None => chacha20poly1305_open(key@, nonce@, aad@, sealed@) is None,
        },
{
    let key = UnboundKey::new(&CHACHA20_POLY1305, key).ok()?;
    let mut in_out = sealed.to_vec();
    let plaintext = LessSafeKey::new(key)
        .open_in_place(Nonce::assume_unique_for_key(*nonce), Aad::from(aad), &mut in_out)
        .ok()?;
    Some(plaintext.to_vec())
}

/// Whether a plaintext of `len` bytes can be sealed, decided at run time.
pub fn check_sealable_len(len: usize) -> (ok: bool)
    ensures
        ok == sealable_len(len as nat),
{
    len as u64 <= MAX_PLAINTEXT_LEN && len <= isize::MAX as usize - ENVELOPE_OVERHEAD
}

/// Seals `plaintext` under `key` and `nonce` and returns the envelope
/// `nonce || ciphertext || tag`.
///
/// A plaintext too long for the cipher is refused with `MalformedInput`
/// before anything is computed. The envelope opens, under the same key and
/// associated data, to the plaintext.
pub fn seal_envelope(key: &[u8; 32], nonce: &[u8; 12], aad: &[u8], plaintext: &[u8]) -> (r: Result<
    Vec<u8>,
    CryptoError,
>)
    ensures
        sealable_len(plaintext@.len()) ==> r is Ok && r->Ok_0@ == sealed_envelope(
            key@,
            nonce@,
            aad@,
            plaintext@,
        ) && opened_envelope(key@, aad@, r->Ok_0@) == Ok::<Seq<u8>, CryptoError>(plaintext@)
            && r->Ok_0@.len() == plaintext@.len() + ENVELOPE_OVERHEAD,
        !sealable_len(plaintext@.len()) ==> r == Err::<Vec<u8>, CryptoError>(
            CryptoError::MalformedInput,
        ),
{
    if !check_sealable_len(plaintext.len()) {
        return Err(CryptoError::MalformedInput);
    }
    let sealed = ring_seal(key, nonce, aad, plaintext).unwrap();
    let mut envelope: Vec<u8> = Vec::with_capacity(NONCE_LEN + sealed.len());
    envelope.extend_from_slice(nonce.as_slice());
    envelope.extend_from_slice(sealed.as_slice());
    proof {
        assert(envelope_nonce(envelope@) =~= nonce@);
        assert(envelope_body(envelope@) =~= sealed@);
    }
    Ok(envelope)
}

/// Splits an envelope into its nonce and the ciphertext with its tag.
///
/// An envelope too short to hold a nonce and a tag is `MalformedInput`.
pub fn split_envelope(envelope: &[u8]) -> (r: Result<([u8; 12], &[u8]), CryptoError>)
    ensures
        envelope@.len() >= NONCE_LEN + TAG_LEN ==> r is Ok && r->Ok_0.0@ == envelope_nonce(
            envelope@,
        ) && r->Ok_0.1@ == envelope_body(envelope@),
        envelope@.len() < NONCE_LEN + TAG_LEN ==> r is Err && r->Err_0
            == CryptoError::MalformedInput,
{
    if envelope.len() < NONCE_LEN + TAG_LEN {
        return Err(CryptoError::MalformedInput);
    }
    let nonce: [u8; 12] = crate::bytes::to_array(slice_subrange(envelope, 0, NONCE_LEN));
    let body = slice_subrange(envelope, NONCE_LEN, envelope.len());
    Ok((nonce, body))
}

/// Opens an envelope `nonce || ciphertext || tag` under `key`.
///
/// Returns exactly what [`opened_envelope`] says: an envelope shorter than a
/// nonce and a tag is `MalformedInput` and is rejected before the cipher
/// runs; a tag that does not match is `AuthFailure`, with no plaintext.
pub fn open_envelope(key: &[u8; 32], aad: &[u8], envelope: &[u8]) -> (r: Result<Vec<u8>, CryptoError>)
    ensures
        result_view(r) == opened_envelope(key@, aad@, envelope@),
        r is Ok ==> r->Ok_0@.len() + ENVELOPE_OVERHEAD == envelope@.len(),
{
    let (nonce, body) = match split_envelope(envelope) {
        Ok(parts) => parts,
        Err(e) => {
            return Err(e);
        },
    };
    match ring_open(key, &nonce, aad, body) {
        Some(plaintext) => Ok(plaintext),
        None => Err(CryptoError::AuthFailure),
    }
}

} // verus!
