//! The one-shot encryption engine: a fixed key and a 96-bit nonce counter,
//! for payloads that belong to no chain.
//!
//! Every envelope carries its nonce, so the receiving side needs the key and
//! the associated data only.

use crate::bytes::to_array;
use crate::crypto::aead::{
    check_sealable_len, lemma_distinct_nonces_distinct_envelopes, open_envelope,
    opened_envelope, result_view, seal_envelope, sealable_len, sealed_envelope,
    ENVELOPE_OVERHEAD, NONCE_LEN,
};
use crate::crypto::rng::system_random;
use crate::error::CryptoError;
use vstd::prelude::*;

verus! {

/// Length in bytes of the engine's symmetric key.
pub const SYMMETRIC_KEY_LEN: usize = 32;

/// The number that a byte string denotes, most significant byte first.
pub open spec fn be_value(bytes: Seq<u8>) -> nat
    decreases bytes.len(),
{
    if bytes.len() == 0 {
        0
    } else {
        be_value(bytes.drop_last()) * 256 + bytes.last() as nat
    }
}

/// How many numbers `len` bytes can denote: 256 to the power `len`.
pub open spec fn span(len: nat) -> nat
    decreases len,
{
    if len == 0 {
        1
    } else {
        256 * span((len - 1) as nat)
    }
}

/// The byte string that follows `bytes` when it is counted up by one, most
/// significant byte first; the string of all `0xff` is followed by all zeros.
pub open spec fn successor(bytes: Seq<u8>) -> Seq<u8>
    decreases bytes.len(),
{
    if bytes.len() == 0 {
        bytes
    } else if bytes.last() == 255u8 {
        successor(bytes.drop_last()).push(0u8)
    } else {
        bytes.drop_last().push((bytes.last() + 1) as u8)
    }
}

/// Counting up keeps the length.
pub proof fn lemma_successor_len(bytes: Seq<u8>)
    ensures
        successor(bytes).len() == bytes.len(),
    decreases bytes.len(),
{
    if bytes.len() > 0 && bytes.last() == 255u8 {
        lemma_successor_len(bytes.drop_last());
    }
}

/// A byte string denotes a number below the span of its length.
pub proof fn lemma_be_value_bound(bytes: Seq<u8>)
    ensures
        be_value(bytes) < span(bytes.len()),
    decreases bytes.len(),
{
    if bytes.len() > 0 {
        lemma_be_value_bound(bytes.drop_last());
        assert(span(bytes.len()) == 256 * span((bytes.len() - 1) as nat));
        assert(be_value(bytes.drop_last()) + 1 <= span((bytes.len() - 1) as nat));
        assert(be_value(bytes) < 256 * span((bytes.len() - 1) as nat)) by (nonlinear_arith)
            requires
                be_value(bytes) == be_value(bytes.drop_last()) * 256 + bytes.last() as nat,
                bytes.last() as nat <= 255,
                be_value(bytes.drop_last()) + 1 <= span((bytes.len() - 1) as nat),
        ;
    }
}

/// Counting up adds one to the number denoted, and wraps to zero from the
/// largest number of that length.
pub proof fn lemma_successor_value(bytes: Seq<u8>)
    ensures
        be_value(successor(bytes)) == if be_value(bytes) + 1 == span(bytes.len()) {
            0
        } else {
            be_value(bytes) + 1
        },
    decreases bytes.len(),
{
    lemma_be_value_bound(bytes);
    if bytes.len() == 0 {
    } else if bytes.last() == 255u8 {
        let head = bytes.drop_last();
        lemma_successor_value(head);
        lemma_successor_len(head);
        lemma_be_value_bound(head);
        let next = successor(head).push(0u8);
        assert(next.drop_last() =~= successor(head));
        assert(next.last() == 0u8);
        assert(be_value(next) == be_value(successor(head)) * 256);
        assert(span(bytes.len()) == 256 * span(head.len()));
        assert(be_value(bytes) == be_value(head) * 256 + 255);
        if be_value(head) + 1 == span(head.len()) {
            assert(be_value(bytes) + 1 == span(bytes.len())) by (nonlinear_arith)
                requires
                    be_value(bytes) == be_value(head) * 256 + 255,
                    be_value(head) + 1 == span(head.len()),
                    span(bytes.len()) == 256 * span(head.len()),
            ;
        } else {
            assert(be_value(next) == be_value(bytes) + 1 && be_value(bytes) + 1 < span(
                bytes.len(),
            )) by (nonlinear_arith)
                requires
                    be_value(next) == (be_value(head) + 1) * 256,
                    be_value(bytes) == be_value(head) * 256 + 255,
                    be_value(head) + 1 < span(head.len()),
                    span(bytes.len()) == 256 * span(head.len()),
            ;
        }
    } else {
        let head = bytes.drop_last();
        let next = head.push((bytes.last() + 1) as u8);
        lemma_be_value_bound(head);
        assert(next.drop_last() =~= head);
        assert(next.last() == bytes.last() + 1);
        assert(span(bytes.len()) == 256 * span(head.len()));
        assert(be_value(bytes) + 1 < span(bytes.len())) by (nonlinear_arith)
            requires
                be_value(bytes) == be_value(head) * 256 + bytes.last() as nat,
                bytes.last() as nat <= 254,
                be_value(head) + 1 <= span(head.len()),
                span(bytes.len()) == 256 * span(head.len()),
        ;
    }
}

/// Counting up changes a byte string that is not empty.
pub proof fn lemma_successor_differs(bytes: Seq<u8>)
    requires
        bytes.len() > 0,
    ensures
        successor(bytes) != bytes,
{
    if bytes.last() == 255u8 {
        assert(successor(bytes).last() == 0u8);
    } else {
        assert(successor(bytes).last() == bytes.last() + 1);
    }
}

/// The byte string `steps` counting steps after `bytes`.
pub open spec fn successor_n(bytes: Seq<u8>, steps: nat) -> Seq<u8>
    decreases steps,
{
    if steps == 0 {
        bytes
    } else {
        successor(successor_n(bytes, (steps - 1) as nat))
    }
}

/// Every length has a positive span.
pub proof fn lemma_span_positive(len: nat)
    ensures
        span(len) > 0,
    decreases len,
{
    if len > 0 {
        lemma_span_positive((len - 1) as nat);
    }
}

/// Counting up `steps` times adds `steps` to the number denoted, modulo the
/// span of the length.
pub proof fn lemma_successor_n_value(bytes: Seq<u8>, steps: nat)
    ensures
        successor_n(bytes, steps).len() == bytes.len(),
        be_value(successor_n(bytes, steps)) as int == (be_value(bytes) + steps) as int % (span(
            bytes.len(),
        ) as int),
    decreases steps,
{
    let modulus = span(bytes.len()) as int;
    lemma_span_positive(bytes.len());
    lemma_be_value_bound(bytes);
    if steps == 0 {
        vstd::arithmetic::div_mod::lemma_small_mod(be_value(bytes), span(bytes.len()));
    } else {
        let previous = successor_n(bytes, (steps - 1) as nat);
        lemma_successor_n_value(bytes, (steps - 1) as nat);
        lemma_successor_len(previous);
        lemma_successor_value(previous);
        lemma_be_value_bound(previous);
        let v = be_value(previous) as int;
        let sum = (be_value(bytes) + steps - 1) as int;
        assert(v == sum % modulus);
        vstd::arithmetic::div_mod::lemma_add_mod_noop(sum, 1, modulus);
        if modulus == 1 {
            assert(1int % 1 == 0);
        } else {
            vstd::arithmetic::div_mod::lemma_small_mod(1, modulus as nat);
        }
        if v + 1 == modulus {
            vstd::arithmetic::div_mod::lemma_mod_self_0(modulus);
        } else {
            vstd::arithmetic::div_mod::lemma_small_mod((v + 1) as nat, modulus as nat);
        }
    }
}

/// A counter does not hand out the same nonce twice before it has counted
/// through every value of its length: the values at two different steps
/// less than a whole span apart differ.
pub proof fn lemma_nonces_do_not_repeat(bytes: Seq<u8>, earlier: nat, later: nat)
    requires
        earlier < later,
        later - earlier < span(bytes.len()),
    ensures
        successor_n(bytes, earlier) != successor_n(bytes, later),
{
    let modulus = span(bytes.len()) as int;
    lemma_successor_n_value(bytes, earlier);
    lemma_successor_n_value(bytes, later);
    let a = (be_value(bytes) + earlier) as int;
    let b = (be_value(bytes) + later) as int;
    if a % modulus == b % modulus {
        vstd::arithmetic::div_mod::lemma_mod_equivalence(b, a, modulus);
        vstd::arithmetic::div_mod::lemma_small_mod((b - a) as nat, modulus as nat);
        assert(false);
    }
}

/// A 96-bit counter, most significant byte first, that hands out one nonce
/// per call.
pub struct NonceCounter {
    counter: [u8; 12],
}

impl View for NonceCounter {
    type V = Seq<u8>;

    closed spec fn view(&self) -> Seq<u8> {
        self.counter@
    }
}

impl NonceCounter {
    /// A counter that starts at `seed`.
    pub fn from_seed(seed: [u8; 12]) -> (counter: NonceCounter)
        ensures
            counter@ == seed@,
    {
        NonceCounter { counter: seed }
    }

    /// A counter that starts at a random value, or `RandomFailure`.
    pub fn new() -> (r: Result<NonceCounter, CryptoError>)
        ensures
            r is Err ==> r->Err_0 == CryptoError::RandomFailure,
            r is Ok ==> r->Ok_0@.len() == NONCE_LEN,
    {
        match system_random::<12>() {
            Some(seed) => Ok(NonceCounter::from_seed(seed)),
            None => Err(CryptoError::RandomFailure),
        }
    }

    /// The value the counter stands at.
    pub fn current(&self) -> (nonce: [u8; 12])
        ensures
            nonce@ == self@,
    {
        self.counter
    }

    /// Hands out the value the counter stands at and counts up by one.
    pub fn next(&mut self) -> (nonce: [u8; 12])
        ensures
            nonce@ == old(self)@,
            final(self)@ == successor(old(self)@),
    {
        let nonce = self.counter;
        let mut i: usize = 12;
        let mut carry = true;
        proof {
            assert(nonce@.subrange(0, 12) =~= nonce@);
            assert(self.counter@.subrange(12, 12) =~= Seq::<u8>::empty());
            assert(successor(nonce@) + Seq::<u8>::empty() =~= successor(nonce@));
        }
        while i > 0 && carry
            invariant
                i <= 12,
                nonce@.len() == 12,
                self.counter@.len() == 12,
                carry ==> self.counter@.subrange(0, i as int) == nonce@.subrange(0, i as int),
                carry ==> successor(nonce@) == successor(nonce@.subrange(0, i as int))
                    + self.counter@.subrange(i as int, 12),
                !carry ==> self.counter@ == successor(nonce@),
            decreases i,
        {
            i -= 1;
            let ghost before = self.counter@;
            let ghost prefix = nonce@.subrange(0, i + 1);
            proof {
                assert(prefix.drop_last() =~= nonce@.subrange(0, i as int));
                assert(prefix.last() == nonce@[i as int]);
                assert(before[i as int] == before.subrange(0, i + 1)[i as int]);
                assert(before[i as int] == nonce@[i as int]);
            }
            if self.counter[i] == 255 {
                self.counter[i] = 0;
                proof {
                    assert(successor(prefix) == successor(prefix.drop_last()).push(0u8));
                    assert(self.counter@.subrange(i as int, 12) =~= seq![0u8] + before.subrange(
                        i + 1,
                        12,
                    ));
                    assert(successor(nonce@) =~= successor(nonce@.subrange(0, i as int))
                        + self.counter@.subrange(i as int, 12));
                    assert(self.counter@.subrange(0, i as int) =~= nonce@.subrange(0, i as int));
                }
            } else {
                self.counter[i] = self.counter[i] + 1;
                carry = false;
                proof {
                    assert(successor(prefix) == prefix.drop_last().push(
                        (prefix.last() + 1) as u8,
                    ));
                    assert(self.counter@ =~= successor(prefix) + before.subrange(i + 1, 12));
                }
            }
        }
        proof {
            if carry {
                assert(nonce@.subrange(0, 0) =~= Seq::<u8>::empty());
                assert(successor(Seq::<u8>::empty()) =~= Seq::<u8>::empty());
                assert(self.counter@.subrange(0, 12) =~= self.counter@);
                assert(successor(nonce@) =~= self.counter@);
            }
        }
        nonce
    }
}

/// The mathematical state of an encryption engine.
pub struct EngineState {
    /// The symmetric key, 32 bytes.
    pub key: Seq<u8>,
    /// The nonce that the next envelope is sealed under, 12 bytes.
    pub next_nonce: Seq<u8>,
}

impl EngineState {
    /// The envelope that the engine emits for `plaintext` and
    /// `associated_data` in this state.
    pub open spec fn encrypted(self, plaintext: Seq<u8>, associated_data: Seq<u8>) -> Seq<u8> {
        sealed_envelope(self.key, self.next_nonce, associated_data, plaintext)
    }

    /// The state after one envelope was emitted.
    pub open spec fn after_encrypt(self) -> EngineState {
        EngineState { next_nonce: successor(self.next_nonce), ..self }
    }

    /// The state after `count` envelopes were emitted.
    pub open spec fn after_encrypts(self, count: nat) -> EngineState {
        EngineState { next_nonce: successor_n(self.next_nonce, count), ..self }
    }

    /// What the engine makes of `envelope` under `associated_data`.
    pub open spec fn decrypted(self, envelope: Seq<u8>, associated_data: Seq<u8>) -> Result<
        Seq<u8>,
        CryptoError,
    > {
        opened_envelope(self.key, associated_data, envelope)
    }
}

/// Authenticated encryption under one fixed key, with a nonce counter that
/// never hands out the same value twice in a row.
pub struct EncryptionEngine {
    key: [u8; 32],
    nonce_seq: NonceCounter,
}

impl View for EncryptionEngine {
    type V = EngineState;

    closed spec fn view(&self) -> EngineState {
        EngineState { key: self.key@, next_nonce: self.nonce_seq@ }
    }
}

impl EncryptionEngine {
    /// An engine for `key_bytes` whose nonce counter starts at `seed`.
    ///
    /// A key that is not 32 bytes long is `MalformedInput`.
    pub fn with_nonce_seed(key_bytes: &[u8], seed: [u8; 12]) -> (r: Result<
        EncryptionEngine,
        CryptoError,
    >)
        ensures
            key_bytes@.len() == SYMMETRIC_KEY_LEN ==> r is Ok && r->Ok_0@ == (EngineState {
                key: key_bytes@,
                next_nonce: seed@,
            }),
            key_bytes@.len() != SYMMETRIC_KEY_LEN ==> r is Err && r->Err_0
                == CryptoError::MalformedInput,
    {
        if key_bytes.len() != SYMMETRIC_KEY_LEN {
            return Err(CryptoError::MalformedInput);
        }
        let key: [u8; 32] = to_array(key_bytes);
        Ok(EncryptionEngine { key, nonce_seq: NonceCounter::from_seed(seed) })
    }

    /// An engine for `key_bytes` whose nonce counter starts at a random
    /// value.
    ///
    /// A key that is not 32 bytes long is `MalformedInput`; the only other
    /// failure is that of the random source.
    pub fn new(key_bytes: &[u8]) -> (r: Result<EncryptionEngine, CryptoError>)
        ensures
            match r {
                Ok(engine) => key_bytes@.len() == SYMMETRIC_KEY_LEN && engine@.key == key_bytes@
                    && engine@.next_nonce.len() == NONCE_LEN,
                Err(e) => if key_bytes@.len() == SYMMETRIC_KEY_LEN {
                    e == CryptoError::RandomFailure
                } else {
                    e == CryptoError::MalformedInput
                },
            },
    {
        if key_bytes.len() != SYMMETRIC_KEY_LEN {
            return Err(CryptoError::MalformedInput);
        }
        let key: [u8; 32] = to_array(key_bytes);
        match NonceCounter::new() {
            Ok(nonce_seq) => Ok(EncryptionEngine { key, nonce_seq }),
            Err(e) => Err(e),
        }
    }

    /// The nonce that the next envelope will be sealed under. A caller that
    /// keeps the key across restarts has to keep this value with it.
    pub fn next_nonce(&self) -> (nonce: [u8; 12])
        ensures
            nonce@ == self@.next_nonce,
    {
        self.nonce_seq.current()
    }

    /// Seals `plaintext` under the next counter value and returns the
    /// envelope `nonce || ciphertext || tag`.
    ///
    /// A plaintext too long to be sealed is `MalformedInput`, and neither
    /// the counter nor anything else changes. Otherwise the counter moves up
    /// by one, and the envelope opens to `plaintext` under the same key and
    /// associated data.
    pub fn encrypt(&mut self, plaintext: &[u8], associated_data: &[u8]) -> (r: Result<
        Vec<u8>,
        CryptoError,
    >)
        ensures
            sealable_len(plaintext@.len()) ==> r is Ok && r->Ok_0@ == old(self)@.encrypted(
                plaintext@,
                associated_data@,
            ) && old(self)@.decrypted(r->Ok_0@, associated_data@) == Ok::<Seq<u8>, CryptoError>(
                plaintext@,
            ) && r->Ok_0@.len() == plaintext@.len() + ENVELOPE_OVERHEAD && final(self)@ == old(
                self,
            )@.after_encrypt(),
            !sealable_len(plaintext@.len()) ==> r is Err && r->Err_0 == CryptoError::MalformedInput
                && final(self)@ == old(self)@,
    {
        if !check_sealable_len(plaintext.len()) {
            return Err(CryptoError::MalformedInput);
        }
        let nonce = self.nonce_seq.next();
        seal_envelope(&self.key, &nonce, associated_data, plaintext)
    }

    /// Opens an envelope and checks it against `associated_data`.
    ///
    /// An envelope shorter than a nonce and a tag is `MalformedInput`; a tag
    /// that does not match is `AuthFailure`; no plaintext is returned with
    /// either.
    pub fn decrypt(&self, envelope: &[u8], associated_data: &[u8]) -> (r: Result<
        Vec<u8>,
        CryptoError,
    >)
        ensures
            result_view(r) == self@.decrypted(envelope@, associated_data@),
            r is Ok ==> r->Ok_0@.len() + ENVELOPE_OVERHEAD == envelope@.len(),
    {
        open_envelope(&self.key, associated_data, envelope)
    }
}

/// Two successive envelopes of one engine differ, whatever their plaintexts
/// and associated data: the counter has moved between them.
pub proof fn lemma_engine_envelopes_differ(
    state: EngineState,
    plaintext1: Seq<u8>,
    associated_data1: Seq<u8>,
    plaintext2: Seq<u8>,
    associated_data2: Seq<u8>,
)
    requires
        state.next_nonce.len() == NONCE_LEN,
    ensures
        state.encrypted(plaintext1, associated_data1) != state.after_encrypt().encrypted(
            plaintext2,
            associated_data2,
        ),
{
    lemma_successor_differs(state.next_nonce);
    lemma_successor_len(state.next_nonce);
    lemma_distinct_nonces_distinct_envelopes(
        state.key,
        state.next_nonce,
        associated_data1,
        plaintext1,
        state.key,
        successor(state.next_nonce),
        associated_data2,
        plaintext2,
    );
}

/// No two envelopes of one engine are the same until the counter has gone
/// through all of its values: the envelopes after `earlier` and after
/// `later` encryptions differ, whatever their plaintexts and associated
/// data.
pub proof fn lemma_engine_envelopes_never_repeat(
    state: EngineState,
    earlier: nat,
    later: nat,
    plaintext1: Seq<u8>,
    associated_data1: Seq<u8>,
    plaintext2: Seq<u8>,
    associated_data2: Seq<u8>,
)
    requires
        state.next_nonce.len() == NONCE_LEN,
        earlier < later,
        later - earlier < span(NONCE_LEN as nat),
    ensures
        state.after_encrypts(earlier).encrypted(plaintext1, associated_data1)
            != state.after_encrypts(later).encrypted(plaintext2, associated_data2),
        state.after_encrypts(0) == state,
        state.after_encrypts(1) == state.after_encrypt(),
{
    lemma_nonces_do_not_repeat(state.next_nonce, earlier, later);
    lemma_successor_n_value(state.next_nonce, earlier);
    lemma_successor_n_value(state.next_nonce, later);
    lemma_distinct_nonces_distinct_envelopes(
        state.key,
        successor_n(state.next_nonce, earlier),
        associated_data1,
        plaintext1,
        state.key,
        successor_n(state.next_nonce, later),
        associated_data2,
        plaintext2,
    );
    assert(successor_n(state.next_nonce, 1) == successor(successor_n(state.next_nonce, 0)));
}

/// An envelope that opens to `plaintext` under the sender's key, which is
/// what `encrypt` promises of its result, decrypts to `plaintext` on every
/// engine that holds the same key, wherever its own counter stands.
pub proof fn lemma_engine_decrypt_inverts_encrypt(
    sender: EngineState,
    receiver: EngineState,
    plaintext: Seq<u8>,
    associated_data: Seq<u8>,
    envelope: Seq<u8>,
)
    requires
        receiver.key == sender.key,
        sender.decrypted(envelope, associated_data) == Ok::<Seq<u8>, CryptoError>(plaintext),
    ensures
        receiver.decrypted(envelope, associated_data) == Ok::<Seq<u8>, CryptoError>(plaintext),
{
}

} // verus!
