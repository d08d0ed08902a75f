use enigma::crypto::aead::{open_envelope, seal_envelope};
use enigma::crypto::encryption::{EncryptionEngine, NonceCounter};
use enigma::error::CryptoError;

fn unhex(text: &str) -> Vec<u8> {
    let digits: Vec<u8> = text
        .bytes()
        .map(|c| match c {
            b'0'..=b'9' => c - b'0',
            b'a'..=b'f' => c - b'a' + 10,
            _ => panic!("not a hex digit"),
        })
        .collect();
    digits.chunks(2).map(|pair| pair[0] * 16 + pair[1]).collect()
}

#[test]
fn seal_matches_the_published_test_vector() {
    let mut key = [0u8; 32];
    key.copy_from_slice(&unhex(
        "808182838485868788898a8b8c8d8e8f909192939495969798999a9b9c9d9e9f",
    ));
    let mut nonce = [0u8; 12];
    nonce.copy_from_slice(&unhex("070000004041424344454647"));
    let aad = unhex("50515253c0c1c2c3c4c5c6c7");
    let plaintext = b"Ladies and Gentlemen of the class of '99: If I could offer you only one tip for the future, sunscreen would be it.";

    let envelope = seal_envelope(&key, &nonce, &aad, plaintext).expect("seal failed");

    assert_eq!(envelope.len(), 12 + 114 + 16);
    assert_eq!(&envelope[..12], &nonce[..]);
    assert_eq!(&envelope[12..28], &unhex("d31a8d34648e60db7b86afbc53ef7ec2")[..]);
    assert_eq!(&envelope[126..], &unhex("1ae10b594f09e26a7e902ecbd0600691")[..]);
    assert_eq!(open_envelope(&key, &aad, &envelope).expect("open failed"), plaintext);
}

#[test]
fn open_rejects_what_was_not_sealed() {
    let key = [5u8; 32];
    let envelope = seal_envelope(&key, &[1u8; 12], b"aad", b"payload").expect("seal failed");

    assert_eq!(open_envelope(&key, b"aad", &envelope).expect("open failed"), b"payload");
    assert_eq!(open_envelope(&key, b"other", &envelope), Err(CryptoError::AuthFailure));
    assert_eq!(open_envelope(&[6u8; 32], b"aad", &envelope), Err(CryptoError::AuthFailure));
    assert_eq!(open_envelope(&key, b"aad", &envelope[..27]), Err(CryptoError::MalformedInput));
    assert_eq!(open_envelope(&key, b"aad", &envelope[1..]), Err(CryptoError::AuthFailure));
}

#[test]
fn empty_plaintext_seals_to_nonce_and_tag() {
    let key = [5u8; 32];
    let envelope = seal_envelope(&key, &[1u8; 12], b"", b"").expect("seal failed");
    assert_eq!(envelope.len(), 28);
    assert_eq!(open_envelope(&key, b"", &envelope).expect("open failed"), b"");
}

#[test]
fn nonce_counter_counts_up_most_significant_byte_first() {
    let mut counter = NonceCounter::from_seed([0u8; 12]);
    assert_eq!(counter.next(), [0u8; 12]);
    assert_eq!(counter.next(), [0, 0, 0, 0, 0, 0, 0, 0, 0, 0, 0, 1]);
    assert_eq!(counter.current(), [0, 0, 0, 0, 0, 0, 0, 0, 0, 0, 0, 2]);

    let mut carry = NonceCounter::from_seed([0, 0, 0, 0, 0, 0, 0, 0, 0, 1, 0xff, 0xff]);
    assert_eq!(counter_after(&mut carry), [0, 0, 0, 0, 0, 0, 0, 0, 0, 2, 0, 0]);

    let mut low = NonceCounter::from_seed([7, 0, 0, 0, 0, 0, 0, 0, 0, 0, 0, 0xfe]);
    assert_eq!(counter_after(&mut low), [7, 0, 0, 0, 0, 0, 0, 0, 0, 0, 0, 0xff]);
    assert_eq!(counter_after(&mut low), [7, 0, 0, 0, 0, 0, 0, 0, 0, 0, 1, 0]);
}

fn counter_after(counter: &mut NonceCounter) -> [u8; 12] {
    counter.next();
    counter.current()
}

#[test]
fn nonce_counter_wraps_from_the_largest_value_to_zero() {
    let mut counter = NonceCounter::from_seed([0xff; 12]);
    assert_eq!(counter.next(), [0xff; 12]);
    assert_eq!(counter.current(), [0u8; 12]);
}

#[test]
fn random_nonce_counters_start_apart() {
    let a = NonceCounter::new().expect("random source failed");
    let b = NonceCounter::new().expect("random source failed");
    assert_ne!(a.current(), b.current());
}

#[test]
fn engine_embeds_the_counter_value_in_each_envelope() {
    let key = [0x11u8; 32];
    let seed = [0, 0, 0, 0, 0, 0, 0, 0, 0, 0, 0, 0xff];
    let mut engine = EncryptionEngine::with_nonce_seed(&key, seed).expect("engine");
    assert_eq!(engine.next_nonce(), seed);

    let first = engine.encrypt(b"hello world!", b"test").expect("Encryption failed");
    let second = engine.encrypt(b"hello world!", b"test").expect("Encryption failed");

    assert_eq!(first.len(), 12 + 12 + 16);
    assert_eq!(&first[..12], &seed[..]);
    assert_eq!(&second[..12], &[0, 0, 0, 0, 0, 0, 0, 0, 0, 0, 1, 0][..]);
    assert_ne!(first, second);
    assert_eq!(engine.next_nonce(), [0, 0, 0, 0, 0, 0, 0, 0, 0, 0, 1, 1]);
    assert_eq!(first, seal_envelope(&key, &seed, b"test", b"hello world!").expect("seal failed"));
}

#[test]
fn engine_round_trip_between_two_instances() {
    let key = [0x22u8; 32];
    let mut alice = EncryptionEngine::new(&key).expect("engine");
    let bob = EncryptionEngine::new(&key).expect("engine");

    let encrypted = alice.encrypt(b"hello Bob!", b"context").expect("Alice encrypt");
    let decrypted = bob.decrypt(&encrypted, b"context").expect("Bob decrypt");

    assert_eq!(decrypted, b"hello Bob!", "E2E encrypted-decrypted message should match");
    assert_eq!(bob.decrypt(&encrypted, b"other context"), Err(CryptoError::AuthFailure));
}

#[test]
fn engine_rejects_keys_of_the_wrong_length() {
    assert!(matches!(EncryptionEngine::new(&[0u8; 31]), Err(CryptoError::MalformedInput)));
    assert!(matches!(EncryptionEngine::new(&[0u8; 33]), Err(CryptoError::MalformedInput)));
    assert!(matches!(
        EncryptionEngine::with_nonce_seed(&[], [0u8; 12]),
        Err(CryptoError::MalformedInput)
    ));
}

#[test]
fn engine_rejects_short_and_tampered_envelopes() {
    let mut engine = EncryptionEngine::with_nonce_seed(&[1u8; 32], [2u8; 12]).expect("engine");
    let mut envelope = engine.encrypt(b"Secret!", b"message").expect("Encryption failed");
    assert_eq!(engine.decrypt(&envelope[..20], b"message"), Err(CryptoError::MalformedInput));
    envelope[10] ^= 0xff;
    assert_eq!(engine.decrypt(&envelope, b"message"), Err(CryptoError::AuthFailure));
}
