use enigma::crypto::encryption::EncryptionEngine;
use enigma::crypto::handshake::{
    generate_identity_bundle, identity_bundle_from, verify_signed_prekey, x3dh_initiate,
    x3dh_initiate_with, x3dh_respond, EphemeralKey, IdentityKey, SignedPreKey, X3DHBundle,
};
use enigma::crypto::ratchet::Ratchet;
use enigma::error::CryptoError;

fn decode_hex(text: &str) -> Vec<u8> {
    let digits: Vec<u8> = text
        .bytes()
        .map(|c| match c {
            b'0'..=b'9' => c - b'0',
            b'a'..=b'f' => c - b'a' + 10,
            _ => panic!("not a hex digit"),
        })
        .collect();
    digits.chunks(2).map(|pair| pair[0] * 16 + pair[1]).collect()
}

fn array32(bytes: &[u8]) -> [u8; 32] {
    let mut out = [0u8; 32];
    out.copy_from_slice(bytes);
    out
}

#[test]
fn test_end_to_end_encryption_between_two_clients() {
    // Step 1: Generate identity and bundle for Bob
    let (_bob_identity, _bob_spk, bob_bundle) =
        generate_identity_bundle().expect("Bob bundle gen failed");
    let alice_identity = IdentityKey::generate().expect("Alice identity gen failed");

    // Step 2: Alice verifies Bob's bundle and initiates X3DH
    verify_signed_prekey(&bob_bundle).expect("Invalid signature");
    let x3dh_result = x3dh_initiate(&alice_identity, &bob_bundle).expect("X3DH initiation failed");

    // Step 3: Alice sets up Ratchet + EncryptionEngine with derived key
    let _alice_ratchet = Ratchet::new(&x3dh_result.shared_secret).expect("ratchet");
    let mut alice_enc = EncryptionEngine::new(&x3dh_result.shared_secret).expect("engine");

    // Step 4: Bob reconstructs the shared secret (mocked same key here)
    let _bob_ratchet = Ratchet::new(&x3dh_result.shared_secret).expect("ratchet");
    let bob_enc = EncryptionEngine::new(&x3dh_result.shared_secret).expect("engine");

    // Step 5: Alice encrypts a message
    let msg = b"hello Bob!";
    let encrypted = alice_enc.encrypt(msg, b"context").expect("Alice encrypt");

    // Step 6: Bob decrypts it
    let decrypted = bob_enc.decrypt(&encrypted, b"context").expect("Bob decrypt");

    assert_eq!(decrypted, msg, "E2E encrypted-decrypted message should match");
}

#[test]
fn both_parties_derive_the_same_secret_and_exchange_a_message() {
    let (bob_identity, bob_spk, bob_bundle) =
        generate_identity_bundle().expect("Bob bundle gen failed");
    let alice_identity = IdentityKey::generate().expect("Alice identity gen failed");

    assert_eq!(verify_signed_prekey(&bob_bundle), Ok(()));
    let alice = x3dh_initiate(&alice_identity, &bob_bundle).expect("X3DH initiation failed");
    let shared_secret_b = x3dh_respond(
        &bob_identity,
        &bob_spk,
        &alice_identity.public_bytes(),
        &alice.ephemeral_public,
    )
    .expect("X3DH response failed");

    assert_eq!(alice.shared_secret, shared_secret_b);
    assert_ne!(alice.shared_secret, [0u8; 32]);

    let mut ratchet_a = Ratchet::new(&alice.shared_secret).expect("ratchet");
    let mut ratchet_b = Ratchet::new(&shared_secret_b).expect("ratchet");
    let envelope = ratchet_a.encrypt(b"hello").expect("encrypt failed");
    assert_eq!(ratchet_b.decrypt(&envelope).expect("decrypt failed"), b"hello");
}

#[test]
fn tampered_envelope_of_the_session_fails_authentication() {
    let (bob_identity, bob_spk, bob_bundle) =
        generate_identity_bundle().expect("Bob bundle gen failed");
    let alice_identity = IdentityKey::generate().expect("Alice identity gen failed");
    let alice = x3dh_initiate(&alice_identity, &bob_bundle).expect("X3DH initiation failed");
    let secret_b = x3dh_respond(
        &bob_identity,
        &bob_spk,
        &alice_identity.public_bytes(),
        &alice.ephemeral_public,
    )
    .expect("X3DH response failed");
    let mut ratchet_a = Ratchet::new(&alice.shared_secret).expect("ratchet");
    let mut ratchet_b = Ratchet::new(&secret_b).expect("ratchet");

    let envelope = ratchet_a.encrypt(b"hello").expect("encrypt failed");
    let mut tampered = envelope.clone();
    tampered[10] ^= 0xff;

    let before = ratchet_b.receiving_chain_key();
    assert_eq!(ratchet_b.decrypt(&tampered), Err(CryptoError::AuthFailure));
    assert_eq!(ratchet_b.receiving_chain_key(), before);
    // The untouched envelope still opens: the failure did not move the chain.
    assert_eq!(ratchet_b.decrypt(&envelope).expect("decrypt failed"), b"hello");
}

#[test]
fn handshake_is_deterministic_in_its_secrets() {
    let (bob_identity, bob_spk, bob_bundle) = identity_bundle_from([1u8; 32], [2u8; 32]);
    let alice_identity = IdentityKey::from_seed([3u8; 32]);

    let first = x3dh_initiate_with(&alice_identity, &bob_bundle, EphemeralKey::from_secret([4u8; 32]))
        .expect("X3DH initiation failed");
    let again = x3dh_initiate_with(&alice_identity, &bob_bundle, EphemeralKey::from_secret([4u8; 32]))
        .expect("X3DH initiation failed");
    let other = x3dh_initiate_with(&alice_identity, &bob_bundle, EphemeralKey::from_secret([5u8; 32]))
        .expect("X3DH initiation failed");

    assert_eq!(first.shared_secret, again.shared_secret);
    assert_eq!(first.ephemeral_public, again.ephemeral_public);
    assert_eq!(first.ephemeral_public, EphemeralKey::from_secret([4u8; 32]).public_bytes());
    assert_ne!(first.shared_secret, other.shared_secret);
    assert_ne!(first.ephemeral_public, other.ephemeral_public);

    let responder = x3dh_respond(
        &bob_identity,
        &bob_spk,
        &alice_identity.public_bytes(),
        &first.ephemeral_public,
    )
    .expect("X3DH response failed");
    assert_eq!(responder, first.shared_secret);

    // Another initiator identity gives another secret: the third agreement
    // binds it.
    let mallory = IdentityKey::from_seed([6u8; 32]);
    let forged = x3dh_initiate_with(&mallory, &bob_bundle, EphemeralKey::from_secret([4u8; 32]))
        .expect("X3DH initiation failed");
    assert_ne!(forged.shared_secret, first.shared_secret);
}

#[test]
fn shared_secret_is_the_expansion_of_the_three_agreements_in_order() {
    let (bob_identity, bob_spk, bob_bundle) = identity_bundle_from([1u8; 32], [2u8; 32]);
    let alice_identity = IdentityKey::from_seed([3u8; 32]);
    let ephemeral_secret = [4u8; 32];

    let result = x3dh_initiate_with(
        &alice_identity,
        &bob_bundle,
        EphemeralKey::from_secret(ephemeral_secret),
    )
    .expect("X3DH initiation failed");

    let bob_identity_secret =
        ed25519_dalek::SigningKey::from_bytes(&bob_identity.seed_bytes()).to_scalar_bytes();
    let alice_identity_public = ed25519_dalek::VerifyingKey::from_bytes(&alice_identity.public_bytes())
        .expect("valid key")
        .to_montgomery()
        .to_bytes();
    let dh1 = x25519_dalek::x25519(bob_spk.secret_bytes(), result.ephemeral_public);
    let dh2 = x25519_dalek::x25519(bob_identity_secret, result.ephemeral_public);
    let dh3 = x25519_dalek::x25519(bob_spk.secret_bytes(), alice_identity_public);
    let mut material = Vec::new();
    material.extend_from_slice(&dh1);
    material.extend_from_slice(&dh2);
    material.extend_from_slice(&dh3);
    let mut expected = [0u8; 32];
    hkdf::Hkdf::<sha2::Sha256>::new(None, &material)
        .expand(b"x3dh derived key", &mut expected)
        .expect("32 bytes are a valid length");

    assert_eq!(result.shared_secret, expected);
}

#[test]
fn bundle_with_another_prekey_is_rejected() {
    let (_identity, _spk, bundle) = generate_identity_bundle().expect("bundle gen failed");
    let (_other_identity, other_spk, other_bundle) =
        generate_identity_bundle().expect("bundle gen failed");
    let alice_identity = IdentityKey::generate().expect("identity gen failed");

    // The signature was computed over `bundle.spk_pub`, not over the prekey
    // that is now included.
    let swapped_prekey = X3DHBundle { spk_pub: other_spk.public_bytes(), ..bundle };
    assert_eq!(verify_signed_prekey(&swapped_prekey), Err(CryptoError::InvalidBundle));
    assert!(matches!(
        x3dh_initiate(&alice_identity, &swapped_prekey),
        Err(CryptoError::InvalidBundle)
    ));
    assert!(matches!(
        x3dh_initiate_with(&alice_identity, &swapped_prekey, EphemeralKey::from_secret([4u8; 32])),
        Err(CryptoError::InvalidBundle)
    ));

    let swapped_signature = X3DHBundle { spk_signature: other_bundle.spk_signature, ..bundle };
    assert_eq!(verify_signed_prekey(&swapped_signature), Err(CryptoError::InvalidBundle));

    let swapped_identity = X3DHBundle { identity_pub: other_bundle.identity_pub, ..bundle };
    assert_eq!(verify_signed_prekey(&swapped_identity), Err(CryptoError::InvalidBundle));

    let mut flipped = bundle;
    flipped.spk_signature[5] ^= 0x10;
    assert_eq!(verify_signed_prekey(&flipped), Err(CryptoError::InvalidBundle));

    assert_eq!(verify_signed_prekey(&bundle), Ok(()));
}

#[test]
fn low_order_peer_keys_fail_the_agreement() {
    let (bob_identity, bob_spk, _bundle) = identity_bundle_from([1u8; 32], [2u8; 32]);
    let alice_identity = IdentityKey::from_seed([3u8; 32]);

    assert_eq!(
        x3dh_respond(&bob_identity, &bob_spk, &alice_identity.public_bytes(), &[0u8; 32]),
        Err(CryptoError::DhAgreementFailure)
    );
    // An identity key that is no point of the curve.
    let mut no_point = [0xffu8; 32];
    no_point[0] = 0xfe;
    let ephemeral = EphemeralKey::from_secret([4u8; 32]).public_bytes();
    let outcome = x3dh_respond(&bob_identity, &bob_spk, &[2u8; 32], &ephemeral);
    assert!(outcome.is_ok() || outcome == Err(CryptoError::DhAgreementFailure));
    let outcome = x3dh_respond(&bob_identity, &bob_spk, &no_point, &ephemeral);
    assert!(outcome.is_ok() || outcome == Err(CryptoError::DhAgreementFailure));
}

#[test]
fn identity_key_matches_the_published_test_vector() {
    let seed = array32(&decode_hex(
        "9d61b19deffd5a60ba844af492ec2cc44449c5697b326919703bac031cae7f60",
    ));
    let identity = IdentityKey::from_seed(seed);

    assert_eq!(
        identity.public_bytes().to_vec(),
        decode_hex("d75a980182b10ab7d54bfed3c964073a0ee172f3daa62325af021a68f707511a")
    );
    assert_eq!(identity.seed_bytes(), seed);
    assert_eq!(
        identity.sign(b"").to_vec(),
        decode_hex(
            "e5564300c360ac729086e2cc806e828a84877f1eb8e5d974d873e065224901555fb8821590a33bacc61e39701cf9b46bd25bf5f0595bbe24655141438e7a100b"
        )
    );
}

#[test]
fn signed_prekey_carries_the_identity_signature() {
    let identity = IdentityKey::from_seed([8u8; 32]);
    let prekey = SignedPreKey::from_secret(&identity, [9u8; 32]);

    assert_eq!(prekey.secret_bytes(), [9u8; 32]);
    assert_eq!(prekey.public_bytes(), EphemeralKey::from_secret([9u8; 32]).public_bytes());
    assert_eq!(prekey.signature_bytes(), identity.sign(&prekey.public_bytes()));
    let bundle = X3DHBundle {
        identity_pub: identity.public_bytes(),
        spk_pub: prekey.public_bytes(),
        spk_signature: prekey.signature_bytes(),
    };
    assert_eq!(verify_signed_prekey(&bundle), Ok(()));
}

#[test]
fn generated_keys_differ() {
    let a = EphemeralKey::generate().expect("key gen failed");
    let b = EphemeralKey::generate().expect("key gen failed");
    assert_ne!(a.public_bytes(), b.public_bytes());
    let (id_a, spk_a, _) = generate_identity_bundle().expect("bundle gen failed");
    let (id_b, spk_b, _) = generate_identity_bundle().expect("bundle gen failed");
    assert_ne!(id_a.public_bytes(), id_b.public_bytes());
    assert_ne!(spk_a.public_bytes(), spk_b.public_bytes());
}

#[test]
fn bundle_wire_encoding_is_three_fields_in_order() {
    let (identity, prekey, bundle) = identity_bundle_from([1u8; 32], [2u8; 32]);

    let bytes = bundle.to_bytes();

    assert_eq!(bytes.len(), 128);
    assert_eq!(&bytes[..32], &identity.public_bytes()[..]);
    assert_eq!(&bytes[32..64], &prekey.public_bytes()[..]);
    assert_eq!(&bytes[64..], &prekey.signature_bytes()[..]);

    let decoded = X3DHBundle::from_bytes(&bytes).expect("decode failed");
    assert_eq!(decoded.identity_pub, bundle.identity_pub);
    assert_eq!(decoded.spk_pub, bundle.spk_pub);
    assert_eq!(decoded.spk_signature, bundle.spk_signature);
    assert_eq!(decoded.to_bytes(), bytes);
}

#[test]
fn bundles_of_the_wrong_length_are_malformed() {
    assert!(matches!(X3DHBundle::from_bytes(&[]), Err(CryptoError::MalformedInput)));
    assert!(matches!(X3DHBundle::from_bytes(&[0u8; 127]), Err(CryptoError::MalformedInput)));
    assert!(matches!(X3DHBundle::from_bytes(&[0u8; 129]), Err(CryptoError::MalformedInput)));
    let decoded = X3DHBundle::from_bytes(&[0u8; 128]).expect("decode failed");
    assert_eq!(verify_signed_prekey(&decoded), Err(CryptoError::InvalidBundle));
}
