use enigma::crypto::ratchet::Ratchet;
use enigma::crypto::window::{ReceiveWindow, MAX_SKIP};
use enigma::error::CryptoError;

fn pair(secret: &[u8]) -> (Ratchet, Ratchet, ReceiveWindow) {
    (
        Ratchet::new(secret).expect("ratchet failed"),
        Ratchet::new(secret).expect("ratchet failed"),
        ReceiveWindow::new(),
    )
}

fn numbered(sender: &mut Ratchet, count: usize) -> Vec<Vec<u8>> {
    (0..count)
        .map(|i| sender.encrypt(format!("message {}", i).as_bytes()).expect("encrypt failed"))
        .collect()
}

#[test]
fn window_size_is_fifty() {
    assert_eq!(MAX_SKIP, 50);
    let window = ReceiveWindow::new();
    assert_eq!(window.held_count(), 0);
    assert_eq!(window.next_position(), 0);
}

#[test]
fn in_order_delivery_holds_nothing_back() {
    let (mut sender, mut receiver, mut window) = pair(b"in order");
    let mut plain = Ratchet::new(b"in order").expect("ratchet failed");
    let envelopes = numbered(&mut sender, 3);

    for (i, envelope) in envelopes.iter().enumerate() {
        let opened = receiver.decrypt_in_window(&mut window, envelope).expect("decrypt failed");
        assert_eq!(opened, format!("message {}", i).as_bytes());
        assert_eq!(plain.decrypt(envelope).expect("decrypt failed"), opened);
        assert_eq!(window.held_count(), 0);
        assert_eq!(window.next_position(), i as u64 + 1);
        assert_eq!(receiver.receiving_chain_key(), plain.receiving_chain_key());
    }
    assert_eq!(receiver.receiving_chain_key(), sender.sending_chain_key());
}

#[test]
fn late_envelopes_within_the_window_still_open() {
    let (mut sender, mut receiver, mut window) = pair(b"reordered");
    let envelopes = numbered(&mut sender, 3);

    assert_eq!(
        receiver.decrypt_in_window(&mut window, &envelopes[2]).expect("decrypt failed"),
        b"message 2"
    );
    assert_eq!(window.held_count(), 2);
    assert_eq!(window.next_position(), 3);
    assert_eq!(receiver.receiving_chain_key(), sender.sending_chain_key());

    assert_eq!(
        receiver.decrypt_in_window(&mut window, &envelopes[0]).expect("decrypt failed"),
        b"message 0"
    );
    assert_eq!(window.held_count(), 1);
    assert_eq!(
        receiver.decrypt_in_window(&mut window, &envelopes[1]).expect("decrypt failed"),
        b"message 1"
    );
    assert_eq!(window.held_count(), 0);
    assert_eq!(window.next_position(), 3);
    assert_eq!(receiver.receiving_chain_key(), sender.sending_chain_key());
}

#[test]
fn duplicates_are_rejected() {
    let (mut sender, mut receiver, mut window) = pair(b"duplicates");
    let envelopes = numbered(&mut sender, 3);

    receiver.decrypt_in_window(&mut window, &envelopes[1]).expect("decrypt failed");
    assert_eq!(
        receiver.decrypt_in_window(&mut window, &envelopes[1]),
        Err(CryptoError::AuthFailure)
    );
    receiver.decrypt_in_window(&mut window, &envelopes[0]).expect("decrypt failed");
    let chain_before = receiver.receiving_chain_key();
    assert_eq!(
        receiver.decrypt_in_window(&mut window, &envelopes[0]),
        Err(CryptoError::AuthFailure)
    );
    assert_eq!(window.held_count(), 0);
    assert_eq!(window.next_position(), 2);
    assert_eq!(receiver.receiving_chain_key(), chain_before);
    receiver.decrypt_in_window(&mut window, &envelopes[2]).expect("decrypt failed");
}

#[test]
fn envelopes_beyond_the_window_are_rejected() {
    let (mut sender, mut receiver, mut window) = pair(b"beyond");
    let envelopes = numbered(&mut sender, MAX_SKIP + 2);
    let chain_before = receiver.receiving_chain_key();

    // Fifty-one positions ahead: one more than the window allows.
    assert_eq!(
        receiver.decrypt_in_window(&mut window, &envelopes[MAX_SKIP + 1]),
        Err(CryptoError::AuthFailure)
    );
    assert_eq!(window.held_count(), 0);
    assert_eq!(window.next_position(), 0);
    assert_eq!(receiver.receiving_chain_key(), chain_before);

    // Fifty positions ahead is within the window.
    assert_eq!(
        receiver.decrypt_in_window(&mut window, &envelopes[MAX_SKIP]).expect("decrypt failed"),
        format!("message {}", MAX_SKIP).as_bytes()
    );
    assert_eq!(window.held_count(), MAX_SKIP);
    assert_eq!(window.next_position(), MAX_SKIP as u64 + 1);
}

#[test]
fn oldest_keys_are_evicted_beyond_the_window() {
    let (mut sender, mut receiver, mut window) = pair(b"eviction");
    let envelopes = numbered(&mut sender, MAX_SKIP + 3);

    receiver.decrypt_in_window(&mut window, &envelopes[MAX_SKIP]).expect("decrypt failed");
    assert_eq!(window.held_count(), MAX_SKIP);
    // Skipping one more position evicts the key of position 0.
    receiver.decrypt_in_window(&mut window, &envelopes[MAX_SKIP + 2]).expect("decrypt failed");
    assert_eq!(window.held_count(), MAX_SKIP);
    assert_eq!(window.next_position(), MAX_SKIP as u64 + 3);

    assert_eq!(
        receiver.decrypt_in_window(&mut window, &envelopes[0]),
        Err(CryptoError::AuthFailure)
    );
    assert_eq!(
        receiver.decrypt_in_window(&mut window, &envelopes[1]).expect("decrypt failed"),
        b"message 1"
    );
    assert_eq!(
        receiver
            .decrypt_in_window(&mut window, &envelopes[MAX_SKIP + 1])
            .expect("decrypt failed"),
        format!("message {}", MAX_SKIP + 1).as_bytes()
    );
    assert_eq!(window.held_count(), MAX_SKIP - 2);
}

#[test]
fn malformed_and_tampered_envelopes_change_nothing() {
    let (mut sender, mut receiver, mut window) = pair(b"tampered");
    let envelopes = numbered(&mut sender, 2);
    receiver.decrypt_in_window(&mut window, &envelopes[1]).expect("decrypt failed");
    let chain_before = receiver.receiving_chain_key();

    assert_eq!(
        receiver.decrypt_in_window(&mut window, &envelopes[0][..27]),
        Err(CryptoError::MalformedInput)
    );
    let mut tampered = envelopes[0].clone();
    tampered[10] ^= 0xff;
    assert_eq!(receiver.decrypt_in_window(&mut window, &tampered), Err(CryptoError::AuthFailure));

    assert_eq!(window.held_count(), 1);
    assert_eq!(window.next_position(), 2);
    assert_eq!(receiver.receiving_chain_key(), chain_before);
    assert_eq!(
        receiver.decrypt_in_window(&mut window, &envelopes[0]).expect("decrypt failed"),
        b"message 0"
    );
}

#[test]
fn window_survives_storage() {
    let (mut sender, mut receiver, mut window) = pair(b"stored window");
    let envelopes = numbered(&mut sender, 3);
    receiver.decrypt_in_window(&mut window, &envelopes[2]).expect("decrypt failed");

    let held = window.held_keys().to_vec();
    assert_eq!(held.len(), 2);
    assert_eq!(held[0].position, 0);
    assert_eq!(held[1].position, 1);
    assert_ne!(held[0].key, held[1].key);

    let mut restored =
        ReceiveWindow::from_parts(window.next_position(), held).expect("restore failed");
    let mut ratchet = Ratchet::from_bytes(&receiver.to_bytes()).expect("restore failed");
    assert_eq!(restored.held_count(), 2);
    assert_eq!(restored.next_position(), 3);
    assert_eq!(
        ratchet.decrypt_in_window(&mut restored, &envelopes[1]).expect("decrypt failed"),
        b"message 1"
    );
    assert_eq!(
        ratchet.decrypt_in_window(&mut restored, &envelopes[0]).expect("decrypt failed"),
        b"message 0"
    );
}

#[test]
fn windows_over_the_bound_are_rejected() {
    let key = enigma::crypto::window::HeldKey { position: 0, key: [0u8; 32] };
    assert!(ReceiveWindow::from_parts(0, vec![key; MAX_SKIP]).is_ok());
    assert!(matches!(
        ReceiveWindow::from_parts(0, vec![key; MAX_SKIP + 1]),
        Err(CryptoError::MalformedInput)
    ));
}
