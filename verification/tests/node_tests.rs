use enigma::crypto::aead::{seal_envelope, split_envelope};
use enigma::error::CryptoError;
use enigma::network::discovery::{contains, insert_unique, join_endpoint, record_answer};
use enigma::nodes::consensus::{next_probe, Probe};
use enigma::nodes::server::{AppState, Directory, PeerPresence, PublicIdentity, PRESENCE_TTL_SECS};

fn identity(username: &str, key: &str) -> PublicIdentity {
    PublicIdentity {
        username: username.to_string(),
        public_key: key.to_string(),
        signature: "sig".to_string(),
        timestamp: 123456789,
    }
}

fn peer(ip: &str, port: u16, timestamp: u64) -> PeerPresence {
    PeerPresence { ip: ip.to_string(), port, timestamp }
}

#[test]
fn register_then_resolve() {
    let mut state = AppState::new(vec![]);
    assert!(state.register(identity("john_doe", "pubkey123")));

    let found = state.resolve(&"john_doe".to_string()).expect("registered");
    assert_eq!(found.username, "john_doe");
    assert_eq!(found.public_key, "pubkey123");
    assert_eq!(found.signature, "sig");
    assert!(state.resolve(&"unknown_user".to_string()).is_none());
    assert!(state.check_user(&"john_doe".to_string()));
    assert!(!state.check_user(&"unknown".to_string()));
    assert_eq!(state.known_users.len(), 1);
}

#[test]
fn registering_a_taken_name_is_a_conflict() {
    let mut state = AppState::new(vec![]);
    assert!(state.register(identity("testuser", "key")));
    assert!(!state.register(identity("testuser", "other key")));
    assert_eq!(state.resolve(&"testuser".to_string()).expect("registered").public_key, "key");
    assert_eq!(state.known_users.len(), 1);
    assert!(state.register(identity("testuser2", "other key")));
    assert_eq!(state.known_users.len(), 2);
}

#[test]
fn sync_keeps_known_identities_and_adds_new_ones() {
    let mut state = AppState::new(vec![]);
    state.register(identity("known", "mine"));

    state.sync(&[
        ("known".to_string(), identity("known", "theirs")),
        ("sync_user".to_string(), identity("sync_user", "abc123")),
        ("sync_user".to_string(), identity("sync_user", "later")),
        ("alias".to_string(), identity("somebody", "xyz")),
    ]);

    assert_eq!(state.resolve(&"known".to_string()).expect("known").public_key, "mine");
    assert_eq!(state.resolve(&"sync_user".to_string()).expect("synced").public_key, "abc123");
    assert_eq!(state.resolve(&"alias".to_string()).expect("synced").username, "somebody");
    assert!(!state.check_user(&"somebody".to_string()));
    assert_eq!(state.known_users.len(), 3);
    state.sync(&[]);
    assert_eq!(state.known_users.len(), 3);
}

#[test]
fn announce_replaces_the_presence_of_an_address() {
    let mut state = AppState::new(vec![]);
    state.announce(peer("1.2.3.4", 1234, 10));
    state.announce(peer("5.6.7.8", 1, 11));
    state.announce(peer("1.2.3.4", 4321, 12));

    assert_eq!(state.active_peers.len(), 2);
    let found = state.active_peers.get(&"1.2.3.4".to_string()).expect("announced");
    assert_eq!(found.port, 4321);
    assert_eq!(found.timestamp, 12);
    assert!(state.active_peers.contains_key(&"5.6.7.8".to_string()));
    assert!(!state.active_peers.contains_key(&"9.9.9.9".to_string()));
}

#[test]
fn peers_expire_after_the_time_to_live() {
    assert_eq!(PRESENCE_TTL_SECS, 300);
    let mut state = AppState::new(vec![]);
    state.announce(peer("old", 1, 700));
    state.announce(peer("edge", 2, 701));
    state.announce(peer("fresh", 3, 999));
    state.announce(peer("future", 4, 2000));
    state.register(identity("user", "key"));

    state.expire_peers(1000);

    // 1000 - 700 = 300 is not less than the time to live; 1000 - 701 is.
    assert!(!state.active_peers.contains_key(&"old".to_string()));
    assert!(state.active_peers.contains_key(&"edge".to_string()));
    assert!(state.active_peers.contains_key(&"fresh".to_string()));
    assert!(state.active_peers.contains_key(&"future".to_string()));
    assert_eq!(state.active_peers.len(), 3);
    assert_eq!(state.active_peers.get(&"edge".to_string()).expect("kept").port, 2);
    assert!(state.check_user(&"user".to_string()));

    state.expire_peers(u64::MAX);
    assert_eq!(state.active_peers.len(), 0);
}

#[test]
fn fresh_at_is_true_strictly_inside_the_time_to_live() {
    let presence = peer("1.2.3.4", 1234, 1000);
    assert!(presence.fresh_at(0));
    assert!(presence.fresh_at(1000));
    assert!(presence.fresh_at(1299));
    assert!(!presence.fresh_at(1300));
    assert_eq!(presence.duplicate().ip, "1.2.3.4");
    assert_eq!(identity("a", "b").duplicate().public_key, "b");
}

#[test]
fn nodes_lists_what_the_node_was_given() {
    let state = AppState::new(vec![
        "https://node1.test:1488".to_string(),
        "https://node2.test:1488".to_string(),
    ]);
    assert_eq!(state.nodes(), vec!["https://node1.test:1488", "https://node2.test:1488"]);
    assert_eq!(AppState::new(vec![]).nodes(), Vec::<String>::new());
}

#[test]
fn directory_holds_each_name_once() {
    let mut directory: Directory<u32> = Directory::new();
    assert_eq!(directory.len(), 0);
    assert!(directory.insert_if_absent("a".to_string(), 1));
    assert!(!directory.insert_if_absent("a".to_string(), 2));
    assert_eq!(directory.get(&"a".to_string()), Some(&1));
    directory.insert("a".to_string(), 3);
    directory.insert("b".to_string(), 4);
    assert_eq!(directory.get(&"a".to_string()), Some(&3));
    assert_eq!(directory.get(&"b".to_string()), Some(&4));
    assert_eq!(directory.get(&"c".to_string()), None);
    assert_eq!(directory.len(), 2);
}

#[test]
fn endpoints_drop_trailing_slashes_of_the_base() {
    assert_eq!(join_endpoint(b"http://node", b"/nodes"), b"http://node/nodes");
    assert_eq!(join_endpoint(b"http://node/", b"/nodes"), b"http://node/nodes");
    assert_eq!(join_endpoint(b"http://node///", b"/sync"), b"http://node/sync");
    assert_eq!(join_endpoint(b"http://a/b/", b"/check_user/ghost"), b"http://a/b/check_user/ghost");
    assert_eq!(join_endpoint(b"///", b"/x"), b"/x");
    assert_eq!(join_endpoint(b"", b""), b"");
    assert_eq!(join_endpoint(b"node", b""), b"node");
}

#[test]
fn reachable_nodes_are_recorded_once() {
    let mut reachable: Vec<String> = Vec::new();
    record_answer(
        &mut reachable,
        &"http://seed".to_string(),
        &["http://a".to_string(), "http://seed".to_string(), "http://a".to_string()],
    );
    assert_eq!(reachable, vec!["http://seed", "http://a"]);

    record_answer(&mut reachable, &"http://a".to_string(), &["http://b".to_string()]);
    assert_eq!(reachable, vec!["http://seed", "http://a", "http://b"]);

    record_answer(&mut reachable, &"http://c".to_string(), &[]);
    assert_eq!(reachable, vec!["http://seed", "http://a", "http://b", "http://c"]);

    assert!(contains(&reachable, &"http://b".to_string()));
    assert!(!contains(&reachable, &"http://d".to_string()));
    assert!(!insert_unique(&mut reachable, "http://b".to_string()));
    assert!(insert_unique(&mut reachable, "http://d".to_string()));
    assert_eq!(reachable.len(), 5);
}

#[test]
fn availability_check_stops_at_the_first_node_that_knows_the_name() {
    // No node at all: the name is available.
    assert_eq!(next_probe(0, 0, false), Probe::Done(true));
    // Three nodes, none asked yet.
    assert_eq!(next_probe(3, 0, false), Probe::Ask(0));
    assert_eq!(next_probe(3, 0, true), Probe::Ask(0));
    assert_eq!(next_probe(3, 1, false), Probe::Ask(1));
    assert_eq!(next_probe(3, 2, true), Probe::Done(false));
    assert_eq!(next_probe(3, 3, false), Probe::Done(true));
    assert_eq!(next_probe(3, 3, true), Probe::Done(false));
}

#[test]
fn availability_check_over_a_run_of_answers() {
    let run = |answers: &[bool]| -> (bool, usize) {
        let mut asked = 0;
        let mut last = false;
        loop {
            match next_probe(answers.len(), asked, last) {
                Probe::Ask(i) => {
                    last = answers[i];
                    asked = i + 1;
                }
                Probe::Done(available) => return (available, asked),
            }
        }
    };
    assert_eq!(run(&[]), (true, 0));
    assert_eq!(run(&[false, false]), (true, 2));
    assert_eq!(run(&[false, true, false]), (false, 2));
    assert_eq!(run(&[true, false]), (false, 1));
}

#[test]
fn envelopes_split_into_nonce_and_body() {
    let envelope = seal_envelope(&[1u8; 32], &[7u8; 12], b"message", b"Secret!").expect("seal");
    let (nonce, body) = split_envelope(&envelope).expect("split");
    assert_eq!(nonce, [7u8; 12]);
    assert_eq!(nonce.len(), 12);
    assert_eq!(body, &envelope[12..]);
    assert_eq!(body.len(), 7 + 16);
    assert_eq!(split_envelope(&envelope[..27]), Err(CryptoError::MalformedInput));
    assert!(split_envelope(&[0u8; 28]).is_ok());
}
