use dothtml_backend::challenge::ChallengeStore;
use dothtml_backend::challenge::CHALLENGE_TTL;
use dothtml_backend::challenge::NONCE_LENGTH;
use dothtml_backend::error::AuthError;
use dothtml_backend::registry::KeyRegistry;

fn registry_with_alice() -> KeyRegistry {
    let mut registry = KeyRegistry::new();
    registry.create_account("alice");
    registry.bind_device("alice", &[1; 32], "laptop", 1).unwrap();
    registry
}

#[test]
fn constants_are_within_the_advised_bounds() {
    assert_eq!(NONCE_LENGTH, 32);
    assert_eq!(CHALLENGE_TTL, 120);
}

#[test]
fn store_keeps_the_span_it_was_made_with() {
    assert_eq!(ChallengeStore::new(90).ttl(), 90);
}

#[test]
fn account_without_a_device_gets_no_challenge() {
    let mut registry = KeyRegistry::new();
    registry.create_account("alice");
    let mut store = ChallengeStore::new(120);
    let result = store.issue(&registry, "alice", [5; 32], 100);
    assert_eq!(result.err(), Some(AuthError::UnknownAccount));
    let nobody = store.issue(&registry, "nobody", [5; 32], 100);
    assert_eq!(nobody.err(), Some(AuthError::UnknownAccount));
    assert!(store.pending("alice").is_none());
}

#[test]
fn issued_challenge_runs_for_the_span_of_the_store() {
    let registry = registry_with_alice();
    let mut store = ChallengeStore::new(120);
    let challenge = store.issue(&registry, "alice", [5; 32], 100).unwrap();
    assert_eq!(challenge.identifier, "alice");
    assert_eq!(challenge.nonce, [5; 32]);
    assert_eq!(challenge.issued_at, 100);
    assert_eq!(challenge.expires_at, 220);
    assert!(!challenge.consumed);
    let pending = store.pending("alice").unwrap();
    assert_eq!(pending.nonce, [5; 32]);
    assert_eq!(pending.expires_at, 220);
}

#[test]
fn challenge_is_consumed_once() {
    let registry = registry_with_alice();
    let mut store = ChallengeStore::new(120);
    store.issue(&registry, "alice", [5; 32], 100).unwrap();
    let consumed = store.consume("alice", &[5; 32], 150).unwrap();
    assert!(consumed.consumed);
    assert_eq!(consumed.nonce, [5; 32]);
    assert_eq!(consumed.issued_at, 100);
    assert!(store.pending("alice").is_none());
    assert_eq!(store.consume("alice", &[5; 32], 151).err(), Some(AuthError::NotFound));
}

#[test]
fn consuming_without_a_challenge_finds_nothing() {
    let mut store = ChallengeStore::new(120);
    assert_eq!(store.consume("alice", &[5; 32], 1).err(), Some(AuthError::NotFound));
}

#[test]
fn challenge_can_be_consumed_through_its_last_second() {
    let registry = registry_with_alice();
    let mut store = ChallengeStore::new(120);
    store.issue(&registry, "alice", [5; 32], 100).unwrap();
    assert!(store.consume("alice", &[5; 32], 220).is_ok());
}

#[test]
fn challenge_past_its_deadline_is_expired_and_then_gone() {
    let registry = registry_with_alice();
    let mut store = ChallengeStore::new(120);
    store.issue(&registry, "alice", [5; 32], 100).unwrap();
    assert_eq!(store.consume("alice", &[5; 32], 221).err(), Some(AuthError::Expired));
    assert!(store.pending("alice").is_none());
    assert_eq!(store.consume("alice", &[5; 32], 150).err(), Some(AuthError::NotFound));
}

#[test]
fn expiry_is_reported_before_a_wrong_nonce() {
    let registry = registry_with_alice();
    let mut store = ChallengeStore::new(120);
    store.issue(&registry, "alice", [5; 32], 100).unwrap();
    assert_eq!(store.consume("alice", &[6; 32], 221).err(), Some(AuthError::Expired));
}

#[test]
fn wrong_nonce_is_a_mismatch_and_leaves_the_challenge() {
    let registry = registry_with_alice();
    let mut store = ChallengeStore::new(120);
    store.issue(&registry, "alice", [5; 32], 100).unwrap();
    assert_eq!(store.consume("alice", &[6; 32], 150).err(), Some(AuthError::Mismatch));
    assert_eq!(store.consume("alice", &[5; 31], 150).err(), Some(AuthError::Mismatch));
    assert!(store.pending("alice").is_some());
    assert!(store.consume("alice", &[5; 32], 150).is_ok());
}

#[test]
fn new_challenge_replaces_the_earlier_one() {
    let registry = registry_with_alice();
    let mut store = ChallengeStore::new(120);
    store.issue(&registry, "alice", [5; 32], 100).unwrap();
    store.issue(&registry, "alice", [6; 32], 110).unwrap();
    assert_eq!(store.pending("alice").unwrap().nonce, [6; 32]);
    assert_eq!(store.consume("alice", &[5; 32], 120).err(), Some(AuthError::Mismatch));
    assert!(store.consume("alice", &[6; 32], 120).is_ok());
    assert_eq!(store.consume("alice", &[5; 32], 120).err(), Some(AuthError::NotFound));
}

#[test]
fn accounts_have_challenges_of_their_own() {
    let mut registry = registry_with_alice();
    registry.create_account("bob");
    registry.bind_device("bob", &[2; 32], "phone", 2).unwrap();
    let mut store = ChallengeStore::new(120);
    store.issue(&registry, "alice", [5; 32], 100).unwrap();
    store.issue(&registry, "bob", [6; 32], 100).unwrap();
    assert!(store.consume("alice", &[5; 32], 101).is_ok());
    assert_eq!(store.pending("bob").unwrap().nonce, [6; 32]);
    assert!(store.consume("bob", &[6; 32], 101).is_ok());
}

#[test]
fn challenge_issued_near_the_end_of_time_never_expires() {
    let registry = registry_with_alice();
    let mut store = ChallengeStore::new(120);
    let challenge = store.issue(&registry, "alice", [5; 32], u64::MAX - 5).unwrap();
    assert_eq!(challenge.expires_at, u64::MAX);
    assert!(store.consume("alice", &[5; 32], u64::MAX).is_ok());
}

#[test]
fn purge_takes_out_what_has_run_out_and_nothing_else() {
    let mut registry = registry_with_alice();
    for (name, seed) in [("bob", 2u8), ("carol", 3), ("dave", 4)] {
        registry.create_account(name);
        registry.bind_device(name, &[seed; 32], "device", 2).unwrap();
    }
    let mut store = ChallengeStore::new(100);
    store.issue(&registry, "alice", [1; 32], 10).unwrap();
    store.issue(&registry, "bob", [2; 32], 50).unwrap();
    store.issue(&registry, "carol", [3; 32], 20).unwrap();
    store.issue(&registry, "dave", [4; 32], 60).unwrap();
    // alice's runs to 110, carol's to 120, bob's to 150, dave's to 160.
    store.purge_expired(110);
    assert!(store.pending("alice").is_some());
    store.purge_expired(121);
    assert!(store.pending("alice").is_none());
    assert!(store.pending("carol").is_none());
    assert_eq!(store.pending("bob").unwrap().nonce, [2; 32]);
    assert_eq!(store.pending("dave").unwrap().nonce, [4; 32]);
    assert_eq!(store.consume("alice", &[1; 32], 100).err(), Some(AuthError::NotFound));
    assert!(store.consume("bob", &[2; 32], 150).is_ok());
    store.purge_expired(u64::MAX);
    assert!(store.pending("dave").is_none());
    store.purge_expired(0);
    assert!(store.pending("dave").is_none());
}

#[test]
fn purge_of_an_empty_store_does_nothing() {
    let mut store = ChallengeStore::new(100);
    store.purge_expired(1_000);
    assert!(store.pending("alice").is_none());
}

#[test]
fn copy_of_a_challenge_holds_the_same_values() {
    let registry = registry_with_alice();
    let mut store = ChallengeStore::new(120);
    let challenge = store.issue(&registry, "alice", [5; 32], 100).unwrap();
    let copy = challenge.clone();
    assert_eq!(copy.identifier, challenge.identifier);
    assert_eq!(copy.nonce, challenge.nonce);
    assert_eq!(copy.issued_at, challenge.issued_at);
    assert_eq!(copy.expires_at, challenge.expires_at);
    assert_eq!(copy.consumed, challenge.consumed);
}
