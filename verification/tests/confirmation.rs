use dothtml_backend::confirmation::ConfirmationBroker;
use dothtml_backend::confirmation::ConfirmationStatus;
use dothtml_backend::confirmation::CONFIRMATION_TIMEOUT;
use dothtml_backend::error::AuthError;
use dothtml_backend::registry::KeyRegistry;
use ed25519_dalek::Signer;
use ed25519_dalek::SigningKey;

fn device(seed: u8) -> SigningKey {
    SigningKey::from_bytes(&[seed; 32])
}

fn key(device: &SigningKey) -> Vec<u8> {
    device.verifying_key().to_bytes().to_vec()
}

fn proof_of(device: &SigningKey, request_id: u64) -> Vec<u8> {
    device.sign(&request_id.to_be_bytes()).to_bytes().to_vec()
}

/// A registry in which alice has a laptop (seed 1) and a tablet (seed 3).
fn registry() -> KeyRegistry {
    let mut registry = KeyRegistry::new();
    registry.create_account("alice");
    registry.bind_device("alice", &key(&device(1)), "laptop", 1).unwrap();
    registry.bind_device("alice", &key(&device(3)), "tablet", 2).unwrap();
    registry.create_account("bob");
    registry.bind_device("bob", &key(&device(9)), "bob's phone", 3).unwrap();
    registry
}

#[test]
fn default_timeout_is_ten_minutes() {
    assert_eq!(CONFIRMATION_TIMEOUT, 600);
    assert_eq!(ConfirmationBroker::new(300).timeout(), 300);
}

#[test]
fn only_pending_is_not_terminal() {
    assert!(!ConfirmationStatus::Pending.is_terminal());
    assert!(ConfirmationStatus::Approved.is_terminal());
    assert!(ConfirmationStatus::Rejected.is_terminal());
    assert!(ConfirmationStatus::Expired.is_terminal());
}

#[test]
fn request_is_stored_as_pending_and_names_whom_to_tell() {
    let registry = registry();
    let mut broker = ConfirmationBroker::new(600);
    let pending = broker
        .request(&registry, "alice", &key(&device(2)), "phone", 100)
        .unwrap();
    assert_eq!(pending.request.id, 0);
    assert_eq!(pending.request.identifier, "alice");
    assert_eq!(pending.request.candidate_public_key, key(&device(2)));
    assert_eq!(pending.request.candidate_device_name, "phone");
    assert_eq!(pending.request.requested_at, 100);
    assert!(pending.request.approvals.is_empty());
    assert_eq!(pending.request.status, ConfirmationStatus::Pending);
    let told: Vec<&str> = pending.notify.iter().map(|d| d.device_name.as_str()).collect();
    assert_eq!(told, vec!["laptop", "tablet"]);
    assert_eq!(broker.status(0, 100), Ok(ConfirmationStatus::Pending));
}

#[test]
fn requests_are_numbered_in_the_order_they_are_made() {
    let registry = registry();
    let mut broker = ConfirmationBroker::new(600);
    let first = broker.request(&registry, "alice", &key(&device(2)), "phone", 100).unwrap();
    let second = broker.request(&registry, "bob", &key(&device(4)), "watch", 101).unwrap();
    let third = broker.request(&registry, "alice", &key(&device(2)), "phone", 102).unwrap();
    assert_eq!(first.request.id, 0);
    assert_eq!(second.request.id, 1);
    assert_eq!(third.request.id, 2);
    assert_eq!(broker.get(1).unwrap().identifier, "bob");
    assert!(broker.get(3).is_none());
}

#[test]
fn key_that_is_bound_already_needs_no_confirmation() {
    let registry = registry();
    let mut broker = ConfirmationBroker::new(600);
    let result = broker.request(&registry, "alice", &key(&device(1)), "laptop", 100);
    assert_eq!(result.err(), Some(AuthError::AlreadyBound));
    assert_eq!(broker.status(0, 100), Err(AuthError::NotFound));
}

#[test]
fn approval_binds_the_candidate_and_returns_its_record() {
    let mut registry = registry();
    let mut broker = ConfirmationBroker::new(600);
    broker.request(&registry, "alice", &key(&device(2)), "phone", 100).unwrap();
    let laptop = device(1);
    let bound = broker
        .approve(&mut registry, 0, &key(&laptop), &proof_of(&laptop, 0), 150)
        .unwrap();
    assert_eq!(bound.identifier, "alice");
    assert_eq!(bound.public_key, key(&device(2)));
    assert_eq!(bound.device_name, "phone");
    assert_eq!(bound.bound_at, 150);
    assert!(registry.has_key("alice", &key(&device(2))));
    let stored = broker.get(0).unwrap();
    assert_eq!(stored.status, ConfirmationStatus::Approved);
    assert_eq!(stored.approvals, vec![key(&laptop)]);
    assert_eq!(broker.status(0, 10_000), Ok(ConfirmationStatus::Approved));
}

#[test]
fn second_approval_is_already_terminal_and_binds_nothing() {
    let mut registry = registry();
    let mut broker = ConfirmationBroker::new(600);
    broker.request(&registry, "alice", &key(&device(2)), "phone", 100).unwrap();
    let laptop = device(1);
    let tablet = device(3);
    broker.approve(&mut registry, 0, &key(&laptop), &proof_of(&laptop, 0), 150).unwrap();
    let again = broker.approve(&mut registry, 0, &key(&tablet), &proof_of(&tablet, 0), 151);
    assert_eq!(again.err(), Some(AuthError::AlreadyTerminal));
    assert_eq!(registry.list_devices("alice").len(), 3);
    assert_eq!(broker.get(0).unwrap().approvals, vec![key(&laptop)]);
    // Also long after the deadline, and also from somebody unknown.
    let late = broker.approve(&mut registry, 0, &key(&tablet), &proof_of(&tablet, 0), 100_000);
    assert_eq!(late.err(), Some(AuthError::AlreadyTerminal));
    let stranger = device(7);
    let odd = broker.approve(&mut registry, 0, &key(&stranger), &proof_of(&stranger, 0), 152);
    assert_eq!(odd.err(), Some(AuthError::AlreadyTerminal));
    assert_eq!(registry.list_devices("alice").len(), 3);
}

#[test]
fn unknown_request_is_not_found() {
    let mut registry = registry();
    let mut broker = ConfirmationBroker::new(600);
    let laptop = device(1);
    let result = broker.approve(&mut registry, 0, &key(&laptop), &proof_of(&laptop, 0), 150);
    assert_eq!(result.err(), Some(AuthError::NotFound));
    assert_eq!(
        broker.reject(&registry, 5, &key(&laptop), &proof_of(&laptop, 5), 150),
        Err(AuthError::NotFound)
    );
    assert_eq!(broker.status(0, 150), Err(AuthError::NotFound));
    assert_eq!(broker.status(u64::MAX, 150), Err(AuthError::NotFound));
}

#[test]
fn device_of_another_account_may_not_approve() {
    let mut registry = registry();
    let mut broker = ConfirmationBroker::new(600);
    broker.request(&registry, "alice", &key(&device(2)), "phone", 100).unwrap();
    let bobs = device(9);
    let result = broker.approve(&mut registry, 0, &key(&bobs), &proof_of(&bobs, 0), 150);
    assert_eq!(result.err(), Some(AuthError::UnauthorizedApprover));
    assert!(!registry.has_key("alice", &key(&device(2))));
    assert_eq!(broker.status(0, 150), Ok(ConfirmationStatus::Pending));
}

#[test]
fn candidate_may_not_approve_itself() {
    let mut registry = registry();
    let mut broker = ConfirmationBroker::new(600);
    broker.request(&registry, "alice", &key(&device(2)), "phone", 100).unwrap();
    let phone = device(2);
    let result = broker.approve(&mut registry, 0, &key(&phone), &proof_of(&phone, 0), 150);
    assert_eq!(result.err(), Some(AuthError::UnauthorizedApprover));
    assert!(!registry.has_key("alice", &key(&phone)));
}

#[test]
fn proof_must_be_the_approvers_signature_over_this_request() {
    let mut registry = registry();
    let mut broker = ConfirmationBroker::new(600);
    broker.request(&registry, "alice", &key(&device(2)), "phone", 100).unwrap();
    broker.request(&registry, "alice", &key(&device(4)), "watch", 100).unwrap();
    let laptop = device(1);
    let tablet = device(3);
    // A proof for another request.
    let other = broker.approve(&mut registry, 1, &key(&laptop), &proof_of(&laptop, 0), 150);
    assert_eq!(other.err(), Some(AuthError::UnauthorizedApprover));
    // A proof by another device of the same account.
    let borrowed = broker.approve(&mut registry, 0, &key(&laptop), &proof_of(&tablet, 0), 150);
    assert_eq!(borrowed.err(), Some(AuthError::UnauthorizedApprover));
    // No proof at all.
    let none = broker.approve(&mut registry, 0, &key(&laptop), &[], 150);
    assert_eq!(none.err(), Some(AuthError::UnauthorizedApprover));
    assert_eq!(registry.list_devices("alice").len(), 2);
    // The right one.
    assert!(broker.approve(&mut registry, 0, &key(&laptop), &proof_of(&laptop, 0), 150).is_ok());
}

#[test]
fn request_can_be_decided_through_the_last_second_of_its_span() {
    let mut registry = registry();
    let mut broker = ConfirmationBroker::new(600);
    broker.request(&registry, "alice", &key(&device(2)), "phone", 100).unwrap();
    let laptop = device(1);
    assert_eq!(broker.status(0, 700), Ok(ConfirmationStatus::Pending));
    assert!(broker.approve(&mut registry, 0, &key(&laptop), &proof_of(&laptop, 0), 700).is_ok());
}

#[test]
fn request_past_its_span_is_expired_for_good() {
    let mut registry = registry();
    let mut broker = ConfirmationBroker::new(600);
    broker.request(&registry, "alice", &key(&device(2)), "phone", 100).unwrap();
    let laptop = device(1);
    assert_eq!(broker.status(0, 701), Ok(ConfirmationStatus::Expired));
    // Nobody has recorded it yet.
    assert_eq!(broker.get(0).unwrap().status, ConfirmationStatus::Pending);
    let late = broker.approve(&mut registry, 0, &key(&laptop), &proof_of(&laptop, 0), 701);
    assert_eq!(late.err(), Some(AuthError::Expired));
    assert_eq!(broker.get(0).unwrap().status, ConfirmationStatus::Expired);
    assert!(!registry.has_key("alice", &key(&device(2))));
    // A clock that runs backwards does not revive it.
    let early = broker.approve(&mut registry, 0, &key(&laptop), &proof_of(&laptop, 0), 200);
    assert_eq!(early.err(), Some(AuthError::Expired));
    assert_eq!(broker.status(0, 200), Ok(ConfirmationStatus::Expired));
    assert_eq!(
        broker.reject(&registry, 0, &key(&laptop), &proof_of(&laptop, 0), 200),
        Err(AuthError::Expired)
    );
}

#[test]
fn expiry_is_reported_before_an_unauthorized_approver() {
    let mut registry = registry();
    let mut broker = ConfirmationBroker::new(600);
    broker.request(&registry, "alice", &key(&device(2)), "phone", 100).unwrap();
    let stranger = device(7);
    let late = broker.approve(&mut registry, 0, &key(&stranger), &proof_of(&stranger, 0), 701);
    assert_eq!(late.err(), Some(AuthError::Expired));
}

#[test]
fn rejection_ends_the_request_without_binding() {
    let mut registry = registry();
    let mut broker = ConfirmationBroker::new(600);
    broker.request(&registry, "alice", &key(&device(2)), "phone", 100).unwrap();
    let laptop = device(1);
    let tablet = device(3);
    assert_eq!(broker.reject(&registry, 0, &key(&laptop), &proof_of(&laptop, 0), 150), Ok(()));
    let stored = broker.get(0).unwrap();
    assert_eq!(stored.status, ConfirmationStatus::Rejected);
    assert!(stored.approvals.is_empty());
    assert!(!registry.has_key("alice", &key(&device(2))));
    let after = broker.approve(&mut registry, 0, &key(&tablet), &proof_of(&tablet, 0), 151);
    assert_eq!(after.err(), Some(AuthError::AlreadyTerminal));
    assert_eq!(
        broker.reject(&registry, 0, &key(&tablet), &proof_of(&tablet, 0), 151),
        Err(AuthError::AlreadyTerminal)
    );
    assert!(!registry.has_key("alice", &key(&device(2))));
    assert_eq!(broker.status(0, 100_000), Ok(ConfirmationStatus::Rejected));
}

#[test]
fn rejection_asks_the_same_of_the_device_as_an_approval() {
    let registry = registry();
    let mut broker = ConfirmationBroker::new(600);
    broker.request(&registry, "alice", &key(&device(2)), "phone", 100).unwrap();
    let laptop = device(1);
    let bobs = device(9);
    assert_eq!(
        broker.reject(&registry, 0, &key(&bobs), &proof_of(&bobs, 0), 150),
        Err(AuthError::UnauthorizedApprover)
    );
    assert_eq!(
        broker.reject(&registry, 0, &key(&laptop), &proof_of(&laptop, 1), 150),
        Err(AuthError::UnauthorizedApprover)
    );
    assert_eq!(broker.status(0, 150), Ok(ConfirmationStatus::Pending));
}

#[test]
fn approval_of_a_key_bound_in_the_meantime_returns_the_existing_record() {
    let mut registry = registry();
    let mut broker = ConfirmationBroker::new(600);
    broker.request(&registry, "alice", &key(&device(2)), "phone", 100).unwrap();
    broker.request(&registry, "alice", &key(&device(2)), "phone again", 101).unwrap();
    let laptop = device(1);
    let first = broker
        .approve(&mut registry, 0, &key(&laptop), &proof_of(&laptop, 0), 150)
        .unwrap();
    assert_eq!(first.bound_at, 150);
    let second = broker
        .approve(&mut registry, 1, &key(&laptop), &proof_of(&laptop, 1), 160)
        .unwrap();
    assert_eq!(second.device_name, "phone");
    assert_eq!(second.bound_at, 150);
    assert_eq!(registry.list_devices("alice").len(), 3);
    assert_eq!(broker.status(1, 160), Ok(ConfirmationStatus::Approved));
}

#[test]
fn newly_bound_device_may_approve_the_next_one() {
    let mut registry = registry();
    let mut broker = ConfirmationBroker::new(600);
    broker.request(&registry, "alice", &key(&device(2)), "phone", 100).unwrap();
    let laptop = device(1);
    broker.approve(&mut registry, 0, &key(&laptop), &proof_of(&laptop, 0), 150).unwrap();
    broker.request(&registry, "alice", &key(&device(4)), "watch", 200).unwrap();
    let phone = device(2);
    let bound = broker.approve(&mut registry, 1, &key(&phone), &proof_of(&phone, 1), 210).unwrap();
    assert_eq!(bound.device_name, "watch");
}

#[test]
fn copy_of_a_request_holds_the_same_values() {
    let mut registry = registry();
    let mut broker = ConfirmationBroker::new(600);
    broker.request(&registry, "alice", &key(&device(2)), "phone", 100).unwrap();
    let laptop = device(1);
    broker.approve(&mut registry, 0, &key(&laptop), &proof_of(&laptop, 0), 150).unwrap();
    let stored = broker.get(0).unwrap();
    let copy = stored.clone();
    assert_eq!(copy.id, stored.id);
    assert_eq!(copy.identifier, stored.identifier);
    assert_eq!(copy.candidate_public_key, stored.candidate_public_key);
    assert_eq!(copy.candidate_device_name, stored.candidate_device_name);
    assert_eq!(copy.requested_at, stored.requested_at);
    assert_eq!(copy.approvals, stored.approvals);
    assert_eq!(copy.status, stored.status);
}

#[test]
fn overdue_requests_are_recorded_as_expired_and_the_others_left() {
    let mut registry = registry();
    let mut broker = ConfirmationBroker::new(600);
    let laptop = device(1);
    broker.request(&registry, "alice", &key(&device(2)), "phone", 100).unwrap();
    broker.request(&registry, "alice", &key(&device(4)), "watch", 100).unwrap();
    broker.request(&registry, "alice", &key(&device(5)), "car", 100).unwrap();
    broker.request(&registry, "alice", &key(&device(6)), "fridge", 500).unwrap();
    broker.approve(&mut registry, 0, &key(&laptop), &proof_of(&laptop, 0), 150).unwrap();
    broker.reject(&registry, 1, &key(&laptop), &proof_of(&laptop, 1), 150).unwrap();

    broker.expire_overdue(700);
    assert_eq!(broker.get(2).unwrap().status, ConfirmationStatus::Pending);
    broker.expire_overdue(701);
    assert_eq!(broker.get(0).unwrap().status, ConfirmationStatus::Approved);
    assert_eq!(broker.get(0).unwrap().approvals, vec![key(&laptop)]);
    assert_eq!(broker.get(1).unwrap().status, ConfirmationStatus::Rejected);
    assert_eq!(broker.get(2).unwrap().status, ConfirmationStatus::Expired);
    assert_eq!(broker.get(3).unwrap().status, ConfirmationStatus::Pending);
    assert_eq!(broker.get(2).unwrap().candidate_device_name, "car");
    assert_eq!(broker.get(2).unwrap().requested_at, 100);

    // What was recorded stays, whatever the clock says later.
    let late = broker.approve(&mut registry, 2, &key(&laptop), &proof_of(&laptop, 2), 200);
    assert_eq!(late.err(), Some(AuthError::Expired));
    assert!(broker.approve(&mut registry, 3, &key(&laptop), &proof_of(&laptop, 3), 702).is_ok());
}
