use dothtml_backend::error::AuthError;
use dothtml_backend::session::SessionIssuer;
use dothtml_backend::session::SESSION_TTL;
use ed25519_dalek::Signature;
use ed25519_dalek::Signer;
use ed25519_dalek::SigningKey;
use ed25519_dalek::VerifyingKey;

fn hex(text: &str) -> Vec<u8> {
    (0..text.len() / 2)
        .map(|i| u8::from_str_radix(&text[2 * i..2 * i + 2], 16).unwrap())
        .collect()
}

const SEED: &str = "9d61b19deffd5a60ba844af492ec2cc44449c5697b326919703bac031cae7f60";
const PUBLIC: &str = "d75a980182b10ab7d54bfed3c964073a0ee172f3daa62325af021a68f707511a";

fn message(identifier: &str, issued_at: u64, expires_at: u64) -> Vec<u8> {
    let mut bytes = issued_at.to_be_bytes().to_vec();
    bytes.extend_from_slice(&expires_at.to_be_bytes());
    bytes.extend_from_slice(identifier.as_bytes());
    bytes
}

#[test]
fn default_span_is_a_quarter_of_an_hour() {
    assert_eq!(SESSION_TTL, 900);
}

#[test]
fn issued_session_names_the_account_and_its_span() {
    let issuer = SessionIssuer::new(hex(SEED), 900);
    let session = issuer.issue("alice", 1_000).unwrap();
    assert_eq!(session.identifier, "alice");
    assert_eq!(session.issued_at, 1_000);
    assert_eq!(session.expires_at, 1_900);
    assert_eq!(session.signature.len(), 64);
}

#[test]
fn signature_of_a_session_is_the_issuers_over_both_moments_and_the_identifier() {
    let issuer = SessionIssuer::new(hex(SEED), 900);
    let session = issuer.issue("alice", 1_000).unwrap();
    let expected = message("alice", 1_000, 1_900);
    let seed: [u8; 32] = hex(SEED).try_into().unwrap();
    let signed = SigningKey::from_bytes(&seed).sign(&expected);
    assert_eq!(session.signature, signed.to_bytes().to_vec());
    let public: [u8; 32] = hex(PUBLIC).try_into().unwrap();
    let key = VerifyingKey::from_bytes(&public).unwrap();
    let signature = Signature::from_slice(&session.signature).unwrap();
    assert!(key.verify_strict(&expected, &signature).is_ok());
}

#[test]
fn session_verifies_until_its_end_and_not_after() {
    let issuer = SessionIssuer::new(hex(SEED), 900);
    let session = issuer.issue("alice", 1_000).unwrap();
    assert_eq!(issuer.verify(&session, 1_000), Ok("alice".to_string()));
    assert_eq!(issuer.verify(&session, 1_500), Ok("alice".to_string()));
    assert_eq!(issuer.verify(&session, 1_900), Ok("alice".to_string()));
    assert_eq!(issuer.verify(&session, 1_901), Err(AuthError::Expired));
    assert_eq!(issuer.verify(&session, u64::MAX), Err(AuthError::Expired));
    assert_eq!(issuer.verify(&session, 0), Ok("alice".to_string()));
}

#[test]
fn session_with_another_identifier_has_an_invalid_signature() {
    let issuer = SessionIssuer::new(hex(SEED), 900);
    let mut session = issuer.issue("alice", 1_000).unwrap();
    session.identifier = "mallory".to_string();
    assert_eq!(issuer.verify(&session, 1_001), Err(AuthError::InvalidSignature));
}

#[test]
fn session_with_a_later_end_has_an_invalid_signature() {
    let issuer = SessionIssuer::new(hex(SEED), 900);
    let mut session = issuer.issue("alice", 1_000).unwrap();
    session.expires_at = 1_000_000;
    assert_eq!(issuer.verify(&session, 1_001), Err(AuthError::InvalidSignature));
    assert_eq!(issuer.verify(&session, 2_000_000), Err(AuthError::InvalidSignature));
}

#[test]
fn session_with_a_changed_signature_is_invalid() {
    let issuer = SessionIssuer::new(hex(SEED), 900);
    let mut session = issuer.issue("alice", 1_000).unwrap();
    session.signature[0] ^= 0x80;
    assert_eq!(issuer.verify(&session, 1_001), Err(AuthError::InvalidSignature));
    session.signature.truncate(63);
    assert_eq!(issuer.verify(&session, 1_001), Err(AuthError::InvalidSignature));
}

#[test]
fn session_of_another_issuer_is_invalid() {
    let issuer = SessionIssuer::new(hex(SEED), 900);
    let other = SessionIssuer::new(vec![1u8; 32], 900);
    let session = other.issue("alice", 1_000).unwrap();
    assert_eq!(issuer.verify(&session, 1_001), Err(AuthError::InvalidSignature));
    assert_eq!(other.verify(&session, 1_001), Ok("alice".to_string()));
}

#[test]
fn invalid_signature_is_reported_before_expiry() {
    let issuer = SessionIssuer::new(hex(SEED), 900);
    let mut session = issuer.issue("alice", 1_000).unwrap();
    session.identifier = "mallory".to_string();
    assert_eq!(issuer.verify(&session, 5_000), Err(AuthError::InvalidSignature));
}

#[test]
fn issuer_without_a_usable_key_issues_nothing() {
    for seed in [Vec::new(), vec![1u8; 31], vec![1u8; 33]] {
        let issuer = SessionIssuer::new(seed, 900);
        assert_eq!(issuer.issue("alice", 1_000).err(), Some(AuthError::InternalError));
    }
}

#[test]
fn issuer_without_a_usable_key_accepts_nothing() {
    let good = SessionIssuer::new(hex(SEED), 900);
    let session = good.issue("alice", 1_000).unwrap();
    let broken = SessionIssuer::new(vec![1u8; 31], 900);
    assert_eq!(broken.verify(&session, 1_001), Err(AuthError::InvalidSignature));
}

#[test]
fn session_issued_near_the_end_of_time_ends_at_the_last_moment() {
    let issuer = SessionIssuer::new(hex(SEED), 900);
    let session = issuer.issue("alice", u64::MAX - 1).unwrap();
    assert_eq!(session.expires_at, u64::MAX);
    assert_eq!(issuer.verify(&session, u64::MAX), Ok("alice".to_string()));
}

#[test]
fn identifier_outside_ascii_is_signed_as_it_is_encoded() {
    let issuer = SessionIssuer::new(hex(SEED), 60);
    let session = issuer.issue("zoë", 10).unwrap();
    assert_eq!(issuer.verify(&session, 70), Ok("zoë".to_string()));
    let public: [u8; 32] = hex(PUBLIC).try_into().unwrap();
    let key = VerifyingKey::from_bytes(&public).unwrap();
    let signature = Signature::from_slice(&session.signature).unwrap();
    assert!(key.verify_strict(&message("zoë", 10, 70), &signature).is_ok());
}

#[test]
fn copy_of_a_session_verifies_as_the_session_does() {
    let issuer = SessionIssuer::new(hex(SEED), 900);
    let session = issuer.issue("alice", 1_000).unwrap();
    let copy = session.clone();
    assert_eq!(copy.signature, session.signature);
    assert_eq!(issuer.verify(&copy, 1_001), Ok("alice".to_string()));
}
