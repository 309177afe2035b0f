use dothtml_backend::signature::is_well_formed_key;
use dothtml_backend::signature::is_well_formed_signature;
use dothtml_backend::signature::verify;
use dothtml_backend::signature::KEY_LENGTH;
use dothtml_backend::signature::SIGNATURE_LENGTH;
use ed25519_dalek::Signer;
use ed25519_dalek::SigningKey;
use ed25519_dalek::VerifyingKey;

fn hex(text: &str) -> Vec<u8> {
    (0..text.len() / 2)
        .map(|i| u8::from_str_radix(&text[2 * i..2 * i + 2], 16).unwrap())
        .collect()
}

const PUBLIC_1: &str = "d75a980182b10ab7d54bfed3c964073a0ee172f3daa62325af021a68f707511a";
const SIGNATURE_1: &str = "e5564300c360ac729086e2cc806e828a84877f1eb8e5d974d873e06522490155\
5fb8821590a33bacc61e39701cf9b46bd25bf5f0595bbe24655141438e7a100b";
const PUBLIC_2: &str = "3d4017c3e843895a92b70aa74d1b7ebc9c982ccf2ec4968cc0cd55f12af4660c";
const SIGNATURE_2: &str = "92a009a9f0d4cab8720e820b5f642540a2b27b5416503f8fb3762223ebdb69da\
085ac1e43e15996e458f3613d0f11d8c387b2eaeb4302aeeb00d291612bb0c00";

#[test]
fn lengths_are_those_of_ed25519() {
    assert_eq!(KEY_LENGTH, 32);
    assert_eq!(SIGNATURE_LENGTH, 64);
}

#[test]
fn published_signature_over_the_empty_message_is_accepted() {
    assert!(verify(&hex(PUBLIC_1), &[], &hex(SIGNATURE_1)));
}

#[test]
fn published_signature_over_one_byte_is_accepted() {
    assert!(verify(&hex(PUBLIC_2), &[0x72], &hex(SIGNATURE_2)));
}

#[test]
fn signature_over_another_message_is_refused() {
    assert!(!verify(&hex(PUBLIC_2), &[0x73], &hex(SIGNATURE_2)));
    assert!(!verify(&hex(PUBLIC_2), &[], &hex(SIGNATURE_2)));
}

#[test]
fn signature_by_another_key_is_refused() {
    assert!(!verify(&hex(PUBLIC_1), &[0x72], &hex(SIGNATURE_2)));
}

#[test]
fn changed_signature_is_refused() {
    let mut signature = hex(SIGNATURE_1);
    signature[10] ^= 1;
    assert!(!verify(&hex(PUBLIC_1), &[], &signature));
}

#[test]
fn key_of_the_wrong_length_fails_the_check_without_stopping() {
    let signature = hex(SIGNATURE_1);
    assert!(!verify(&hex(PUBLIC_1)[..31], &[], &signature));
    assert!(!verify(&[], &[], &signature));
    let mut long = hex(PUBLIC_1);
    long.push(0);
    assert!(!verify(&long, &[], &signature));
}

#[test]
fn signature_of_the_wrong_length_fails_the_check_without_stopping() {
    let signature = hex(SIGNATURE_1);
    assert!(!verify(&hex(PUBLIC_1), &[], &signature[..63]));
    assert!(!verify(&hex(PUBLIC_1), &[], &[]));
}

#[test]
fn bytes_that_are_no_curve_point_fail_the_check() {
    let mut candidate = [0u8; 32];
    let mut found = None;
    for first in 0..=255u8 {
        candidate[0] = first;
        if VerifyingKey::from_bytes(&candidate).is_err() {
            found = Some(candidate);
            break;
        }
    }
    let no_point = found.expect("some byte string is no curve point");
    assert!(!is_well_formed_key(&no_point));
    assert!(!verify(&no_point, &[], &hex(SIGNATURE_1)));
}

#[test]
fn well_formed_key_is_a_decodable_key_of_full_length() {
    assert!(is_well_formed_key(&hex(PUBLIC_1)));
    assert!(is_well_formed_key(&hex(PUBLIC_2)));
    assert!(!is_well_formed_key(&hex(PUBLIC_1)[..31]));
    assert!(!is_well_formed_key(&[]));
}

#[test]
fn well_formed_signature_has_sixty_four_bytes() {
    assert!(is_well_formed_signature(&[0u8; 64]));
    assert!(!is_well_formed_signature(&[0u8; 63]));
    assert!(!is_well_formed_signature(&[0u8; 65]));
}

#[test]
fn fresh_signature_by_a_device_is_accepted() {
    let key = SigningKey::from_bytes(&[7u8; 32]);
    let message = b"thirty-two bytes of a fresh nonce";
    let signature = key.sign(message);
    assert!(verify(&key.verifying_key().to_bytes(), message, &signature.to_bytes()));
}
