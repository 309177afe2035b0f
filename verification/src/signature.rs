//! The signature verifier: Ed25519 over raw bytes.
//!
//! The arithmetic is the `ed25519_dalek` crate's. What it computes is named
//! here, not restated; the functions of this module decide on lengths and
//! hand well-sized inputs to it.

use ed25519_dalek::Signature;
use ed25519_dalek::Signer;
use ed25519_dalek::SigningKey;
use ed25519_dalek::VerifyingKey;
use vstd::prelude::*;

verus! {

/// The length of an Ed25519 public key, and of a signing seed.
pub const KEY_LENGTH: usize = 32;

/// The length of an Ed25519 signature.
pub const SIGNATURE_LENGTH: usize = 64;

/// Whether `ed25519_dalek` decodes `key` as the compressed form of a curve
/// point, which is what it asks of a public key.
pub uninterp spec fn ed25519_key_decodes(key: Seq<u8>) -> bool;

/// Whether `ed25519_dalek`'s strict verification accepts `signature` as one by
/// `key` over `message`.
pub uninterp spec fn ed25519_accepts(key: Seq<u8>, message: Seq<u8>, signature: Seq<u8>) -> bool;

/// The signature that `ed25519_dalek` computes over `message` with the key
/// expanded from `seed`. Ed25519 signing draws no randomness.
pub uninterp spec fn ed25519_signature(seed: Seq<u8>, message: Seq<u8>) -> Seq<u8>;

/// The public key that `ed25519_dalek` derives from `seed`.
pub uninterp spec fn ed25519_public_key(seed: Seq<u8>) -> Seq<u8>;

/// `VerifyingKey::try_from` of `ed25519_dalek`: whether the bytes decode as a
/// public key. Nothing is claimed but that the answer depends on the bytes
/// alone.
#[verifier::external_body]
fn ed25519_decode_key(key: &[u8]) -> (ok: bool)
    ensures
        ok == ed25519_key_decodes(key@),
{
    VerifyingKey::try_from(key).is_ok()
}

/// `VerifyingKey::verify_strict` of `ed25519_dalek`, on a key and a signature
/// given as bytes: `false` where either fails to decode or the signature is
/// refused. Nothing is claimed but that the answer depends on the three byte
/// strings alone.
#[verifier::external_body]
fn ed25519_verify(key: &[u8], message: &[u8], signature: &[u8]) -> (ok: bool)
    ensures
        ok == ed25519_accepts(key@, message@, signature@),
{
    match (VerifyingKey::try_from(key), Signature::from_slice(signature)) {
        (Ok(key), Ok(signature)) => key.verify_strict(message, &signature).is_ok(),
        _ => false,
    }
}

/// `Signer::try_sign` of `ed25519_dalek`'s `SigningKey`, made from `seed` by
/// `SigningKey::try_from`. That conversion fails exactly on a seed that is not
/// 32 bytes long, and signing itself never fails; a signature is 64 bytes.
#[verifier::external_body]
pub(crate) fn ed25519_sign(seed: &[u8], message: &[u8]) -> (signature: Option<Vec<u8>>)
    ensures
        signature is Some <==> seed@.len() == KEY_LENGTH,
        signature is Some ==> signature->0@ == ed25519_signature(seed@, message@),
        signature is Some ==> signature->0@.len() == SIGNATURE_LENGTH,
{
    match SigningKey::try_from(seed) {
        Ok(key) => match key.try_sign(message) {
            Ok(signature) => Some(signature.to_vec()),
            Err(_) => None,
        },
        Err(_) => None,
    }
}

/// `SigningKey::verifying_key` of `ed25519_dalek`, on a key made from `seed`
/// by `SigningKey::try_from`, which fails exactly on a seed that is not 32
/// bytes long. A public key is 32 bytes.
#[verifier::external_body]
pub(crate) fn ed25519_derive_public(seed: &[u8]) -> (key: Option<Vec<u8>>)
    ensures
        key is Some <==> seed@.len() == KEY_LENGTH,
        key is Some ==> key->0@ == ed25519_public_key(seed@),
        key is Some ==> key->0@.len() == KEY_LENGTH,
{
    match SigningKey::try_from(seed) {
        Ok(key) => Some(key.verifying_key().to_bytes().to_vec()),
        Err(_) => None,
    }
}

/// A public key is well formed when it has the length of an Ed25519 key and
/// decodes as one.
pub open spec fn key_well_formed(key: Seq<u8>) -> bool {
    key.len() == KEY_LENGTH && ed25519_key_decodes(key)
}

/// A signature is well formed when it has the length of an Ed25519 signature.
pub open spec fn signature_well_formed(signature: Seq<u8>) -> bool {
    signature.len() == SIGNATURE_LENGTH
}

/// `signature` is a valid signature by `key` over exactly `message`. Anything
/// of the wrong length is invalid.
pub open spec fn signature_valid(key: Seq<u8>, message: Seq<u8>, signature: Seq<u8>) -> bool {
    &&& key.len() == KEY_LENGTH
    &&& signature.len() == SIGNATURE_LENGTH
    &&& ed25519_accepts(key, message, signature)
}

/// What signing `message` under `seed` gives: nothing without a seed of the
/// right length.
pub open spec fn signed(seed: Seq<u8>, message: Seq<u8>) -> Option<Seq<u8>> {
    if seed.len() == KEY_LENGTH {
        Some(ed25519_signature(seed, message))
    } else {
        None
    }
}

/// The public half of the key pair that `seed` stands for.
pub open spec fn public_half(seed: Seq<u8>) -> Option<Seq<u8>> {
    if seed.len() == KEY_LENGTH {
        Some(ed25519_public_key(seed))
    } else {
        None
    }
}

/// Whether `key` can be bound as a device key.
pub fn is_well_formed_key(key: &[u8]) -> (ok: bool)
    ensures
        ok == key_well_formed(key@),
{
    key.len() == KEY_LENGTH && ed25519_decode_key(key)
}

/// Whether `signature` has the form of a signature.
pub fn is_well_formed_signature(signature: &[u8]) -> (ok: bool)
    ensures
        ok == signature_well_formed(signature@),
{
    signature.len() == SIGNATURE_LENGTH
}

/// Checks that `signature` was made by the private half of `public_key` over
/// exactly the bytes of `challenge_nonce`. A key or a signature that does not
/// decode makes the check fail; it never makes it stop.
pub fn verify(public_key: &[u8], challenge_nonce: &[u8], signature: &[u8]) -> (ok: bool)
    ensures
        ok == signature_valid(public_key@, challenge_nonce@, signature@),
{
    if public_key.len() != KEY_LENGTH || signature.len() != SIGNATURE_LENGTH {
        return false;
    }
    ed25519_verify(public_key, challenge_nonce, signature)
}

} // verus!
