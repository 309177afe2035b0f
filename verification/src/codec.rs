//! The transport form of byte strings: standard base64, with padding.
//!
//! The encoding is the `base64` crate's. What it computes is named here, not
//! restated.

use crate::error::AuthError;
use base64::engine::general_purpose::STANDARD;
use base64::DecodeError;
use base64::Engine;
use vstd::prelude::*;

verus! {

/// The error with which the `base64` crate refuses a text.
#[verifier::external_type_specification]
#[verifier::external_body]
pub struct ExDecodeError(DecodeError);

/// The text that the `base64` crate's standard engine encodes `bytes` to.
pub uninterp spec fn base64_text(bytes: Seq<u8>) -> Seq<char>;

/// The bytes that the `base64` crate's standard engine decodes `text` to, or
/// nothing where it refuses the text.
pub uninterp spec fn base64_bytes(text: Seq<char>) -> Option<Seq<u8>>;

/// `Engine::encode` of the `base64` crate, on its `STANDARD` engine. The
/// crate stops the program where the length of the text would not fit the
/// machine's word; such inputs are left out. Nothing is claimed of the text
/// but that it depends on the bytes alone.
#[verifier::external_body]
fn base64_encode(bytes: &[u8]) -> (text: String)
    requires
        bytes@.len() / 3 * 4 + 4 <= usize::MAX,
    ensures
        text@ == base64_text(bytes@),
{
    STANDARD.encode(bytes)
}

/// `Engine::decode` of the `base64` crate, on its `STANDARD` engine. Nothing
/// is claimed but that what it answers depends on the text alone.
#[verifier::external_body]
fn base64_decode(text: &str) -> (result: Result<Vec<u8>, DecodeError>)
    ensures
        match result {
            Ok(bytes) => base64_bytes(text@) == Some(bytes@),
            Err(_) => base64_bytes(text@) is None,
        },
{
    STANDARD.decode(text)
}

/// What decoding a text answers: its bytes, or that it is malformed.
pub open spec fn decoded(text: Seq<char>) -> Result<Seq<u8>, AuthError> {
    match base64_bytes(text) {
        Some(bytes) => Ok(bytes),
        None => Err(AuthError::Malformed),
    }
}

/// What decoding answered, as a value.
pub open spec fn bytes_result_view(
    result: Result<Vec<u8>, AuthError>,
) -> Result<Seq<u8>, AuthError> {
    match result {
        Ok(bytes) => Ok(bytes@),
        Err(error) => Err(error),
    }
}

/// The transport form of a nonce.
pub fn encode_nonce(nonce: &[u8; 32]) -> (text: String)
    ensures
        text@ == base64_text(nonce@),
{
    base64_encode(nonce.as_slice())
}

/// The transport form of a byte string, or nothing where the text would be
/// longer than the machine can hold.
pub fn encode(bytes: &[u8]) -> (text: Option<String>)
    ensures
        text is Some <==> bytes@.len() / 3 * 4 + 4 <= usize::MAX,
        text is Some ==> text->0@ == base64_text(bytes@),
{
    if bytes.len() / 3 > (usize::MAX - 4) / 4 {
        None
    } else {
        Some(base64_encode(bytes))
    }
}

/// The bytes that a text stands for. Fails with `Malformed` where the text
/// is not the base64 form of any byte string.
pub fn decode(text: &str) -> (result: Result<Vec<u8>, AuthError>)
    ensures
        bytes_result_view(result) == decoded(text@),
{
    match base64_decode(text) {
        Ok(bytes) => Ok(bytes),
        Err(_) => Err(AuthError::Malformed),
    }
}

} // verus!
