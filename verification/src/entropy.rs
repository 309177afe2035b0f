//! Nonces, drawn from the generator of the `rand` crate.

use rand::Rng;
use vstd::prelude::*;

verus! {

/// `Rng::random` of the `rand` crate, on the generator that `rand::rng`
/// hands out: thirty-two bytes. Chance decides them, so nothing is promised
/// of them. `rand` describes that generator as an unpredictable,
/// cryptographic one, seeded by the operating system, and stops the program
/// where the operating system gives it no seed.
#[verifier::external_body]
pub(crate) fn random_nonce() -> (nonce: [u8; 32]) {
    rand::rng().random()
}

} // verus!
