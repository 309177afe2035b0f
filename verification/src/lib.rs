//! Passwordless, device-bound authentication.
//!
//! An account is reached through the key pairs of its devices. A first device
//! binds its public key directly; every later device must be approved by one
//! that is already bound. A login hands out a single-use, time-bounded
//! challenge, and a signature over that challenge by any bound device is
//! exchanged for a signed, time-bounded session.
//!
//! Every operation takes the state by `&mut`, so one call is one atomic step:
//! callers that share the state between threads keep it behind a lock.

pub mod auth;
pub mod bytes;
pub mod challenge;
pub mod clock;
pub mod codec;
pub mod confirmation;
pub mod entropy;
pub mod error;
pub mod handlers;
pub mod laws;
pub mod models;
pub mod registry;
pub mod service;
pub mod session;
pub mod signature;
