//! Credential custody and request signing for a feed-reader backend proxy.
//!
//! The library derives an encryption key from a password, seals credential
//! fields with authenticated encryption, signs outbound calls with the
//! canonical-request / HMAC-chain protocol, and delivers asynchronously
//! completing responses in the order their requests were submitted.
use vstd::prelude::*;

pub mod codec;
pub mod vault;
pub mod credentials;
pub mod signer;
pub mod queue;
pub mod worker;
pub mod model;
