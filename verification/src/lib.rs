//! Passwordless challenge-response authentication core.
//!
//! A client proves possession of a private key to establish an account,
//! then makes privileged requests by signing single-use, expiring
//! challenges.  The library holds the credential store, the challenge
//! ledger, the certificate verifier, the request authenticator and the
//! privilege gate; transport and persistence live outside it.

pub mod auth;
pub mod challenge;
pub mod credential;
pub mod crypto;
pub mod dictionary;
pub mod encoding;
pub mod error;
pub mod privilege;
