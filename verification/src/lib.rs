//! Credential and session-token service.
//!
//! The library registers users, checks login credentials, and issues and
//! validates short-lived access tokens paired with longer-lived refresh
//! tokens. Every function carries a contract that Verus proves.

pub mod claims;
pub mod crypto;
pub mod error;
pub mod hasher;
pub mod hex;
pub mod model;
pub mod refresh;
pub mod service;
pub mod signer;
pub mod store;
pub mod text;
