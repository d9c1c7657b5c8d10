//! Keys, key agreement and message encryption.
pub mod handshake;
pub mod hmac_auth;
pub mod keys;
pub mod laws;
pub mod primitives;
pub mod ratchet;
pub mod ratchet_batch;
pub mod ratchet_laws;
pub mod skipped;
pub mod suite;
