//! End-to-end encrypted messaging core: identity signing, the triple
//! Diffie-Hellman handshake, the ratchet key schedule and the one-shot
//! authenticated-encryption engine.

pub mod bytes;
pub mod crypto;
pub mod error;
pub mod models;
pub mod network;
pub mod nodes;
