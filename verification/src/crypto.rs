//! The cryptographic session layer.

pub mod aead;
pub mod dh;
pub mod encryption;
pub mod handshake;
pub mod kdf;
pub mod ratchet;
pub mod rng;
pub mod signature;
pub mod window;
