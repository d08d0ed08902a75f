//! What the session layer's callers need around a peer connection: the
//! decisions of node discovery and the messages of the signaling exchange.

pub mod discovery;
pub mod signaling;
