//! Signaling messages.

use vstd::prelude::*;

verus! {

/// Message types for signaling between peers.
#[derive(Debug, Clone)]
pub enum SignalMessage {
    /// A session description offered to a peer.
    Offer { from: String, to: String, sdp: String },
    /// The session description that answers an offer.
    Answer { from: String, to: String, sdp: String },
    /// A connectivity candidate.
    IceCandidate { from: String, to: String, candidate: String },
    /// A user joins.
    Join { username: String },
    /// A user leaves.
    Leave { username: String },
    /// Something went wrong.
    Error { message: String },
}

} // verus!
