//! Kinds of payload that travel between users.

use vstd::prelude::*;

verus! {

/// Type of message being sent.
#[derive(Debug, Clone, Copy, PartialEq, Eq, Structural)]
pub enum MessageType {
    /// Plain text.
    Text,
    /// An arbitrary file.
    File,
    /// A picture.
    Image,
    /// A voice recording.
    Voice,
    /// A video recording.
    Video,
    /// An offer to start a call.
    CallOffer,
    /// The answer to a call offer.
    CallAnswer,
    /// The end of a call.
    CallHangup,
    /// An invitation to a group.
    GroupInvite,
}

} // verus!
