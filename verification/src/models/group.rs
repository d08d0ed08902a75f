//! Group membership roles.

use vstd::prelude::*;

verus! {

/// Role of a member in a group.
#[derive(Debug, Clone, Copy, PartialEq, Eq, Structural)]
pub enum GroupRole {
    /// Created the group.
    Owner,
    /// May manage members.
    Admin,
    /// May read and write.
    Member,
    /// May read only.
    ReadOnly,
}

} // verus!
