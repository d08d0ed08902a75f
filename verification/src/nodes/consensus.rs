//! The decision of a user-name availability check across nodes. Asking the
//! nodes is left to the caller.

use vstd::prelude::*;

verus! {

/// What to do next in an availability check.
#[derive(Debug, Clone, Copy, PartialEq, Eq, Structural)]
pub enum Probe {
    /// Ask the node with this index whether it knows the name.
    Ask(usize),
    /// The check is over: the name is available, or it is not.
    Done(bool),
}

/// The next step of an availability check over `node_count` nodes, after
/// `asked` of them were asked in order and none of them but possibly the
/// last knew the name.
///
/// A node that knows the name ends the check at once, with the name not
/// available; a node that could not be reached counts as one that does not
/// know it. When every node has been asked, the name is available.
pub fn next_probe(node_count: usize, asked: usize, last_knows: bool) -> (probe: Probe)
    requires
        asked <= node_count,
    ensures
        asked > 0 && last_knows ==> probe == Probe::Done(false),
        !(asked > 0 && last_knows) && asked < node_count ==> probe == Probe::Ask(asked),
        !(asked > 0 && last_knows) && asked == node_count ==> probe == Probe::Done(true),
{
    if asked > 0 && last_knows {
        Probe::Done(false)
    } else if asked < node_count {
        Probe::Ask(asked)
    } else {
        Probe::Done(true)
    }
}

} // verus!
