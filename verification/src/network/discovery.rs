//! The decisions of node discovery: which address to ask, and which nodes
//! count as reachable afterwards. Asking is left to the caller.

use vstd::prelude::*;
use vstd::slice::slice_subrange;

verus! {

/// The byte `/`.
pub const SLASH: u8 = 0x2f;

/// `base` without the slashes it ends with.
pub open spec fn trimmed(base: Seq<u8>) -> Seq<u8>
    decreases base.len(),
{
    if base.len() > 0 && base.last() == SLASH {
        trimmed(base.drop_last())
    } else {
        base
    }
}

/// What trimming leaves is the start of `base`, does not end with a slash,
/// and is followed in `base` by slashes only.
pub proof fn lemma_trimmed(base: Seq<u8>)
    ensures
        trimmed(base).len() <= base.len(),
        trimmed(base) == base.subrange(0, trimmed(base).len() as int),
        trimmed(base).len() > 0 ==> trimmed(base).last() != SLASH,
        forall|i: int| trimmed(base).len() <= i < base.len() ==> base[i] == SLASH,
    decreases base.len(),
{
    if base.len() > 0 && base.last() == SLASH {
        let head = base.drop_last();
        lemma_trimmed(head);
        assert(trimmed(base) =~= base.subrange(0, trimmed(base).len() as int));
        assert forall|i: int| trimmed(base).len() <= i < base.len() implies base[i] == SLASH by {
            if i < head.len() {
                assert(head[i] == SLASH);
            }
        }
    } else {
        assert(trimmed(base) =~= base.subrange(0, trimmed(base).len() as int));
    }
}

/// The address of `path` on the node at `base`: `base` without trailing
/// slashes, followed by `path`.
pub fn join_endpoint(base: &[u8], path: &[u8]) -> (url: Vec<u8>)
    ensures
        url@ == trimmed(base@) + path@,
{
    let mut end: usize = base.len();
    proof {
        assert(base@.subrange(0, end as int) =~= base@);
    }
    while end > 0 && base[end - 1] == SLASH
        invariant
            end <= base@.len(),
            trimmed(base@) == trimmed(base@.subrange(0, end as int)),
        decreases end,
    {
        proof {
            let prefix = base@.subrange(0, end as int);
            assert(prefix.last() == SLASH);
            assert(prefix.drop_last() =~= base@.subrange(0, end - 1));
        }
        end -= 1;
    }
    proof {
        let prefix = base@.subrange(0, end as int);
        if end > 0 {
            assert(prefix.last() == base@[end - 1]);
        }
        assert(trimmed(prefix) == prefix);
    }
    let mut url: Vec<u8> = Vec::new();
    url.extend_from_slice(slice_subrange(base, 0, end));
    url.extend_from_slice(path);
    url
}

/// Whether `list` holds `item`.
pub open spec fn holds(list: Seq<String>, item: Seq<char>) -> bool {
    exists|i: int| 0 <= i < list.len() && (#[trigger] list[i])@ == item
}

/// Whether no item occurs twice in `list`.
pub open spec fn distinct(list: Seq<String>) -> bool {
    forall|i: int, j: int| 0 <= i < j < list.len() ==> (#[trigger] list[i])@ != (#[trigger] list[j])@
}

/// Whether `list` holds `item`, decided at run time.
pub fn contains(list: &Vec<String>, item: &String) -> (found: bool)
    ensures
        found == holds(list@, item@),
{
    let mut i: usize = 0;
    while i < list.len()
        invariant
            i <= list@.len(),
            forall|j: int| 0 <= j < i ==> (#[trigger] list@[j])@ != item@,
        decreases list@.len() - i,
    {
        if list[i] == *item {
            return true;
        }
        i += 1;
    }
    false
}

/// Adds `item` to a set of nodes unless the set holds it, and says whether
/// it was added.
pub fn insert_unique(set: &mut Vec<String>, item: String) -> (added: bool)
    requires
        distinct(old(set)@),
    ensures
        distinct(final(set)@),
        added == !holds(old(set)@, item@),
        added ==> final(set)@ == old(set)@.push(item),
        !added ==> final(set)@ == old(set)@,
{
    if contains(set, &item) {
        false
    } else {
        set.push(item);
        true
    }
}

/// The set of reachable nodes after the node at `url` answered with the
/// list `peers`: the old set, `url`, and the peers, each once, in this
/// order.
pub open spec fn with_answer(reachable: Seq<String>, url: String, peers: Seq<String>) -> Seq<
    String,
> {
    with_all(with_one(reachable, url), peers)
}

/// `set` with `item` added unless it holds it.
pub open spec fn with_one(set: Seq<String>, item: String) -> Seq<String> {
    if holds(set, item@) {
        set
    } else {
        set.push(item)
    }
}

/// `set` with the items of `items` added, first to last, each unless the
/// set holds it.
pub open spec fn with_all(set: Seq<String>, items: Seq<String>) -> Seq<String>
    decreases items.len(),
{
    if items.len() == 0 {
        set
    } else {
        with_all(with_one(set, items.first()), items.drop_first())
    }
}

/// Records the answer of a node that was reached: the node itself and the
/// peers it listed join the reachable set, none of them twice.
pub fn record_answer(reachable: &mut Vec<String>, url: &String, peers: &[String])
    requires
        distinct(old(reachable)@),
    ensures
        distinct(final(reachable)@),
        final(reachable)@ == with_answer(old(reachable)@, *url, peers@),
{
    insert_unique(reachable, url.clone());
    let mut i: usize = 0;
    proof {
        assert(peers@.subrange(0, peers@.len() as int) =~= peers@);
    }
    while i < peers.len()
        invariant
            i <= peers@.len(),
            distinct(reachable@),
            with_answer(old(reachable)@, *url, peers@) == with_all(
                reachable@,
                peers@.subrange(i as int, peers@.len() as int),
            ),
        decreases peers@.len() - i,
    {
        let ghost rest = peers@.subrange(i as int, peers@.len() as int);
        proof {
            assert(rest.first() == peers@[i as int]);
            assert(rest.drop_first() =~= peers@.subrange(i + 1, peers@.len() as int));
        }
        insert_unique(reachable, peers[i].clone());
        i += 1;
    }
}

} // verus!
