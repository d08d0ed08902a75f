//! The state of a directory node and the rules by which requests change it.
//!
//! A node keeps the identities that users registered, the peers that
//! announced themselves recently, and the other nodes it knows. The rules
//! are plain functions on that state; serving them over a network is left to
//! the caller.

use vstd::prelude::*;

verus! {

/// How long, in seconds, an announced peer stays listed.
pub const PRESENCE_TTL_SECS: u64 = 300;

/// A registered identity.
#[derive(Debug, Clone)]
pub struct PublicIdentity {
    /// The `@user` name.
    pub username: String,
    /// The user's public key, as text.
    pub public_key: String,
    /// The user's signature, as text.
    pub signature: String,
    /// When the identity was registered, in seconds.
    pub timestamp: u64,
}

/// An announced peer.
#[derive(Debug, Clone)]
pub struct PeerPresence {
    /// The peer's address.
    pub ip: String,
    /// The peer's port.
    pub port: u16,
    /// When the peer announced itself, in seconds.
    pub timestamp: u64,
}

/// A table from names to values in which no name occurs twice.
pub struct Directory<V> {
    entries: Vec<(String, V)>,
}

/// Whether `entries` holds `key` at index `i`.
pub open spec fn holds_at<V>(entries: Seq<(String, V)>, key: Seq<char>, i: int) -> bool {
    0 <= i < entries.len() && entries[i].0@ == key
}

/// Whether no name occurs twice in `entries`.
pub open spec fn distinct_keys<V>(entries: Seq<(String, V)>) -> bool {
    forall|i: int, j: int|
        0 <= i < j < entries.len() ==> (#[trigger] entries[i]).0@ != (#[trigger] entries[j]).0@
}

/// The map that a list of entries with distinct names stands for.
pub open spec fn table_of<V>(entries: Seq<(String, V)>) -> Map<Seq<char>, V> {
    Map::new(
        |key: Seq<char>| exists|i: int| holds_at(entries, key, i),
        |key: Seq<char>| entries[choose|i: int| holds_at(entries, key, i)].1,
    )
}

/// In a list with distinct names, the entry at index `i` is what the table
/// holds under its name.
pub proof fn lemma_table_entry<V>(entries: Seq<(String, V)>, i: int)
    requires
        distinct_keys(entries),
        0 <= i < entries.len(),
    ensures
        table_of(entries).contains_key(entries[i].0@),
        table_of(entries)[entries[i].0@] == entries[i].1,
{
    let key = entries[i].0@;
    assert(holds_at(entries, key, i));
    let j = choose|j: int| holds_at(entries, key, j);
    if j < i {
        assert(entries[j].0@ != entries[i].0@);
    } else if i < j {
        assert(entries[i].0@ != entries[j].0@);
    }
}

/// Appending an entry under a new name inserts it into the table.
pub proof fn lemma_table_push<V>(entries: Seq<(String, V)>, key: String, value: V)
    requires
        distinct_keys(entries),
        !table_of(entries).contains_key(key@),
    ensures
        distinct_keys(entries.push((key, value))),
        table_of(entries.push((key, value))) == table_of(entries).insert(key@, value),
{
    let next = entries.push((key, value));
    assert forall|i: int, j: int| 0 <= i < j < next.len() implies (#[trigger] next[i]).0@ != (
    #[trigger] next[j]).0@ by {
        if j == entries.len() {
            assert(holds_at(entries, next[i].0@, i));
        } else {
            assert(entries[i].0@ != entries[j].0@);
        }
    }
    assert forall|k: Seq<char>| #[trigger]
        table_of(next).contains_key(k) == table_of(entries).insert(key@, value).contains_key(
            k,
        ) by {
        if exists|i: int| holds_at(next, k, i) {
            let i = choose|i: int| holds_at(next, k, i);
            if i < entries.len() {
                assert(holds_at(entries, k, i));
            }
        }
        if exists|i: int| holds_at(entries, k, i) {
            let i = choose|i: int| holds_at(entries, k, i);
            assert(holds_at(next, k, i));
        }
        if k == key@ {
            assert(holds_at(next, k, entries.len() as int));
        }
    }
    assert forall|k: Seq<char>| #[trigger] table_of(next).contains_key(k) implies table_of(next)[k]
        == table_of(entries).insert(key@, value)[k] by {
        let i = choose|i: int| holds_at(next, k, i);
        lemma_table_entry(next, i);
        if i < entries.len() {
            assert(holds_at(entries, k, i));
            lemma_table_entry(entries, i);
        }
    }
    assert(table_of(next) =~= table_of(entries).insert(key@, value));
}

/// Replacing the value of an entry replaces it in the table.
pub proof fn lemma_table_update<V>(entries: Seq<(String, V)>, i: int, key: String, value: V)
    requires
        distinct_keys(entries),
        0 <= i < entries.len(),
        entries[i].0@ == key@,
    ensures
        distinct_keys(entries.update(i, (key, value))),
        table_of(entries.update(i, (key, value))) == table_of(entries).insert(key@, value),
{
    let next = entries.update(i, (key, value));
    assert forall|a: int, b: int| 0 <= a < b < next.len() implies (#[trigger] next[a]).0@ != (
    #[trigger] next[b]).0@ by {
        assert(entries[a].0@ != entries[b].0@);
    }
    assert forall|k: Seq<char>| #[trigger]
        table_of(next).contains_key(k) == table_of(entries).insert(key@, value).contains_key(
            k,
        ) by {
        if exists|j: int| holds_at(next, k, j) {
            let j = choose|j: int| holds_at(next, k, j);
            assert(holds_at(entries, k, j));
        }
        if exists|j: int| holds_at(entries, k, j) {
            let j = choose|j: int| holds_at(entries, k, j);
            assert(holds_at(next, k, j));
        }
        if k == key@ {
            assert(holds_at(next, k, i));
        }
    }
    assert forall|k: Seq<char>| #[trigger] table_of(next).contains_key(k) implies table_of(next)[k]
        == table_of(entries).insert(key@, value)[k] by {
        let j = choose|j: int| holds_at(next, k, j);
        lemma_table_entry(next, j);
        if j != i {
            assert(holds_at(entries, k, j));
            lemma_table_entry(entries, j);
            assert(entries[j].0@ != entries[i].0@);
        }
    }
    assert(table_of(next) =~= table_of(entries).insert(key@, value));
}

impl<V> View for Directory<V> {
    type V = Map<Seq<char>, V>;

    closed spec fn view(&self) -> Map<Seq<char>, V> {
        table_of(self.entries@)
    }
}

impl<V> Directory<V> {
    /// No name occurs twice.
    pub closed spec fn wf(&self) -> bool {
        distinct_keys(self.entries@)
    }

    /// An empty directory.
    pub fn new() -> (directory: Directory<V>)
        ensures
            directory.wf(),
            directory@ == Map::<Seq<char>, V>::empty(),
    {
        let directory = Directory { entries: Vec::new() };
        assert(directory@ =~= Map::<Seq<char>, V>::empty());
        directory
    }

    /// The index of the entry under `key`, if there is one.
    fn position(&self, key: &String) -> (found: Option<usize>)
        requires
            self.wf(),
        ensures
            match found {
                Some(i) => holds_at(self.entries@, key@, i as int) && self@.contains_key(key@)
                    && self@[key@] == self.entries@[i as int].1,
                None => !self@.contains_key(key@),
            },
    {
        let mut i: usize = 0;
        while i < self.entries.len()
            invariant
                i <= self.entries@.len(),
                self.wf(),
                forall|j: int| 0 <= j < i ==> !holds_at(self.entries@, key@, j),
            decreases self.entries@.len() - i,
        {
            if self.entries[i].0 == *key {
                proof {
                    lemma_table_entry(self.entries@, i as int);
                }
                return Some(i);
            }
            i += 1;
        }
        None
    }

    /// How many names the directory holds.
    pub fn len(&self) -> (count: usize)
        ensures
            count == self.entry_count(),
    {
        self.entries.len()
    }

    /// The number of entries.
    pub closed spec fn entry_count(&self) -> nat {
        self.entries@.len()
    }

    /// Whether the directory holds `key`.
    pub fn contains_key(&self, key: &String) -> (found: bool)
        requires
            self.wf(),
        ensures
            found == self@.contains_key(key@),
    {
        self.position(key).is_some()
    }

    /// The value under `key`, if the directory holds it.
    pub fn get(&self, key: &String) -> (value: Option<&V>)
        requires
            self.wf(),
        ensures
            match value {
                Some(v) => self@.contains_key(key@) && *v == self@[key@],
                None => !self@.contains_key(key@),
            },
    {
        match self.position(key) {
            Some(i) => Some(&self.entries[i].1),
            None => None,
        }
    }

    /// Puts `value` under `key`, in place of what was there.
    pub fn insert(&mut self, key: String, value: V)
        requires
            old(self).wf(),
        ensures
            final(self).wf(),
            final(self)@ == old(self)@.insert(key@, value),
    {
        match self.position(&key) {
            Some(i) => {
                proof {
                    lemma_table_update(self.entries@, i as int, key, value);
                }
                self.entries.set(i, (key, value));
            },
            None => {
                proof {
                    lemma_table_push(self.entries@, key, value);
                }
                self.entries.push((key, value));
            },
        }
    }

    /// Puts `value` under `key` unless the directory holds `key` already,
    /// and says whether it did put it.
    pub fn insert_if_absent(&mut self, key: String, value: V) -> (inserted: bool)
        requires
            old(self).wf(),
        ensures
            final(self).wf(),
            inserted == !old(self)@.contains_key(key@),
            inserted ==> final(self)@ == old(self)@.insert(key@, value),
            !inserted ==> final(self)@ == old(self)@,
    {
        match self.position(&key) {
            Some(_) => false,
            None => {
                proof {
                    lemma_table_push(self.entries@, key, value);
                }
                self.entries.push((key, value));
                true
            },
        }
    }
}

impl PublicIdentity {
    /// A copy of the identity.
    pub fn duplicate(&self) -> (copy: PublicIdentity)
        ensures
            copy == *self,
    {
        PublicIdentity {
            username: self.username.clone(),
            public_key: self.public_key.clone(),
            signature: self.signature.clone(),
            timestamp: self.timestamp,
        }
    }
}

impl PeerPresence {
    /// A copy of the presence.
    pub fn duplicate(&self) -> (copy: PeerPresence)
        ensures
            copy == *self,
    {
        PeerPresence { ip: self.ip.clone(), port: self.port, timestamp: self.timestamp }
    }

    /// Whether the peer announced itself less than `PRESENCE_TTL_SECS`
    /// seconds before `now`. An announcement from after `now` counts as
    /// fresh.
    pub open spec fn is_fresh(self, now: u64) -> bool {
        now <= self.timestamp || now - self.timestamp < PRESENCE_TTL_SECS
    }

    /// Whether the peer is fresh at `now`, decided at run time.
    pub fn fresh_at(&self, now: u64) -> (fresh: bool)
        ensures
            fresh == self.is_fresh(now),
    {
        now <= self.timestamp || now - self.timestamp < PRESENCE_TTL_SECS
    }
}

/// The entries of `entries` whose peer is fresh at `now`, in their order.
pub open spec fn fresh_entries(entries: Seq<(String, PeerPresence)>, now: u64) -> Seq<
    (String, PeerPresence),
>
    decreases entries.len(),
{
    if entries.len() == 0 {
        entries
    } else {
        let rest = fresh_entries(entries.drop_last(), now);
        if entries.last().1.is_fresh(now) {
            rest.push(entries.last())
        } else {
            rest
        }
    }
}

/// The peers of `peers` that are fresh at `now`.
pub open spec fn fresh_peers(peers: Map<Seq<char>, PeerPresence>, now: u64) -> Map<
    Seq<char>,
    PeerPresence,
> {
    Map::new(|ip: Seq<char>| peers.contains_key(ip) && peers[ip].is_fresh(now), |ip: Seq<char>| peers[ip])
}

/// The users after the identities of `incoming` were merged in, first to
/// last: an identity is taken where its name is not known yet, and dropped
/// where it is.
pub open spec fn merged_users(
    users: Map<Seq<char>, PublicIdentity>,
    incoming: Seq<(String, PublicIdentity)>,
) -> Map<Seq<char>, PublicIdentity>
    decreases incoming.len(),
{
    if incoming.len() == 0 {
        users
    } else {
        let first = incoming.first();
        let next = if users.contains_key(first.0@) {
            users
        } else {
            users.insert(first.0@, first.1)
        };
        merged_users(next, incoming.drop_first())
    }
}

/// Dropping the stale entries of a list with distinct names leaves a list
/// with distinct names, which stands for the fresh peers of the table.
pub proof fn lemma_fresh_entries(entries: Seq<(String, PeerPresence)>, now: u64)
    requires
        distinct_keys(entries),
    ensures
        distinct_keys(fresh_entries(entries, now)),
        table_of(fresh_entries(entries, now)) == fresh_peers(table_of(entries), now),
    decreases entries.len(),
{
    if entries.len() == 0 {
        assert(table_of(fresh_entries(entries, now)) =~= fresh_peers(table_of(entries), now));
    } else {
        let head = entries.drop_last();
        let last = entries.last();
        assert forall|i: int, j: int| 0 <= i < j < head.len() implies (#[trigger] head[i]).0@ != (
        #[trigger] head[j]).0@ by {
            assert(entries[i].0@ != entries[j].0@);
        }
        lemma_fresh_entries(head, now);
        assert(!table_of(head).contains_key(last.0@)) by {
            if exists|i: int| holds_at(head, last.0@, i) {
                let i = choose|i: int| holds_at(head, last.0@, i);
                assert(entries[i].0@ != entries[entries.len() - 1].0@);
            }
        }
        lemma_table_push(head, last.0, last.1);
        assert(head.push((last.0, last.1)) =~= entries);
        if last.1.is_fresh(now) {
            lemma_table_push(fresh_entries(head, now), last.0, last.1);
            assert(fresh_entries(head, now).push((last.0, last.1)) =~= fresh_entries(
                entries,
                now,
            ));
            assert(fresh_peers(table_of(head), now).insert(last.0@, last.1) =~= fresh_peers(
                table_of(head).insert(last.0@, last.1),
                now,
            ));
        } else {
            assert(fresh_peers(table_of(head), now) =~= fresh_peers(
                table_of(head).insert(last.0@, last.1),
                now,
            ));
        }
    }
}

/// What a directory node knows.
pub struct AppState {
    /// The registered identities, by user name.
    pub known_users: Directory<PublicIdentity>,
    /// The peers that announced themselves, by address.
    pub active_peers: Directory<PeerPresence>,
    /// The other nodes this node knows.
    pub known_nodes: Vec<String>,
}

impl AppState {
    /// Both directories hold each name once.
    pub open spec fn wf(&self) -> bool {
        self.known_users.wf() && self.active_peers.wf()
    }

    /// A node that knows the given nodes, and no user or peer yet.
    pub fn new(initial_nodes: Vec<String>) -> (state: AppState)
        ensures
            state.wf(),
            state.known_users@ == Map::<Seq<char>, PublicIdentity>::empty(),
            state.active_peers@ == Map::<Seq<char>, PeerPresence>::empty(),
            state.known_nodes@ == initial_nodes@,
    {
        AppState {
            known_users: Directory::new(),
            active_peers: Directory::new(),
            known_nodes: initial_nodes,
        }
    }

    /// Registers an identity under its user name, unless the name is taken.
    /// Returns whether the identity was registered; a taken name changes
    /// nothing.
    pub fn register(&mut self, info: PublicIdentity) -> (registered: bool)
        requires
            old(self).wf(),
        ensures
            final(self).wf(),
            registered == !old(self).known_users@.contains_key(info.username@),
            registered ==> final(self).known_users@ == old(self).known_users@.insert(
                info.username@,
                info,
            ),
            !registered ==> final(self).known_users@ == old(self).known_users@,
            final(self).active_peers@ == old(self).active_peers@,
            final(self).known_nodes@ == old(self).known_nodes@,
    {
        let username = info.username.clone();
        self.known_users.insert_if_absent(username, info)
    }

    /// The identity registered under `username`, if there is one.
    pub fn resolve(&self, username: &String) -> (identity: Option<&PublicIdentity>)
        requires
            self.wf(),
        ensures
            match identity {
                Some(found) => self.known_users@.contains_key(username@) && *found
                    == self.known_users@[username@],
                None => !self.known_users@.contains_key(username@),
            },
    {
        self.known_users.get(username)
    }

    /// Whether an identity is registered under `username`.
    pub fn check_user(&self, username: &String) -> (exists: bool)
        requires
            self.wf(),
        ensures
            exists == self.known_users@.contains_key(username@),
    {
        self.known_users.contains_key(username)
    }

    /// Lists a peer under its address, in place of an earlier announcement
    /// from the same address.
    pub fn announce(&mut self, info: PeerPresence)
        requires
            old(self).wf(),
        ensures
            final(self).wf(),
            final(self).active_peers@ == old(self).active_peers@.insert(info.ip@, info),
            final(self).known_users@ == old(self).known_users@,
            final(self).known_nodes@ == old(self).known_nodes@,
    {
        let ip = info.ip.clone();
        self.active_peers.insert(ip, info);
    }

    /// Merges identities that another node sent, each under the name it was
    /// sent under. Names that are known already keep their identity.
    pub fn sync(&mut self, incoming: &[(String, PublicIdentity)])
        requires
            old(self).wf(),
        ensures
            final(self).wf(),
            final(self).known_users@ == merged_users(old(self).known_users@, incoming@),
            final(self).active_peers@ == old(self).active_peers@,
            final(self).known_nodes@ == old(self).known_nodes@,
    {
        let mut i: usize = 0;
        proof {
            assert(incoming@.subrange(0, incoming@.len() as int) =~= incoming@);
        }
        while i < incoming.len()
            invariant
                i <= incoming@.len(),
                self.wf(),
                self.active_peers@ == old(self).active_peers@,
                self.known_nodes@ == old(self).known_nodes@,
                merged_users(old(self).known_users@, incoming@) == merged_users(
                    self.known_users@,
                    incoming@.subrange(i as int, incoming@.len() as int),
                ),
            decreases incoming@.len() - i,
        {
            let ghost rest = incoming@.subrange(i as int, incoming@.len() as int);
            proof {
                assert(rest.first() == incoming@[i as int]);
                assert(rest.drop_first() =~= incoming@.subrange(i + 1, incoming@.len() as int));
            }
            let name = incoming[i].0.clone();
            let identity = incoming[i].1.duplicate();
            self.known_users.insert_if_absent(name, identity);
            i += 1;
        }
    }

    /// The nodes this node knows.
    pub fn nodes(&self) -> (list: Vec<String>)
        ensures
            list@ == self.known_nodes@,
    {
        let mut list: Vec<String> = Vec::new();
        let mut i: usize = 0;
        while i < self.known_nodes.len()
            invariant
                i <= self.known_nodes@.len(),
                list@ == self.known_nodes@.subrange(0, i as int),
            decreases self.known_nodes@.len() - i,
        {
            list.push(self.known_nodes[i].clone());
            proof {
                assert(list@ =~= self.known_nodes@.subrange(0, i + 1));
            }
            i += 1;
        }
        proof {
            assert(list@ =~= self.known_nodes@);
        }
        list
    }

    /// Drops the peers whose announcement is `PRESENCE_TTL_SECS` seconds
    /// old or older at `now`.
    pub fn expire_peers(&mut self, now: u64)
        requires
            old(self).wf(),
        ensures
            final(self).wf(),
            final(self).active_peers@ == fresh_peers(old(self).active_peers@, now),
            final(self).known_users@ == old(self).known_users@,
            final(self).known_nodes@ == old(self).known_nodes@,
    {
        let mut kept: Vec<(String, PeerPresence)> = Vec::new();
        let mut i: usize = 0;
        proof {
            assert(self.active_peers.entries@.subrange(0, 0) =~= Seq::<
                (String, PeerPresence),
            >::empty());
        }
        while i < self.active_peers.entries.len()
            invariant
                i <= self.active_peers.entries@.len(),
                self == old(self),
                kept@ == fresh_entries(self.active_peers.entries@.subrange(0, i as int), now),
            decreases self.active_peers.entries@.len() - i,
        {
            let ghost prefix = self.active_peers.entries@.subrange(0, i + 1);
            proof {
                assert(prefix.drop_last() =~= self.active_peers.entries@.subrange(0, i as int));
                assert(prefix.last() == self.active_peers.entries@[i as int]);
            }
            if self.active_peers.entries[i].1.fresh_at(now) {
                kept.push(
                    (
                        self.active_peers.entries[i].0.clone(),
                        self.active_peers.entries[i].1.duplicate(),
                    ),
                );
            }
            i += 1;
        }
        proof {
            assert(self.active_peers.entries@.subrange(0, i as int)
                =~= self.active_peers.entries@);
            lemma_fresh_entries(self.active_peers.entries@, now);
        }
        self.active_peers = Directory { entries: kept };
    }
}

} // verus!
