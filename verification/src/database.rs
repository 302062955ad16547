//! The persisted swap store: one latest state per swap id, plus the three
//! auxiliary indices, with a one-shot migration between backends.
//!
//! The store is modelled as association vectors with unique keys, viewed as
//! maps.  Inserting the latest state is an atomic overwrite of the row.

use crate::protocol::{AliceState, BobState, State};
use vstd::prelude::*;

verus! {

/// Role-tagged swap state, as a store row holds it.
#[derive(Clone, Copy, Debug, PartialEq, Eq, Structural)]
pub enum Swap {
    Alice(AliceState),
    Bob(BobState),
}

impl From<State> for Swap {
    /// Wraps a protocol state into a store row.
    fn from(state: State) -> (r: Swap) {
        match state {
            State::Alice(a) => Swap::Alice(a),
            State::Bob(b) => Swap::Bob(b),
        }
    }
}

impl vstd::std_specs::convert::FromSpecImpl<State> for Swap {
    open spec fn obeys_from_spec() -> bool {
        true
    }

    open spec fn from_spec(state: State) -> Swap {
        match state {
            State::Alice(a) => Swap::Alice(a),
            State::Bob(b) => Swap::Bob(b),
        }
    }
}

impl From<Swap> for State {
    /// Unwraps a store row back into a protocol state.
    fn from(value: Swap) -> (r: State) {
        match value {
            Swap::Alice(a) => State::Alice(a),
            Swap::Bob(b) => State::Bob(b),
        }
    }
}

impl vstd::std_specs::convert::FromSpecImpl<Swap> for State {
    open spec fn obeys_from_spec() -> bool {
        true
    }

    open spec fn from_spec(value: Swap) -> State {
        match value {
            Swap::Alice(a) => State::Alice(a),
            Swap::Bob(b) => State::Bob(b),
        }
    }
}

impl From<BobState> for Swap {
    /// Wraps Bob's state into a store row.
    fn from(state: BobState) -> (r: Swap) {
        Swap::Bob(state)
    }
}

impl vstd::std_specs::convert::FromSpecImpl<BobState> for Swap {
    open spec fn obeys_from_spec() -> bool {
        true
    }

    open spec fn from_spec(state: BobState) -> Swap {
        Swap::Bob(state)
    }
}

impl From<AliceState> for Swap {
    /// Wraps Alice's state into a store row.
    fn from(state: AliceState) -> (r: Swap) {
        Swap::Alice(state)
    }
}

impl vstd::std_specs::convert::FromSpecImpl<AliceState> for Swap {
    open spec fn obeys_from_spec() -> bool {
        true
    }

    open spec fn from_spec(state: AliceState) -> Swap {
        Swap::Alice(state)
    }
}

impl Swap {
    /// The role a row belongs to, as text.
    pub fn role_name(&self) -> (r: &'static str)
        ensures
            (*self matches Swap::Alice(_)) ==> r@ == "alice"@,
            (*self matches Swap::Bob(_)) ==> r@ == "bob"@,
    {
        match self {
            Swap::Alice(_) => "alice",
            Swap::Bob(_) => "bob",
        }
    }
}

/// The map an association vector denotes; a later entry overrides an earlier
/// one with the same key.
pub open spec fn assoc_map<V>(entries: Seq<(u128, V)>) -> Map<u128, V>
    decreases entries.len(),
{
    if entries.len() == 0 {
        Map::empty()
    } else {
        assoc_map(entries.drop_last()).insert(entries.last().0, entries.last().1)
    }
}

/// No key occurs twice.
pub open spec fn unique_keys<V>(entries: Seq<(u128, V)>) -> bool {
    forall|i: int, j: int| 0 <= i < j < entries.len() ==> entries[i].0 != entries[j].0
}

/// Characterizes the denoted map of a unique-keyed association vector.
proof fn lemma_assoc_char<V>(entries: Seq<(u128, V)>, key: u128)
    requires
        unique_keys(entries),
    ensures
        assoc_map(entries).dom().contains(key) <==> exists|i: int|
            0 <= i < entries.len() && entries[i].0 == key,
        forall|i: int| 0 <= i < entries.len() && entries[i].0 == key ==> assoc_map(entries)[key]
            == entries[i].1,
    decreases entries.len(),
{
    if entries.len() > 0 {
        let prefix = entries.drop_last();
        assert(unique_keys(prefix)) by {
            assert(forall|i: int, j: int| 0 <= i < j < prefix.len() ==> prefix[i] == entries[i]
                && prefix[j] == entries[j]);
        }
        lemma_assoc_char(prefix, key);
        let last = entries.last();
        if last.0 == key {
            assert(entries[entries.len() - 1].0 == key);
            assert(forall|i: int| 0 <= i < entries.len() - 1 ==> entries[i].0 != key);
        } else {
            assert(forall|i: int| 0 <= i < entries.len() - 1 ==> entries[i] == prefix[i]);
            assert((exists|i: int| 0 <= i < entries.len() && entries[i].0 == key) <==> (exists|
                i: int,
            | 0 <= i < prefix.len() && prefix[i].0 == key)) by {
                if exists|i: int| 0 <= i < entries.len() && entries[i].0 == key {
                    let i = choose|i: int| 0 <= i < entries.len() && entries[i].0 == key;
                    assert(i < entries.len() - 1);
                    assert(prefix[i].0 == key);
                }
            }
        }
    }
}

/// Removing the unique entry of a key removes exactly that key from the map.
proof fn lemma_assoc_remove<V>(entries: Seq<(u128, V)>, i: int)
    requires
        unique_keys(entries),
        0 <= i < entries.len(),
    ensures
        assoc_map(entries.remove(i)) == assoc_map(entries).remove(entries[i].0),
        unique_keys(entries.remove(i)),
        forall|j: int| 0 <= j < entries.len() - 1 ==> entries.remove(i)[j].0 != entries[i].0,
    decreases entries.len(),
{
    let key = entries[i].0;
    let removed = entries.remove(i);
    assert(forall|j: int| 0 <= j < removed.len() ==> removed[j] == (if j < i {
        entries[j]
    } else {
        entries[j + 1]
    }));
    assert(unique_keys(removed));
    assert(forall|j: int| 0 <= j < removed.len() ==> removed[j].0 != key);
    if i == entries.len() - 1 {
        assert(removed =~= entries.drop_last());
        let prefix = entries.drop_last();
        assert(unique_keys(prefix));
        lemma_assoc_char(prefix, key);
        assert(!assoc_map(prefix).dom().contains(key));
        assert(assoc_map(entries) == assoc_map(prefix).insert(key, entries.last().1));
        assert(assoc_map(entries).remove(key) =~= assoc_map(prefix));
    } else {
        let prefix = entries.drop_last();
        assert(unique_keys(prefix));
        lemma_assoc_remove(prefix, i);
        assert(removed.drop_last() =~= prefix.remove(i));
        assert(removed.last() == entries.last());
        let last = entries.last();
        assert(last.0 != key);
        assert(assoc_map(removed) == assoc_map(prefix).remove(key).insert(last.0, last.1));
        assert(assoc_map(prefix).remove(key).insert(last.0, last.1) =~= assoc_map(
            prefix,
        ).insert(last.0, last.1).remove(key));
    }
}

/// Looks a key up in a unique-keyed association vector.
fn assoc_get<V: Copy>(entries: &Vec<(u128, V)>, key: u128) -> (r: Option<V>)
    requires
        unique_keys(entries@),
    ensures
        r == if assoc_map(entries@).dom().contains(key) {
            Some(assoc_map(entries@)[key])
        } else {
            Option::<V>::None
        },
{
    proof {
        lemma_assoc_char(entries@, key);
    }
    let n = entries.len();
    let mut i: usize = 0;
    while i < n
        invariant
            n == entries@.len(),
            i <= n,
            unique_keys(entries@),
            assoc_map(entries@).dom().contains(key) <==> exists|k: int|
                0 <= k < entries@.len() && entries@[k].0 == key,
            forall|k: int| 0 <= k < entries@.len() && entries@[k].0 == key ==> assoc_map(
                entries@,
            )[key] == entries@[k].1,
            forall|k: int| 0 <= k < i ==> entries@[k].0 != key,
        decreases n - i,
    {
        if entries[i].0 == key {
            return Some(entries[i].1);
        }
        i = i + 1;
    }
    None
}

/// Inserts or atomically overwrites the entry of a key.
fn assoc_insert<V: Copy>(entries: &mut Vec<(u128, V)>, key: u128, value: V)
    requires
        unique_keys(old(entries)@),
    ensures
        unique_keys(final(entries)@),
        assoc_map(final(entries)@) == assoc_map(old(entries)@).insert(key, value),
{
    let n = entries.len();
    let mut i: usize = 0;
    while i < n
        invariant
            n == entries@.len(),
            i <= n,
            unique_keys(entries@),
            entries@ == old(entries)@,
            forall|k: int| 0 <= k < i ==> entries@[k].0 != key,
        decreases n - i,
    {
        if entries[i].0 == key {
            proof {
                lemma_assoc_remove(entries@, i as int);
            }
            let ghost before = entries@;
            entries.remove(i);
            entries.push((key, value));
            proof {
                assert(entries@.drop_last() =~= before.remove(i as int));
                assert(assoc_map(entries@) == assoc_map(before.remove(i as int)).insert(
                    key,
                    value,
                ));
                assert(assoc_map(before).remove(key).insert(key, value) =~= assoc_map(
                    before,
                ).insert(key, value));
                assert(forall|a: int, b: int|
                    0 <= a < b < entries@.len() ==> entries@[a].0 != entries@[b].0);
            }
            return ;
        }
        i = i + 1;
    }
    let ghost before = entries@;
    entries.push((key, value));
    proof {
        assert(entries@.drop_last() =~= before);
        assert(forall|k: int| 0 <= k < before.len() ==> before[k].0 != key);
        assert(forall|a: int, b: int|
            0 <= a < b < entries@.len() ==> entries@[a].0 != entries@[b].0);
    }
}

/// The per-peer address book, held as a (peer, address) relation.
pub open spec fn addrs_of(entries: Seq<(u128, u128)>, peer: u128) -> Seq<u128>
    decreases entries.len(),
{
    if entries.len() == 0 {
        Seq::empty()
    } else {
        addrs_of(entries.drop_last(), peer) + if entries.last().0 == peer {
            seq![entries.last().1]
        } else {
            Seq::empty()
        }
    }
}

/// The persisted swap store: the latest state per swap id and the three
/// auxiliary indices (swap id → Monero address, swap id → peer id, peer id →
/// network addresses).
pub struct Store {
    states: Vec<(u128, Swap)>,
    monero_addresses: Vec<(u128, u128)>,
    peers: Vec<(u128, u128)>,
    addresses: Vec<(u128, u128)>,
}

impl Store {
    /// Internal invariant: each keyed table has unique keys.
    pub closed spec fn wf(self) -> bool {
        unique_keys(self.states@) && unique_keys(self.monero_addresses@) && unique_keys(
            self.peers@,
        )
    }

    /// The latest-state rows as a map.
    pub closed spec fn states_map(self) -> Map<u128, Swap> {
        assoc_map(self.states@)
    }

    /// The swap id → Monero address index as a map.
    pub closed spec fn monero_address_map(self) -> Map<u128, u128> {
        assoc_map(self.monero_addresses@)
    }

    /// The swap id → peer id index as a map.
    pub closed spec fn peer_map(self) -> Map<u128, u128> {
        assoc_map(self.peers@)
    }

    /// The peer id → addresses relation.
    pub closed spec fn address_book(self) -> Seq<(u128, u128)> {
        self.addresses@
    }

    /// The listing of all rows, in insertion order.
    pub closed spec fn rows(self) -> Seq<(u128, Swap)> {
        self.states@
    }

    /// An empty store.
    pub fn new() -> (r: Store)
        ensures
            r.wf(),
            r.states_map() == Map::<u128, Swap>::empty(),
            r.monero_address_map() == Map::<u128, u128>::empty(),
            r.peer_map() == Map::<u128, u128>::empty(),
            r.address_book() == Seq::<(u128, u128)>::empty(),
            r.rows() == Seq::<(u128, Swap)>::empty(),
    {
        Store {
            states: Vec::new(),
            monero_addresses: Vec::new(),
            peers: Vec::new(),
            addresses: Vec::new(),
        }
    }

    /// Atomically overwrites the latest state row of a swap.
    pub fn insert_latest_state(&mut self, swap_id: u128, state: Swap)
        requires
            old(self).wf(),
        ensures
            final(self).wf(),
            final(self).states_map() == old(self).states_map().insert(swap_id, state),
            final(self).monero_address_map() == old(self).monero_address_map(),
            final(self).peer_map() == old(self).peer_map(),
            final(self).address_book() == old(self).address_book(),
    {
        assoc_insert(&mut self.states, swap_id, state);
    }

    /// The latest state of a swap, if the store has one.
    pub fn get_state(&self, swap_id: u128) -> (r: Option<Swap>)
        requires
            self.wf(),
        ensures
            r == if self.states_map().dom().contains(swap_id) {
                Some(self.states_map()[swap_id])
            } else {
                Option::<Swap>::None
            },
    {
        assoc_get(&self.states, swap_id)
    }

    /// All rows, in insertion order.
    pub fn all(&self) -> (r: &Vec<(u128, Swap)>)
        ensures
            r@ == self.rows(),
    {
        &self.states
    }

    /// Records the Monero redeem address of a swap.
    pub fn insert_monero_address(&mut self, swap_id: u128, address: u128)
        requires
            old(self).wf(),
        ensures
            final(self).wf(),
            final(self).monero_address_map() == old(self).monero_address_map().insert(
                swap_id,
                address,
            ),
            final(self).states_map() == old(self).states_map(),
            final(self).peer_map() == old(self).peer_map(),
            final(self).address_book() == old(self).address_book(),
    {
        assoc_insert(&mut self.monero_addresses, swap_id, address);
    }

    /// The recorded Monero address of a swap, if any.
    pub fn get_monero_address(&self, swap_id: u128) -> (r: Option<u128>)
        requires
            self.wf(),
        ensures
            r == if self.monero_address_map().dom().contains(swap_id) {
                Some(self.monero_address_map()[swap_id])
            } else {
                Option::<u128>::None
            },
    {
        assoc_get(&self.monero_addresses, swap_id)
    }

    /// Records the counterparty peer of a swap.
    pub fn insert_peer_id(&mut self, swap_id: u128, peer_id: u128)
        requires
            old(self).wf(),
        ensures
            final(self).wf(),
            final(self).peer_map() == old(self).peer_map().insert(swap_id, peer_id),
            final(self).states_map() == old(self).states_map(),
            final(self).monero_address_map() == old(self).monero_address_map(),
            final(self).address_book() == old(self).address_book(),
    {
        assoc_insert(&mut self.peers, swap_id, peer_id);
    }

    /// The recorded peer of a swap, if any.
    pub fn get_peer_id(&self, swap_id: u128) -> (r: Option<u128>)
        requires
            self.wf(),
        ensures
            r == if self.peer_map().dom().contains(swap_id) {
                Some(self.peer_map()[swap_id])
            } else {
                Option::<u128>::None
            },
    {
        assoc_get(&self.peers, swap_id)
    }

    /// Appends a network address for a peer.
    pub fn insert_address(&mut self, peer_id: u128, address: u128)
        requires
            old(self).wf(),
        ensures
            final(self).wf(),
            final(self).address_book() == old(self).address_book().push((peer_id, address)),
            final(self).states_map() == old(self).states_map(),
            final(self).monero_address_map() == old(self).monero_address_map(),
            final(self).peer_map() == old(self).peer_map(),
    {
        self.addresses.push((peer_id, address));
    }

    /// The recorded network addresses of a peer, in insertion order.
    pub fn get_addresses(&self, peer_id: u128) -> (r: Vec<u128>)
        ensures
            r@ == addrs_of(self.address_book(), peer_id),
    {
        let mut out: Vec<u128> = Vec::new();
        let n = self.addresses.len();
        let mut i: usize = 0;
        while i < n
            invariant
                n == self.addresses@.len(),
                i <= n,
                out@ == addrs_of(self.addresses@.subrange(0, i as int), peer_id),
            decreases n - i,
        {
            let entry = self.addresses[i];
            if entry.0 == peer_id {
                out.push(entry.1);
            }
            proof {
                let sub = self.addresses@.subrange(0, i + 1);
                assert(sub.drop_last() =~= self.addresses@.subrange(0, i as int));
                assert(sub.last() == self.addresses@[i as int]);
            }
            i = i + 1;
        }
        proof {
            assert(self.addresses@.subrange(0, self.addresses@.len() as int)
                =~= self.addresses@);
        }
        out
    }
}

/// Which backend `open_db` settles on.
#[derive(Clone, Copy, Debug, PartialEq, Eq, Structural)]
pub enum DbBackend {
    /// Only the legacy backend exists: migrate everything, then use the new
    /// backend.
    MigrateThenSqlite,
    /// Use the new backend.
    Sqlite,
    /// The legacy backend was explicitly requested.
    Sled,
}

/// Errors of `open_db`.
#[derive(Clone, Copy, Debug, PartialEq, Eq, Structural)]
pub enum DbError {
    /// The legacy backend was requested but does not exist.
    SledMissing,
}

/// What `open_db` decides for each situation.
pub open spec fn open_db_spec(sled_exists: bool, sqlite_exists: bool, sled_flag: bool) -> Result<
    DbBackend,
    DbError,
> {
    if sled_exists && !sqlite_exists && !sled_flag {
        Ok(DbBackend::MigrateThenSqlite)
    } else if !sled_flag {
        Ok(DbBackend::Sqlite)
    } else if !sled_exists {
        Err(DbError::SledMissing)
    } else {
        Ok(DbBackend::Sled)
    }
}

/// Chooses the backend: with only the legacy store present it is migrated
/// first; otherwise the new backend is used unless the legacy one is
/// explicitly requested, which fails if it does not exist.
pub fn open_db(sled_exists: bool, sqlite_exists: bool, sled_flag: bool) -> (r: Result<
    DbBackend,
    DbError,
>)
    ensures
        r == open_db_spec(sled_exists, sqlite_exists, sled_flag),
{
    match (sled_exists, sqlite_exists, sled_flag) {
        (true, false, false) => Ok(DbBackend::MigrateThenSqlite),
        (_, _, false) => Ok(DbBackend::Sqlite),
        (false, _, true) => Err(DbError::SledMissing),
        (true, _, true) => Ok(DbBackend::Sled),
    }
}

/// Copies every row and every index of the legacy store into a fresh store,
/// as the one-shot migration does; the result denotes the same data.
pub fn migrate(source: &Store) -> (r: Store)
    requires
        source.wf(),
    ensures
        r.wf(),
        r.rows() == source.rows(),
        r.states_map() == source.states_map(),
        r.monero_address_map() == source.monero_address_map(),
        r.peer_map() == source.peer_map(),
        r.address_book() == source.address_book(),
{
    let mut target = Store {
        states: Vec::new(),
        monero_addresses: Vec::new(),
        peers: Vec::new(),
        addresses: Vec::new(),
    };
    let n = source.states.len();
    let mut i: usize = 0;
    while i < n
        invariant
            n == source.states@.len(),
            i <= n,
            target.states@ == source.states@.subrange(0, i as int),
            target.monero_addresses@.len() == 0,
            target.peers@.len() == 0,
            target.addresses@.len() == 0,
        decreases n - i,
    {
        let row = source.states[i];
        target.states.push(row);
        proof {
            assert(source.states@.subrange(0, i + 1) =~= source.states@.subrange(0, i as int)
                + seq![source.states@[i as int]]);
        }
        i = i + 1;
    }
    let n = source.monero_addresses.len();
    let mut i: usize = 0;
    while i < n
        invariant
            n == source.monero_addresses@.len(),
            i <= n,
            target.states@ == source.states@,
            target.monero_addresses@ == source.monero_addresses@.subrange(0, i as int),
            target.peers@.len() == 0,
            target.addresses@.len() == 0,
        decreases n - i,
    {
        let row = source.monero_addresses[i];
        target.monero_addresses.push(row);
        proof {
            assert(source.monero_addresses@.subrange(0, i + 1)
                =~= source.monero_addresses@.subrange(0, i as int)
                + seq![source.monero_addresses@[i as int]]);
        }
        i = i + 1;
    }
    let n = source.peers.len();
    let mut i: usize = 0;
    while i < n
        invariant
            n == source.peers@.len(),
            i <= n,
            target.states@ == source.states@,
            target.monero_addresses@ == source.monero_addresses@,
            target.peers@ == source.peers@.subrange(0, i as int),
            target.addresses@.len() == 0,
        decreases n - i,
    {
        let row = source.peers[i];
        target.peers.push(row);
        proof {
            assert(source.peers@.subrange(0, i + 1) =~= source.peers@.subrange(0, i as int)
                + seq![source.peers@[i as int]]);
        }
        i = i + 1;
    }
    let n = source.addresses.len();
    let mut i: usize = 0;
    while i < n
        invariant
            n == source.addresses@.len(),
            i <= n,
            target.states@ == source.states@,
            target.monero_addresses@ == source.monero_addresses@,
            target.peers@ == source.peers@,
            target.addresses@ == source.addresses@.subrange(0, i as int),
        decreases n - i,
    {
        let row = source.addresses[i];
        target.addresses.push(row);
        proof {
            assert(source.addresses@.subrange(0, i + 1)
                =~= source.addresses@.subrange(0, i as int)
                + seq![source.addresses@[i as int]]);
        }
        i = i + 1;
    }
    proof {
        assert(source.states@.subrange(0, source.states@.len() as int) =~= source.states@);
        assert(source.monero_addresses@.subrange(0, source.monero_addresses@.len() as int)
            =~= source.monero_addresses@);
        assert(source.peers@.subrange(0, source.peers@.len() as int) =~= source.peers@);
        assert(source.addresses@.subrange(0, source.addresses@.len() as int)
            =~= source.addresses@);
    }
    target
}

/// Executes one step of Bob's machine against the store: reads the latest
/// state, applies the event, and persists the successor before any outward
/// effect.  Swaps the store does not know, or that belong to Alice, are left
/// untouched.
pub fn resume_bob(store: &mut Store, swap_id: u128, event: &crate::protocol::BobEvent) -> (r:
    Option<BobState>)
    requires
        old(store).wf(),
    ensures
        final(store).wf(),
        match old(store).states_map().dom().contains(swap_id) {
            true => match old(store).states_map()[swap_id] {
                Swap::Bob(s) => {
                    let next = crate::protocol::bob_step(s, *event);
                    r == Some(next) && final(store).states_map() == old(
                        store,
                    ).states_map().insert(swap_id, Swap::Bob(next))
                },
                Swap::Alice(_) => r is None && final(store).states_map() == old(
                    store,
                ).states_map(),
            },
            false => r is None && final(store).states_map() == old(store).states_map(),
        },
        final(store).monero_address_map() == old(store).monero_address_map(),
        final(store).peer_map() == old(store).peer_map(),
        final(store).address_book() == old(store).address_book(),
{
    let current = store.get_state(swap_id);
    match current {
        Some(Swap::Bob(s)) => {
            let next = crate::protocol::bob_next_state(&s, event);
            store.insert_latest_state(swap_id, Swap::Bob(next));
            Some(next)
        },
        _ => None,
    }
}

/// Persistence idempotence: one step is persisted, the process crashes before
/// the following effect, and the swap is resumed with the same observed
/// event; the persisted successor is the same as in a crash-free run, because
/// replaying the event on the persisted successor changes nothing.
pub proof fn lemma_persistence_idempotent(
    m: Map<u128, Swap>,
    swap_id: u128,
    s: BobState,
    e: crate::protocol::BobEvent,
)
    ensures
        ({
            let next = crate::protocol::bob_step(s, e);
            let persisted = m.insert(swap_id, Swap::Bob(next));
            persisted.insert(swap_id, Swap::Bob(crate::protocol::bob_step(next, e)))
                == persisted
        }),
{
    let next = crate::protocol::bob_step(s, e);
    crate::protocol::lemma_bob_resume_idempotent(s, e);
    let persisted = m.insert(swap_id, Swap::Bob(next));
    assert(persisted.insert(swap_id, Swap::Bob(next)) =~= persisted);
}

/// Executes one step of Alice's machine against the store, as `resume_bob`
/// does for Bob.
pub fn resume_alice(store: &mut Store, swap_id: u128, event: &crate::protocol::AliceEvent) -> (r:
    Option<AliceState>)
    requires
        old(store).wf(),
    ensures
        final(store).wf(),
        match old(store).states_map().dom().contains(swap_id) {
            true => match old(store).states_map()[swap_id] {
                Swap::Alice(s) => {
                    let next = crate::protocol::alice_step(s, *event);
                    r == Some(next) && final(store).states_map() == old(
                        store,
                    ).states_map().insert(swap_id, Swap::Alice(next))
                },
                Swap::Bob(_) => r is None && final(store).states_map() == old(
                    store,
                ).states_map(),
            },
            false => r is None && final(store).states_map() == old(store).states_map(),
        },
        final(store).monero_address_map() == old(store).monero_address_map(),
        final(store).peer_map() == old(store).peer_map(),
        final(store).address_book() == old(store).address_book(),
{
    let current = store.get_state(swap_id);
    match current {
        Some(Swap::Alice(s)) => {
            let next = crate::protocol::alice_next_state(&s, event);
            store.insert_latest_state(swap_id, Swap::Alice(next));
            Some(next)
        },
        _ => None,
    }
}

/// Persistence idempotence on Alice's side.
pub proof fn lemma_persistence_idempotent_alice(
    m: Map<u128, Swap>,
    swap_id: u128,
    s: AliceState,
    e: crate::protocol::AliceEvent,
)
    ensures
        ({
            let next = crate::protocol::alice_step(s, e);
            let persisted = m.insert(swap_id, Swap::Alice(next));
            persisted.insert(swap_id, Swap::Alice(crate::protocol::alice_step(next, e)))
                == persisted
        }),
{
    let next = crate::protocol::alice_step(s, e);
    crate::protocol::lemma_alice_resume_idempotent(s, e);
    let persisted = m.insert(swap_id, Swap::Alice(next));
    assert(persisted.insert(swap_id, Swap::Alice(next)) =~= persisted);
}

} // verus!
