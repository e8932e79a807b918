//! The state behind the effects that the router may use: logical time, an order of events, byte
//! storage and a log of route events.

use crate::bridge::{tick_after, BleBridgeTickSource};
use crate::identity::{bytes_equal, bytes_to_vec, OrderStamp, Tick};
use vstd::prelude::*;

verus! {

/// `jacquard_core::RouteEventStamped`: an event of the router, which is kept and never looked into.
#[verifier::external_type_specification]
#[verifier::external_body]
pub struct ExRouteEventStamped(jacquard_core::RouteEventStamped);

/// An entry of a [`ByteStore`].
#[derive(Debug)]
pub struct StoredBytes {
    pub key: Vec<u8>,
    pub value: Vec<u8>,
}

/// Byte strings stored under byte strings.
#[derive(Debug)]
pub struct ByteStore {
    entries: Vec<StoredBytes>,
}

impl View for ByteStore {
    type V = Map<Seq<u8>, Seq<u8>>;

    closed spec fn view(&self) -> Map<Seq<u8>, Seq<u8>> {
        Map::new(
            |key: Seq<u8>| exists|i: int| holds_at(self.entries@, key, i),
            |key: Seq<u8>|
                self.entries@[choose|i: int| holds_at(self.entries@, key, i)].value@,
        )
    }
}

/// Whether an entry has a key.
spec fn holds_at(entries: Seq<StoredBytes>, key: Seq<u8>, i: int) -> bool {
    0 <= i < entries.len() && entries[i].key@ == key
}

impl ByteStore {
    /// No key is stored twice.
    pub closed spec fn wf(&self) -> bool {
        forall|i: int, j: int|
            0 <= i < j < self.entries@.len() ==> self.entries@[i].key@ != self.entries@[j].key@
    }

    /// What is stored under the key of an entry is the value of that entry.
    proof fn lemma_at(&self, i: int)
        requires
            self.wf(),
            0 <= i < self.entries@.len(),
        ensures
            self@.contains_key(self.entries@[i].key@),
            self@[self.entries@[i].key@] == self.entries@[i].value@,
    {
        let key = self.entries@[i].key@;
        assert(holds_at(self.entries@, key, i));
        let j = choose|j: int| holds_at(self.entries@, key, j);
        assert(holds_at(self.entries@, key, j));
        assert(i == j) by {
            if i < j {
                assert(self.entries@[i].key@ != self.entries@[j].key@);
            } else if j < i {
                assert(self.entries@[j].key@ != self.entries@[i].key@);
            }
        }
    }

    /// Nothing is stored.
    pub fn new() -> (store: Self)
        ensures
            store.wf(),
            store@ == Map::<Seq<u8>, Seq<u8>>::empty(),
    {
        let store = ByteStore { entries: Vec::new() };
        assert(store@ =~= Map::<Seq<u8>, Seq<u8>>::empty());
        store
    }

    fn position(&self, key: &[u8]) -> (found: Option<usize>)
        requires
            self.wf(),
        ensures
            match found {
                Some(i) => i < self.entries@.len() && self.entries@[i as int].key@ == key@
                    && self@.contains_key(key@) && self@[key@] == self.entries@[i as int].value@,
                None => !self@.contains_key(key@) && forall|i: int|
                    0 <= i < self.entries@.len() ==> (#[trigger] self.entries@[i]).key@ != key@,
            },
    {
        let mut i: usize = 0;
        while i < self.entries.len()
            invariant
                self.wf(),
                i <= self.entries@.len(),
                forall|j: int| 0 <= j < i ==> (#[trigger] self.entries@[j]).key@ != key@,
            decreases self.entries@.len() - i,
        {
            if bytes_equal(self.entries[i].key.as_slice(), key) {
                proof {
                    self.lemma_at(i as int);
                }
                return Some(i);
            }
            i = i + 1;
        }
        None
    }

    /// What is stored under a key.
    pub fn load(&self, key: &[u8]) -> (value: Option<Vec<u8>>)
        requires
            self.wf(),
        ensures
            match value {
                Some(value) => self@.contains_key(key@) && value@ == self@[key@],
                None => !self@.contains_key(key@),
            },
    {
        match self.position(key) {
            Some(i) => Some(bytes_to_vec(self.entries[i].value.as_slice())),
            None => None,
        }
    }

    /// Forgets what is stored under a key.
    pub fn remove(&mut self, key: &[u8])
        requires
            old(self).wf(),
        ensures
            final(self).wf(),
            final(self)@ == old(self)@.remove(key@),
    {
        let ghost before = *self;
        if let Some(i) = self.position(key) {
            let _ = self.entries.remove(i);
            proof {
                let at = |j: int|
                    if j < i {
                        j
                    } else {
                        j + 1
                    };
                assert forall|j: int| 0 <= j < self.entries@.len() implies #[trigger] self.entries@[j]
                    == before.entries@[at(j)] by {}
                assert(self.wf()) by {
                    assert forall|a: int, b: int| 0 <= a < b < self.entries@.len() implies self.entries@[a].key@
                        != self.entries@[b].key@ by {
                        assert(self.entries@[a] == before.entries@[at(a)]);
                        assert(self.entries@[b] == before.entries@[at(b)]);
                    }
                }
                assert forall|k: Seq<u8>| #[trigger] self@.contains_key(k) implies k != key@
                    && before@.contains_key(k) && self@[k] == before@[k] by {
                    let j = choose|j: int| holds_at(self.entries@, k, j);
                    assert(holds_at(self.entries@, k, j));
                    assert(self.entries@[j] == before.entries@[at(j)]);
                    self.lemma_at(j);
                    before.lemma_at(at(j));
                    if at(j) < i {
                        assert(before.entries@[at(j)].key@ != before.entries@[i as int].key@);
                    } else {
                        assert(before.entries@[i as int].key@ != before.entries@[at(j)].key@);
                    }
                }
                assert forall|k: Seq<u8>| before@.contains_key(k) && k != key@ implies #[trigger] self@.contains_key(
                    k,
                ) by {
                    let j = choose|j: int| holds_at(before.entries@, k, j);
                    assert(holds_at(before.entries@, k, j));
                    let moved = if j < i {
                        j
                    } else {
                        j - 1
                    };
                    assert(self.entries@[moved] == before.entries@[at(moved)]);
                    self.lemma_at(moved);
                }
            }
        }
        assert(self@ =~= before@.remove(key@));
    }

    /// Stores a value under a key, in place of what was there.
    pub fn store(&mut self, key: &[u8], value: &[u8])
        requires
            old(self).wf(),
        ensures
            final(self).wf(),
            final(self)@ == old(self)@.insert(key@, value@),
    {
        let ghost first = *self;
        self.remove(key);
        let ghost before = *self;
        self.entries.push(StoredBytes { key: bytes_to_vec(key), value: bytes_to_vec(value) });
        proof {
            let last = before.entries@.len() as int;
            assert forall|i: int| 0 <= i < last implies #[trigger] before.entries@[i].key@ != key@ by {
                before.lemma_at(i);
            }
            assert forall|i: int| 0 <= i < last implies #[trigger] self.entries@[i]
                == before.entries@[i] by {}
            assert(self.wf()) by {
                assert forall|a: int, b: int| 0 <= a < b < self.entries@.len() implies self.entries@[a].key@
                    != self.entries@[b].key@ by {
                    assert(self.entries@[a] == before.entries@[a]);
                    if b < last {
                        assert(self.entries@[b] == before.entries@[b]);
                    }
                }
            }
            self.lemma_at(last);
            assert forall|k: Seq<u8>| #[trigger] self@.contains_key(k) && k != key@ implies before@.contains_key(
                k,
            ) && self@[k] == before@[k] by {
                let j = choose|j: int| holds_at(self.entries@, k, j);
                assert(holds_at(self.entries@, k, j));
                assert(self.entries@[j] == before.entries@[j]);
                self.lemma_at(j);
                before.lemma_at(j);
            }
            assert forall|k: Seq<u8>| before@.contains_key(k) implies #[trigger] self@.contains_key(
                k,
            ) by {
                let j = choose|j: int| holds_at(before.entries@, k, j);
                assert(holds_at(before.entries@, k, j));
                assert(self.entries@[j] == before.entries@[j]);
                self.lemma_at(j);
            }
            assert(self@ =~= first@.insert(key@, value@));
        }
    }
}

/// The state that the effects of a client share.
#[derive(Debug)]
pub struct BleRuntimeState {
    pub now_tick: Tick,
    pub next_tick: Tick,
    pub next_order: u64,
    pub storage: ByteStore,
    pub events: Vec<jacquard_core::RouteEventStamped>,
}

/// Where a client's time starts unless something else is said.
pub const DEFAULT_INITIAL_TICK: u64 = 1;

impl BleRuntimeState {
    pub open spec fn wf(&self) -> bool {
        self.storage.wf()
    }

    /// The state at the start of time.
    pub fn new(initial_tick: Tick) -> (state: Self)
        ensures
            state.wf(),
            state.now_tick == initial_tick,
            state.next_tick == initial_tick,
            state.next_order == 0,
            state.storage@ == Map::<Seq<u8>, Seq<u8>>::empty(),
            state.events@.len() == 0,
    {
        BleRuntimeState {
            now_tick: initial_tick,
            next_tick: initial_tick,
            next_order: 0,
            storage: ByteStore::new(),
            events: Vec::new(),
        }
    }

    /// The tick of the round that is under way.
    pub fn now_tick(&self) -> (tick: Tick)
        ensures
            tick == self.now_tick,
    {
        self.now_tick
    }

    /// The next place in the order of events. Places are used up one after the other; the last one
    /// is given again and again.
    pub fn next_order_stamp(&mut self) -> (stamp: OrderStamp)
        ensures
            stamp.0 == (if old(self).next_order < u64::MAX {
                old(self).next_order + 1
            } else {
                u64::MAX as int
            }),
            final(self).next_order == stamp.0,
            final(self).now_tick == old(self).now_tick,
            final(self).next_tick == old(self).next_tick,
            final(self).storage == old(self).storage,
            final(self).events == old(self).events,
    {
        self.next_order = self.next_order.saturating_add(1);
        OrderStamp(self.next_order)
    }

    /// What is stored under a key.
    pub fn load_bytes(&self, key: &[u8]) -> (value: Option<Vec<u8>>)
        requires
            self.wf(),
        ensures
            match value {
                Some(value) => self.storage@.contains_key(key@) && value@ == self.storage@[key@],
                None => !self.storage@.contains_key(key@),
            },
    {
        self.storage.load(key)
    }

    /// Stores a value under a key.
    pub fn store_bytes(&mut self, key: &[u8], value: &[u8])
        requires
            old(self).wf(),
        ensures
            final(self).wf(),
            final(self).storage@ == old(self).storage@.insert(key@, value@),
            final(self).now_tick == old(self).now_tick,
            final(self).next_tick == old(self).next_tick,
            final(self).next_order == old(self).next_order,
            final(self).events == old(self).events,
    {
        self.storage.store(key, value);
    }

    /// Forgets what is stored under a key.
    pub fn remove_bytes(&mut self, key: &[u8])
        requires
            old(self).wf(),
        ensures
            final(self).wf(),
            final(self).storage@ == old(self).storage@.remove(key@),
            final(self).now_tick == old(self).now_tick,
            final(self).next_tick == old(self).next_tick,
            final(self).next_order == old(self).next_order,
            final(self).events == old(self).events,
    {
        self.storage.remove(key);
    }

    /// Appends an event to the log.
    pub fn record_route_event(&mut self, event: jacquard_core::RouteEventStamped)
        ensures
            final(self).events@ == old(self).events@.push(event),
            final(self).storage == old(self).storage,
            final(self).now_tick == old(self).now_tick,
            final(self).next_tick == old(self).next_tick,
            final(self).next_order == old(self).next_order,
    {
        self.events.push(event);
    }
}

impl Default for BleRuntimeState {
    fn default() -> (state: Self)
        ensures
            state.wf(),
            state.now_tick.0 == DEFAULT_INITIAL_TICK,
            state.next_tick.0 == DEFAULT_INITIAL_TICK,
            state.next_order == 0,
            state.storage@ == Map::<Seq<u8>, Seq<u8>>::empty(),
            state.events@.len() == 0,
    {
        BleRuntimeState::new(Tick(DEFAULT_INITIAL_TICK))
    }
}

impl BleBridgeTickSource for BleRuntimeState {
    open spec fn ticks(before: Self, after: Self, tick: Tick) -> bool {
        &&& tick == before.next_tick
        &&& after.now_tick == before.next_tick
        &&& after.next_tick == tick_after(before.next_tick)
        &&& after.next_order == before.next_order
        &&& after.storage == before.storage
        &&& after.events == before.events
    }

    fn advance_tick(&mut self) -> (tick: Tick) {
        self.now_tick = self.next_tick;
        self.next_tick = Tick(self.next_tick.0.saturating_add(1));
        self.now_tick
    }
}

/// A read gives back what was last written under its key, whatever happened to other keys, and
/// nothing once the key was removed.
pub proof fn law_read_gives_back_the_last_write(
    stored: Map<Seq<u8>, Seq<u8>>,
    key: Seq<u8>,
    value: Seq<u8>,
    other: Seq<u8>,
    other_value: Seq<u8>,
)
    requires
        other != key,
    ensures
        stored.insert(key, value)[key] == value,
        stored.insert(key, value).insert(other, other_value)[key] == value,
        stored.insert(key, value).remove(other)[key] == value,
        !stored.insert(key, value).remove(key).contains_key(key),
{
}

/// A new round has the tick that follows the one before, and leaves what was stored, logged and
/// ordered alone.
pub proof fn law_round_moves_time_alone(
    before: BleRuntimeState,
    after: BleRuntimeState,
    tick: Tick,
)
    requires
        BleRuntimeState::ticks(before, after, tick),
    ensures
        tick == before.next_tick,
        after.now_tick == tick,
        tick.0 < u64::MAX ==> after.next_tick.0 == tick.0 + 1,
        tick.0 == u64::MAX ==> after.next_tick == tick,
        after.storage@ == before.storage@,
        after.events@ == before.events@,
        after.next_order == before.next_order,
{
}

/// What is stored under a key is loaded from it until it is stored anew or removed, and no other key is
/// touched by either.
pub proof fn law_stored_bytes_are_loaded()
    ensures
        forall|store: &mut ByteStore, key: &[u8], value: &[u8], nothing: ()|
            #[trigger] call_ensures(ByteStore::store, (store, key, value), nothing) ==> {
                &&& final(store)@.contains_key(key@) && final(store)@[key@] == value@
                &&& forall|other: Seq<u8>|
                    other != key@ ==> (#[trigger] final(store)@.contains_key(other)
                        <==> (*store)@.contains_key(other)) && final(store)@[other]
                        == (*store)@[other]
            },
        forall|store: &mut ByteStore, key: &[u8], nothing: ()|
            #[trigger] call_ensures(ByteStore::remove, (store, key), nothing) ==> {
                &&& !final(store)@.contains_key(key@)
                &&& forall|other: Seq<u8>|
                    other != key@ ==> (#[trigger] final(store)@.contains_key(other)
                        <==> (*store)@.contains_key(other)) && final(store)@[other]
                        == (*store)@[other]
            },
        forall|store: ByteStore, key: &[u8], loaded: Option<Vec<u8>>|
            #[trigger] call_ensures(ByteStore::load, (&store, key), loaded) ==> {
                &&& loaded is Some <==> store@.contains_key(key@)
                &&& loaded is Some ==> loaded->0@ == store@[key@]
            },
{
}

/// Order stamps are given out in order, each once until the last one.
pub proof fn law_order_stamps_increase()
    ensures
        forall|state: &mut BleRuntimeState, stamp: OrderStamp|
            #[trigger] call_ensures(BleRuntimeState::next_order_stamp, (state,), stamp) ==> {
                &&& (*state).next_order < u64::MAX ==> stamp.0 == (*state).next_order + 1
                &&& (*state).next_order == u64::MAX ==> stamp.0 == u64::MAX
                &&& final(state).next_order == stamp.0
            },
{
}

} // verus!
