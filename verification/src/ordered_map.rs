//! A map that hands its entries out in key order.

use vstd::prelude::*;

verus! {

/// A key with a strict total order.
pub trait MapKey: Copy {
    spec fn before(self, other: Self) -> bool;

    proof fn lemma_irreflexive(key: Self)
        ensures
            !key.before(key),
    ;

    proof fn lemma_transitive(a: Self, b: Self, c: Self)
        requires
            a.before(b),
            b.before(c),
        ensures
            a.before(c),
    ;

    proof fn lemma_total(a: Self, b: Self)
        ensures
            a == b || a.before(b) || b.before(a),
    ;

    fn is_before(&self, other: &Self) -> (r: bool)
        ensures
            r == self.before(*other),
    ;
}

impl MapKey for u64 {
    open spec fn before(self, other: Self) -> bool {
        self < other
    }

    proof fn lemma_irreflexive(key: Self) {
    }

    proof fn lemma_transitive(a: Self, b: Self, c: Self) {
    }

    proof fn lemma_total(a: Self, b: Self) {
    }

    fn is_before(&self, other: &Self) -> (r: bool) {
        *self < *other
    }
}

/// Keys in strictly ascending order.
pub open spec fn ascending<K: MapKey>(keys: Seq<K>) -> bool {
    forall|i: int, j: int| 0 <= i < j < keys.len() ==> (#[trigger] keys[i]).before(#[trigger] keys[j])
}

/// A map whose entries stand in key order, each key once.
#[derive(Debug)]
pub struct OrderedMap<K, V> {
    keys: Vec<K>,
    values: Vec<V>,
}

impl<K: MapKey, V> OrderedMap<K, V> {
    /// The keys in ascending order.
    pub closed spec fn keys(&self) -> Seq<K> {
        self.keys@
    }

    /// The values, each at the position of its key.
    pub closed spec fn values(&self) -> Seq<V> {
        self.values@
    }

    /// Every key occurs once, in ascending order, with one value.
    pub open spec fn wf(&self) -> bool {
        &&& ascending(self.keys())
        &&& self.keys().len() == self.values().len()
    }

    /// The entries as a mathematical map.
    pub open spec fn view(&self) -> Map<K, V> {
        Map::new(|k: K| self.keys().contains(k), |k: K| self.values()[self.keys().index_of(k)])
    }

    /// What the map holds at one of its positions.
    pub proof fn lemma_at(&self, i: int)
        requires
            self.wf(),
            0 <= i < self.keys().len(),
        ensures
            self@.contains_key(self.keys()[i]),
            self@[self.keys()[i]] == self.values()[i],
    {
        let k = self.keys()[i];
        let j = self.keys().index_of(k);
        assert(self.keys().contains(k));
        assert(self.keys()[j] == k);
        K::lemma_irreflexive(k);
        if i < j {
            assert(self.keys()[i].before(self.keys()[j]));
        } else if j < i {
            assert(self.keys()[j].before(self.keys()[i]));
        }
    }

    /// Every key of the map stands at one position.
    pub proof fn lemma_position(&self, key: K) -> (i: int)
        requires
            self.wf(),
            self@.contains_key(key),
        ensures
            0 <= i < self.keys().len(),
            self.keys()[i] == key,
            self@[key] == self.values()[i],
    {
        self.keys().index_of(key)
    }

    /// A map is finite and holds as many keys as positions.
    pub proof fn lemma_len(&self)
        requires
            self.wf(),
        ensures
            self@.dom().finite(),
            self@.len() == self.keys().len(),
            self@.dom() == self.keys().to_set(),
    {
        assert(self.keys().no_duplicates()) by {
            assert forall|i: int, j: int| 0 <= i < j < self.keys().len() implies self.keys()[i]
                != self.keys()[j] by {
                K::lemma_irreflexive(self.keys()[i]);
            }
        }
        self.keys().unique_seq_to_set();
        assert(self@.dom() =~= self.keys().to_set());
    }

    /// The map without entries.
    pub fn new() -> (map: Self)
        ensures
            map.wf(),
            map@ == Map::<K, V>::empty(),
            map.keys() == Seq::<K>::empty(),
    {
        let map = OrderedMap { keys: Vec::new(), values: Vec::new() };
        assert(map@ =~= Map::<K, V>::empty());
        map
    }

    /// How many entries the map holds.
    pub fn len(&self) -> (len: usize)
        requires
            self.wf(),
        ensures
            len == self.keys().len(),
            len == self@.len(),
    {
        proof {
            self.lemma_len();
        }
        self.keys.len()
    }

    /// The first position whose key does not stand before `key`.
    fn lower_bound(&self, key: &K) -> (at: usize)
        requires
            self.wf(),
        ensures
            at <= self.keys().len(),
            forall|i: int| 0 <= i < at ==> (#[trigger] self.keys()[i]).before(*key),
            at < self.keys().len() ==> !self.keys()[at as int].before(*key),
    {
        let mut at: usize = 0;
        while at < self.keys.len()
            invariant
                at <= self.keys@.len(),
                forall|i: int| 0 <= i < at ==> (#[trigger] self.keys@[i]).before(*key),
            decreases self.keys@.len() - at,
        {
            if !self.keys[at].is_before(key) {
                return at;
            }
            at = at + 1;
        }
        at
    }

    /// The position of `key`, or none.
    fn position(&self, key: &K) -> (found: Option<usize>)
        requires
            self.wf(),
        ensures
            match found {
                Some(i) => {
                    &&& i < self.keys().len()
                    &&& self.keys()[i as int] == *key
                    &&& self@.contains_key(*key)
                    &&& self@[*key] == self.values()[i as int]
                },
                None => !self@.contains_key(*key),
            },
    {
        let at = self.lower_bound(key);
        if at < self.keys.len() {
            if !key.is_before(&self.keys[at]) {
                proof {
                    K::lemma_total(self.keys@[at as int], *key);
                    self.lemma_at(at as int);
                }
                return Some(at);
            }
        }
        proof {
            if self@.contains_key(*key) {
                let i = self.lemma_position(*key);
                K::lemma_irreflexive(*key);
                if i < at {
                    assert(self.keys()[i].before(*key));
                } else if i > at {
                    assert(self.keys()[at as int].before(self.keys()[i]));
                }
            }
        }
        None
    }

    /// Whether the map holds a key.
    pub fn contains_key(&self, key: &K) -> (found: bool)
        requires
            self.wf(),
        ensures
            found == self@.contains_key(*key),
    {
        self.position(key).is_some()
    }

    /// The value of a key.
    pub fn get(&self, key: &K) -> (value: Option<&V>)
        requires
            self.wf(),
        ensures
            match value {
                Some(v) => self@.contains_key(*key) && *v == self@[*key],
                None => !self@.contains_key(*key),
            },
    {
        match self.position(key) {
            Some(i) => Some(&self.values[i]),
            None => None,
        }
    }

    /// The key at a position.
    pub fn key_at(&self, i: usize) -> (key: K)
        requires
            self.wf(),
            i < self.keys().len(),
        ensures
            key == self.keys()[i as int],
            self@.contains_key(key),
    {
        proof {
            self.lemma_at(i as int);
        }
        self.keys[i]
    }

    /// The value at a position.
    pub fn value_at(&self, i: usize) -> (value: &V)
        requires
            self.wf(),
            i < self.keys().len(),
        ensures
            *value == self.values()[i as int],
            *value == self@[self.keys()[i as int]],
    {
        proof {
            self.lemma_at(i as int);
        }
        &self.values[i]
    }

    /// Sets the value of a key and hands back the value that the key had before.
    pub fn insert(&mut self, key: K, value: V) -> (previous: Option<V>)
        requires
            old(self).wf(),
        ensures
            final(self).wf(),
            final(self)@ == old(self)@.insert(key, value),
            match previous {
                Some(v) => old(self)@.contains_key(key) && v == old(self)@[key],
                None => !old(self)@.contains_key(key),
            },
    {
        let at = self.lower_bound(&key);
        let present = match self.position(&key) {
            Some(i) => {
                proof {
                    K::lemma_irreflexive(key);
                    if i < at {
                        assert(self.keys()[i as int].before(key));
                    } else if at < i {
                        assert(self.keys()[at as int].before(self.keys()[i as int]));
                    }
                }
                true
            },
            None => false,
        };
        let ghost before = *self;
        if present {
            proof {
                before.lemma_at(at as int);
            }
            self.values.push(value);
            let removed = self.values.swap_remove(at);
            assert(self.values@ =~= before.values().update(at as int, value));
            assert(removed == before.values()[at as int]);
            proof {
                assert(self@ =~= before@.insert(key, value)) by {
                    assert forall|k: K| #[trigger] before@.contains_key(k) implies self@[k]
                        == before@.insert(key, value)[k] by {
                        let i = before.lemma_position(k);
                        before.lemma_at(i);
                        self.lemma_at(i);
                        if k == key {
                            self.lemma_at(at as int);
                        } else {
                            assert(i != at);
                        }
                    }
                    assert(self.keys() =~= before.keys());
                }
            }
            Some(removed)
        } else {
            proof {
                if at < self.keys@.len() {
                    K::lemma_total(self.keys@[at as int], key);
                    self.lemma_at(at as int);
                }
            }
            self.keys.insert(at, key);
            self.values.insert(at, value);
            proof {
                assert(self.keys@ =~= before.keys().insert(at as int, key));
                assert(self.values@ =~= before.values().insert(at as int, value));
                assert forall|i: int, j: int| 0 <= i < j < self.keys().len() implies (
                #[trigger] self.keys()[i]).before(#[trigger] self.keys()[j]) by {
                    let n = before.keys();
                    if i < at && j < at {
                        assert(n[i].before(n[j]));
                    } else if i < at && j == at {
                        assert(n[i].before(key));
                    } else if i < at {
                        assert(n[i].before(n[j - 1]));
                    } else if i == at {
                        if j - 1 > at {
                            assert(n[at as int].before(n[j - 1]));
                            K::lemma_transitive(key, n[at as int], n[j - 1]);
                        }
                    } else {
                        assert(n[i - 1].before(n[j - 1]));
                    }
                }
                self.lemma_at(at as int);
                assert(self@ =~= before@.insert(key, value)) by {
                    assert forall|k: K| self@.contains_key(k) == before@.insert(
                        key,
                        value,
                    ).contains_key(k) by {
                        if before@.contains_key(k) {
                            let i = before.lemma_position(k);
                            if i < at {
                                assert(self.keys()[i] == k);
                            } else {
                                assert(self.keys()[i + 1] == k);
                            }
                        }
                        if self@.contains_key(k) && k != key {
                            let i = self.lemma_position(k);
                            if i < at {
                                assert(before.keys()[i] == k);
                            } else {
                                assert(before.keys()[i - 1] == k);
                            }
                        }
                    }
                    assert forall|k: K| #[trigger] self@.contains_key(k) implies self@[k]
                        == before@.insert(key, value)[k] by {
                        if k != key {
                            let i = self.lemma_position(k);
                            if i < at {
                                before.lemma_at(i);
                            } else {
                                before.lemma_at(i - 1);
                            }
                        }
                    }
                }
            }
            None
        }
    }

    /// Takes out the entry at a position.
    pub fn remove_at(&mut self, at: usize) -> (value: V)
        requires
            old(self).wf(),
            at < old(self).keys().len(),
        ensures
            final(self).wf(),
            final(self)@ == old(self)@.remove(old(self).keys()[at as int]),
            final(self).keys() == old(self).keys().remove(at as int),
            value == old(self)@[old(self).keys()[at as int]],
    {
        let ghost before = *self;
        let ghost key = self.keys()[at as int];
        proof {
            before.lemma_at(at as int);
        }
        self.keys.remove(at);
        let value = self.values.remove(at);
        proof {
            assert(self.keys@ =~= before.keys().remove(at as int));
            assert(self.values@ =~= before.values().remove(at as int));
            assert forall|i: int, j: int| 0 <= i < j < self.keys().len() implies (
            #[trigger] self.keys()[i]).before(#[trigger] self.keys()[j]) by {
                let p = if i < at { i } else { i + 1 };
                let q = if j < at { j } else { j + 1 };
                assert(before.keys()[p].before(before.keys()[q]));
            }
            assert forall|k: K| self@.contains_key(k) == before@.remove(key).contains_key(k) by {
                if before@.contains_key(k) && k != key {
                    let i = before.lemma_position(k);
                    if i < at {
                        assert(self.keys()[i] == k);
                    } else {
                        assert(self.keys()[i - 1] == k);
                    }
                }
                if self@.contains_key(k) {
                    let i = self.lemma_position(k);
                    let p = if i < at { i } else { i + 1 };
                    before.lemma_at(p);
                    K::lemma_irreflexive(key);
                    if k == key {
                        if p < at {
                            assert(before.keys()[p].before(before.keys()[at as int]));
                        } else {
                            assert(before.keys()[at as int].before(before.keys()[p]));
                        }
                    }
                }
            }
            assert forall|k: K| #[trigger] self@.contains_key(k) implies self@[k] == before@.remove(
                key,
            )[k] by {
                let i = self.lemma_position(k);
                let p = if i < at { i } else { i + 1 };
                before.lemma_at(p);
            }
            assert(self@ =~= before@.remove(key));
        }
        value
    }

    /// Takes a key out of the map and hands back its value.
    pub fn remove(&mut self, key: &K) -> (removed: Option<V>)
        requires
            old(self).wf(),
        ensures
            final(self).wf(),
            final(self)@ == old(self)@.remove(*key),
            match removed {
                Some(v) => old(self)@.contains_key(*key) && v == old(self)@[*key],
                None => !old(self)@.contains_key(*key),
            },
    {
        match self.position(key) {
            Some(at) => Some(self.remove_at(at)),
            None => {
                assert(self@ =~= self@.remove(*key));
                None
            },
        }
    }
}

/// A list of entries as a map. Of several entries with one key the last counts.
pub open spec fn listed<K, V>(entries: Seq<(K, V)>) -> Map<K, V>
    decreases entries.len(),
{
    if entries.len() == 0 {
        Map::empty()
    } else {
        listed(entries.drop_last()).insert(entries.last().0, entries.last().1)
    }
}

/// One more entry sets one more key.
pub proof fn lemma_listed_step<K, V>(entries: Seq<(K, V)>, done: int)
    requires
        0 <= done < entries.len(),
    ensures
        listed(entries.take(done + 1)) == listed(entries.take(done)).insert(
            entries[done].0,
            entries[done].1,
        ),
{
    assert(entries.take(done + 1).drop_last() =~= entries.take(done));
}

/// An entry behind a list sets its key.
pub proof fn lemma_listed_push<K, V>(entries: Seq<(K, V)>, key: K, value: V)
    ensures
        listed(entries.push((key, value))) == listed(entries).insert(key, value),
{
    assert(entries.push((key, value)).drop_last() =~= entries);
}

/// Where no key occurs twice, every entry of a list is in its map, and the map holds no more.
pub proof fn lemma_listed_keeps<K, V>(entries: Seq<(K, V)>)
    requires
        forall|i: int, j: int|
            0 <= i < j < entries.len() ==> (#[trigger] entries[i]).0 != (#[trigger] entries[j]).0,
    ensures
        listed(entries).dom().finite(),
        listed(entries).len() == entries.len(),
        forall|i: int|
            0 <= i < entries.len() ==> listed(entries).contains_key((#[trigger] entries[i]).0)
                && listed(entries)[entries[i].0] == entries[i].1,
        forall|key: K| #[trigger]
            listed(entries).contains_key(key) ==> exists|i: int|
                0 <= i < entries.len() && (#[trigger] entries[i]).0 == key,
    decreases entries.len(),
{
    if entries.len() > 0 {
        let shorter = entries.drop_last();
        let last = entries.last();
        lemma_listed_keeps(shorter);
        assert(entries[entries.len() - 1] == last);
        if listed(shorter).contains_key(last.0) {
            let i = choose|i: int| 0 <= i < shorter.len() && (#[trigger] shorter[i]).0 == last.0;
            assert(entries[i].0 == last.0);
        }
        assert forall|i: int| 0 <= i < entries.len() implies listed(entries).contains_key(
            (#[trigger] entries[i]).0,
        ) && listed(entries)[entries[i].0] == entries[i].1 by {
            if i < shorter.len() {
                assert(shorter[i] == entries[i]);
            }
        }
        assert forall|key: K| #[trigger] listed(entries).contains_key(key) implies exists|i: int|
            0 <= i < entries.len() && (#[trigger] entries[i]).0 == key by {
            if listed(shorter).contains_key(key) {
                let i = choose|i: int| 0 <= i < shorter.len() && (#[trigger] shorter[i]).0 == key;
                assert(entries[i].0 == key);
            }
        }
    }
}

} // verus!
