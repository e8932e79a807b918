//! Identifiers, logical time, and the byte helpers they are built on.

use crate::ordered_map::MapKey;
use vstd::prelude::*;

verus! {

/// `k` is the first position at which two byte strings differ.
pub open spec fn first_difference(a: Seq<u8>, b: Seq<u8>, k: int) -> bool {
    &&& 0 <= k < a.len()
    &&& k < b.len()
    &&& a[k] != b[k]
    &&& forall|j: int| 0 <= j < k ==> a[j] == b[j]
}

/// Byte order of two strings of the same length: the first byte that differs decides.
pub open spec fn bytes_before(a: Seq<u8>, b: Seq<u8>) -> bool {
    exists|k: int| #[trigger] first_difference(a, b, k) && a[k] < b[k]
}

/// Two byte strings of the same length that agree below `from` are equal or differ first somewhere
/// at or above it.
proof fn lemma_equal_or_differ(a: Seq<u8>, b: Seq<u8>, from: int)
    requires
        a.len() == b.len(),
        0 <= from <= a.len(),
        forall|j: int| 0 <= j < from ==> a[j] == b[j],
    ensures
        a == b || exists|k: int| #[trigger] first_difference(a, b, k),
    decreases a.len() - from,
{
    if from == a.len() {
        assert(a =~= b);
    } else if a[from] != b[from] {
        assert(first_difference(a, b, from));
    } else {
        lemma_equal_or_differ(a, b, from + 1);
    }
}

/// The byte order is total on strings of one length.
pub proof fn lemma_bytes_before_total(a: Seq<u8>, b: Seq<u8>)
    requires
        a.len() == b.len(),
    ensures
        a == b || bytes_before(a, b) || bytes_before(b, a),
{
    lemma_equal_or_differ(a, b, 0);
    if a != b {
        let k = choose|k: int| #[trigger] first_difference(a, b, k);
        assert(first_difference(b, a, k));
    }
}

/// The byte order is transitive.
pub proof fn lemma_bytes_before_transitive(a: Seq<u8>, b: Seq<u8>, c: Seq<u8>)
    requires
        bytes_before(a, b),
        bytes_before(b, c),
    ensures
        bytes_before(a, c),
{
    let i = choose|k: int| #[trigger] first_difference(a, b, k) && a[k] < b[k];
    let j = choose|k: int| #[trigger] first_difference(b, c, k) && b[k] < c[k];
    if i <= j {
        assert(first_difference(a, c, i));
    } else {
        assert(first_difference(a, c, j));
    }
}

/// Decides the byte order of two strings of the same length.
pub fn bytes_less(a: &[u8], b: &[u8]) -> (less: bool)
    requires
        a@.len() == b@.len(),
    ensures
        less == bytes_before(a@, b@),
{
    let mut i: usize = 0;
    while i < a.len()
        invariant
            i <= a@.len(),
            a@.len() == b@.len(),
            forall|j: int| 0 <= j < i ==> a@[j] == b@[j],
        decreases a@.len() - i,
    {
        if a[i] != b[i] {
            assert(first_difference(a@, b@, i as int));
            assert forall|k: int| #[trigger] first_difference(a@, b@, k) implies k == i by {
                if k < i {
                    assert(a@[k] == b@[k]);
                }
            }
            return a[i] < b[i];
        }
        i = i + 1;
    }
    false
}

/// Compares two byte strings.
pub fn bytes_equal(a: &[u8], b: &[u8]) -> (equal: bool)
    ensures
        equal == (a@ == b@),
{
    if a.len() != b.len() {
        return false;
    }
    let mut i: usize = 0;
    while i < a.len()
        invariant
            i <= a@.len(),
            a@.len() == b@.len(),
            forall|j: int| 0 <= j < i ==> a@[j] == b@[j],
        decreases a@.len() - i,
    {
        if a[i] != b[i] {
            return false;
        }
        i = i + 1;
    }
    assert(a@ =~= b@);
    true
}

/// Compares two byte arrays.
pub fn arrays_equal<const N: usize>(a: &[u8; N], b: &[u8; N]) -> (equal: bool)
    ensures
        equal == (*a == *b),
{
    let equal = bytes_equal(a.as_slice(), b.as_slice());
    proof {
        if a@ == b@ {
            assert(*a =~= *b);
        }
    }
    equal
}

/// Copies a byte string.
pub fn bytes_to_vec(bytes: &[u8]) -> (copy: Vec<u8>)
    ensures
        copy@ == bytes@,
{
    let mut copy: Vec<u8> = Vec::new();
    append_bytes(&mut copy, bytes);
    assert(copy@ =~= bytes@);
    copy
}

/// Appends a byte string to a buffer.
pub fn append_bytes(buffer: &mut Vec<u8>, bytes: &[u8])
    ensures
        final(buffer)@ == old(buffer)@ + bytes@,
{
    let ghost before = buffer@;
    let mut i: usize = 0;
    while i < bytes.len()
        invariant
            i <= bytes@.len(),
            buffer@ == before + bytes@.take(i as int),
        decreases bytes@.len() - i,
    {
        buffer.push(bytes[i]);
        i = i + 1;
        assert(bytes@.take(i as int) =~= bytes@.take(i - 1).push(bytes@[i - 1]));
        assert(buffer@ =~= before + bytes@.take(i as int));
    }
    assert(bytes@.take(i as int) =~= bytes@);
}

/// Copies the part of a byte string from `from` up to `to`.
pub fn bytes_slice(bytes: &[u8], from: usize, to: usize) -> (part: Vec<u8>)
    requires
        from <= to <= bytes@.len(),
    ensures
        part@ == bytes@.subrange(from as int, to as int),
{
    let mut part: Vec<u8> = Vec::new();
    let mut i: usize = from;
    while i < to
        invariant
            from <= i <= to <= bytes@.len(),
            part@ == bytes@.subrange(from as int, i as int),
        decreases to - i,
    {
        part.push(bytes[i]);
        i = i + 1;
        assert(part@ =~= bytes@.subrange(from as int, i as int));
    }
    part
}

/// Copies 32 bytes that start at `from`.
pub fn bytes32_at(bytes: &[u8], from: usize) -> (copy: [u8; 32])
    requires
        from + 32 <= bytes@.len(),
    ensures
        copy@ == bytes@.subrange(from as int, from + 32),
{
    let len: usize = bytes.len();
    let mut copy: [u8; 32] = [0u8; 32];
    let mut i: usize = 0;
    while i < 32
        invariant
            i <= 32,
            len == bytes@.len(),
            from + 32 <= len,
            forall|j: int| 0 <= j < i ==> copy@[j] == bytes@[from + j],
        decreases 32 - i,
    {
        copy[i] = bytes[from + i];
        i = i + 1;
    }
    assert(copy@ =~= bytes@.subrange(from as int, from + 32));
    copy
}

/// Identifies one running mesh participant.
#[derive(Clone, Copy, Debug, Eq, PartialOrd, Ord, Hash)]
pub struct NodeId(pub [u8; 32]);

/// Identifies the cryptographic actor behind one or more nodes.
#[derive(Clone, Copy, Debug, Eq, PartialOrd, Ord, Hash)]
pub struct ControllerId(pub [u8; 32]);

/// Identifies one materialized route.
#[derive(Clone, Copy, Debug, Eq, PartialOrd, Ord, Hash)]
pub struct RouteId(pub [u8; 16]);

/// Identifies one multicast group.
#[derive(Clone, Copy, Debug, Eq, PartialOrd, Ord, Hash)]
pub struct MulticastGroupId(pub [u8; 16]);

/// Identifies whoever is near enough for a broadcast.
#[derive(Clone, Copy, Debug, PartialEq, Eq, PartialOrd, Ord, Hash)]
pub struct BroadcastDomainId(pub [u8; 16]);

/// Identifies one routing engine contract.
#[derive(Clone, Copy, Debug, Eq, PartialOrd, Ord, Hash)]
pub struct RoutingEngineId(pub [u8; 16]);

/// Logical time of the routing core.
#[derive(Clone, Copy, Debug, PartialEq, Eq, PartialOrd, Ord, Hash, Structural)]
pub struct Tick(pub u64);

/// Position in the total order that the host imposes on router events.
#[derive(Clone, Copy, Debug, PartialEq, Eq, PartialOrd, Ord, Hash, Structural)]
pub struct OrderStamp(pub u64);

/// The later of two points in logical time.
pub open spec fn later_tick(a: Tick, b: Tick) -> Tick {
    if a.0 >= b.0 {
        a
    } else {
        b
    }
}

impl Tick {
    /// The later of two points in logical time.
    pub fn later(self, other: Tick) -> (later: Tick)
        ensures
            later == later_tick(self, other),
    {
        if self.0 >= other.0 {
            self
        } else {
            other
        }
    }
}

impl RoutingEngineId {
    /// The engine with the given contract bytes.
    pub fn from_contract_bytes(bytes: [u8; 16]) -> (engine: RoutingEngineId)
        ensures
            engine.0 == bytes,
    {
        RoutingEngineId(bytes)
    }
}

impl PartialEq for NodeId {
    fn eq(&self, other: &Self) -> (r: bool) {
        arrays_equal(&self.0, &other.0)
    }
}

impl vstd::std_specs::cmp::PartialEqSpecImpl for NodeId {
    open spec fn obeys_eq_spec() -> bool {
        true
    }

    open spec fn eq_spec(&self, other: &Self) -> bool {
        *self == *other
    }
}

impl PartialEq for ControllerId {
    fn eq(&self, other: &Self) -> (r: bool) {
        arrays_equal(&self.0, &other.0)
    }
}

impl vstd::std_specs::cmp::PartialEqSpecImpl for ControllerId {
    open spec fn obeys_eq_spec() -> bool {
        true
    }

    open spec fn eq_spec(&self, other: &Self) -> bool {
        *self == *other
    }
}

impl PartialEq for RouteId {
    fn eq(&self, other: &Self) -> (r: bool) {
        arrays_equal(&self.0, &other.0)
    }
}

impl vstd::std_specs::cmp::PartialEqSpecImpl for RouteId {
    open spec fn obeys_eq_spec() -> bool {
        true
    }

    open spec fn eq_spec(&self, other: &Self) -> bool {
        *self == *other
    }
}

impl PartialEq for MulticastGroupId {
    fn eq(&self, other: &Self) -> (r: bool) {
        arrays_equal(&self.0, &other.0)
    }
}

impl vstd::std_specs::cmp::PartialEqSpecImpl for MulticastGroupId {
    open spec fn obeys_eq_spec() -> bool {
        true
    }

    open spec fn eq_spec(&self, other: &Self) -> bool {
        *self == *other
    }
}

impl PartialEq for RoutingEngineId {
    fn eq(&self, other: &Self) -> (r: bool) {
        arrays_equal(&self.0, &other.0)
    }
}

impl vstd::std_specs::cmp::PartialEqSpecImpl for RoutingEngineId {
    open spec fn obeys_eq_spec() -> bool {
        true
    }

    open spec fn eq_spec(&self, other: &Self) -> bool {
        *self == *other
    }
}

impl MapKey for NodeId {
    open spec fn before(self, other: Self) -> bool {
        bytes_before(self.0@, other.0@)
    }

    proof fn lemma_irreflexive(key: Self) {
    }

    proof fn lemma_transitive(a: Self, b: Self, c: Self) {
        lemma_bytes_before_transitive(a.0@, b.0@, c.0@);
    }

    proof fn lemma_total(a: Self, b: Self) {
        lemma_bytes_before_total(a.0@, b.0@);
        if a.0@ == b.0@ {
            assert(a.0 =~= b.0);
        }
    }

    fn is_before(&self, other: &Self) -> (r: bool) {
        bytes_less(self.0.as_slice(), other.0.as_slice())
    }
}

impl MapKey for RouteId {
    open spec fn before(self, other: Self) -> bool {
        bytes_before(self.0@, other.0@)
    }

    proof fn lemma_irreflexive(key: Self) {
    }

    proof fn lemma_transitive(a: Self, b: Self, c: Self) {
        lemma_bytes_before_transitive(a.0@, b.0@, c.0@);
    }

    proof fn lemma_total(a: Self, b: Self) {
        lemma_bytes_before_total(a.0@, b.0@);
        if a.0@ == b.0@ {
            assert(a.0 =~= b.0);
        }
    }

    fn is_before(&self, other: &Self) -> (r: bool) {
        bytes_less(self.0.as_slice(), other.0.as_slice())
    }
}

/// One direction between two nodes: sender first, receiver second.
#[derive(Clone, Copy, Debug, PartialEq, Eq, PartialOrd, Ord, Hash)]
pub struct EdgeKey {
    pub from_node_id: NodeId,
    pub to_node_id: NodeId,
}

impl MapKey for EdgeKey {
    open spec fn before(self, other: Self) -> bool {
        ||| self.from_node_id.before(other.from_node_id)
        ||| self.from_node_id == other.from_node_id && self.to_node_id.before(other.to_node_id)
    }

    proof fn lemma_irreflexive(key: Self) {
        NodeId::lemma_irreflexive(key.from_node_id);
        NodeId::lemma_irreflexive(key.to_node_id);
    }

    proof fn lemma_transitive(a: Self, b: Self, c: Self) {
        if a.from_node_id.before(b.from_node_id) && b.from_node_id.before(c.from_node_id) {
            NodeId::lemma_transitive(a.from_node_id, b.from_node_id, c.from_node_id);
        }
        if a.to_node_id.before(b.to_node_id) && b.to_node_id.before(c.to_node_id) {
            NodeId::lemma_transitive(a.to_node_id, b.to_node_id, c.to_node_id);
        }
    }

    proof fn lemma_total(a: Self, b: Self) {
        NodeId::lemma_total(a.from_node_id, b.from_node_id);
        NodeId::lemma_total(a.to_node_id, b.to_node_id);
    }

    fn is_before(&self, other: &Self) -> (r: bool) {
        if arrays_equal(&self.from_node_id.0, &other.from_node_id.0) {
            proof {
                NodeId::lemma_irreflexive(self.from_node_id);
            }
            self.to_node_id.is_before(&other.to_node_id)
        } else {
            self.from_node_id.is_before(&other.from_node_id)
        }
    }
}

/// The first byte that differs decides the order of two strings, whatever they agree on before it and
/// whatever follows it.
pub proof fn law_first_different_byte_decides(
    common: Seq<u8>,
    lower: u8,
    higher: u8,
    a: Seq<u8>,
    b: Seq<u8>,
)
    requires
        lower < higher,
    ensures
        bytes_before(common.push(lower) + a, common.push(higher) + b),
        !bytes_before(common.push(higher) + b, common.push(lower) + a),
        !bytes_before(common, common),
{
    let x = common.push(lower) + a;
    let y = common.push(higher) + b;
    let at = common.len() as int;
    assert(x[at] == lower && y[at] == higher);
    assert(first_difference(x, y, at));
    assert forall|k: int| first_difference(y, x, k) implies k == at by {
        if k > at {
            assert(y[at] == x[at]);
        }
    }
}

/// The later of two ticks is one of them, and no earlier than either.
pub proof fn law_later_tick_is_the_later(a: Tick, b: Tick)
    ensures
        later_tick(a, b) == a || later_tick(a, b) == b,
        later_tick(a, b).0 >= a.0,
        later_tick(a, b).0 >= b.0,
{
}

} // verus!
