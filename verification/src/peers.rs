//! What is known of the devices around: a hint, or a proven identity.

use crate::endpoint::DeviceId;
use crate::identity::NodeId;
use jacquard_host_support::{ClaimGuard, PeerDirectory, PendingClaims};
use vstd::prelude::*;

verus! {

/// What a device advertised before it was connected.
#[derive(Debug, PartialEq, Eq)]
pub struct DiscoveredPeerHint {
    pub device_id: DeviceId,
    /// First six bytes of the node identity, taken from the discovery UUID.
    pub node_id_prefix: [u8; 6],
    pub advertised_gatt: bool,
    pub advertised_l2cap: bool,
}

/// What a [`DiscoveredPeerHint`] says.
pub ghost struct HintView {
    pub device_id: Seq<char>,
    pub node_id_prefix: Seq<u8>,
    pub advertised_gatt: bool,
    pub advertised_l2cap: bool,
}

impl View for DiscoveredPeerHint {
    type V = HintView;

    open spec fn view(&self) -> HintView {
        HintView {
            device_id: self.device_id@,
            node_id_prefix: self.node_id_prefix@,
            advertised_gatt: self.advertised_gatt,
            advertised_l2cap: self.advertised_l2cap,
        }
    }
}

impl Clone for DiscoveredPeerHint {
    fn clone(&self) -> (copy: Self)
        ensures
            copy@ == self@,
    {
        DiscoveredPeerHint {
            device_id: self.device_id.clone(),
            node_id_prefix: self.node_id_prefix,
            advertised_gatt: self.advertised_gatt,
            advertised_l2cap: self.advertised_l2cap,
        }
    }
}

/// How far a device is identified.
#[derive(Debug, PartialEq, Eq)]
pub enum PeerIdentityState {
    Hint(DiscoveredPeerHint),
    Resolved(NodeId),
}

/// What a [`PeerIdentityState`] says.
pub ghost enum PeerIdentityView {
    Hint(HintView),
    Resolved(NodeId),
}

impl View for PeerIdentityState {
    type V = PeerIdentityView;

    open spec fn view(&self) -> PeerIdentityView {
        match self {
            PeerIdentityState::Hint(hint) => PeerIdentityView::Hint(hint@),
            PeerIdentityState::Resolved(node_id) => PeerIdentityView::Resolved(*node_id),
        }
    }
}

/// `jacquard_host_support::PeerDirectory`, a map from addresses to identities and back.
#[verifier::external_type_specification]
#[verifier::external_body]
#[verifier::reject_recursive_types(Addr)]
#[verifier::reject_recursive_types(Hint)]
pub struct ExPeerDirectory<Addr, Hint>(PeerDirectory<Addr, Hint>);

/// `jacquard_host_support::PendingClaims`, a set of claims that is shared with its guards.
#[verifier::external_type_specification]
#[verifier::external_body]
#[verifier::reject_recursive_types(Key)]
pub struct ExPendingClaims<Key: Ord>(PendingClaims<Key>);

/// `jacquard_host_support::ClaimGuard`, which holds a claim until it is dropped.
#[verifier::external_type_specification]
#[verifier::external_body]
#[verifier::reject_recursive_types(Key)]
pub struct ExClaimGuard<Key: Ord>(ClaimGuard<Key>);

/// What a directory holds for each address.
pub uninterp spec fn directory_states(
    directory: PeerDirectory<String, DiscoveredPeerHint>,
) -> Map<Seq<char>, PeerIdentityView>;

/// At which address a directory holds each resolved node.
pub uninterp spec fn directory_addresses(
    directory: PeerDirectory<String, DiscoveredPeerHint>,
) -> Map<NodeId, Seq<char>>;

/// The key that a claim guard holds, as `ClaimGuard::key` reads it.
pub uninterp spec fn claim_key(claim: ClaimGuard<String>) -> Seq<char>;

/// No address is known.
pub open spec fn no_states() -> Map<Seq<char>, PeerIdentityView> {
    Map::empty()
}

/// No node is resolved.
pub open spec fn no_addresses() -> Map<NodeId, Seq<char>> {
    Map::empty()
}

/// The node that an address is resolved to.
pub open spec fn resolved_node(
    states: Map<Seq<char>, PeerIdentityView>,
    address: Seq<char>,
) -> Option<NodeId> {
    if states.contains_key(address) {
        match states[address] {
            PeerIdentityView::Resolved(node_id) => Some(node_id),
            PeerIdentityView::Hint(_) => None,
        }
    } else {
        None
    }
}

/// The reverse map once an address is not resolved any more.
pub open spec fn addresses_without(
    states: Map<Seq<char>, PeerIdentityView>,
    addresses: Map<NodeId, Seq<char>>,
    address: Seq<char>,
) -> Map<NodeId, Seq<char>> {
    match resolved_node(states, address) {
        Some(node_id) => addresses.remove(node_id),
        None => addresses,
    }
}

/// The states once a node is resolved at an address: it leaves the address that it had before.
pub open spec fn states_resolving(
    states: Map<Seq<char>, PeerIdentityView>,
    addresses: Map<NodeId, Seq<char>>,
    address: Seq<char>,
    node_id: NodeId,
) -> Map<Seq<char>, PeerIdentityView> {
    let moved = if addresses.contains_key(node_id) && addresses[node_id] != address {
        states.remove(addresses[node_id])
    } else {
        states
    };
    moved.insert(address, PeerIdentityView::Resolved(node_id))
}

/// The reverse map once a node is resolved at an address: a node that was there before leaves it.
pub open spec fn addresses_resolving(
    states: Map<Seq<char>, PeerIdentityView>,
    addresses: Map<NodeId, Seq<char>>,
    address: Seq<char>,
    node_id: NodeId,
) -> Map<NodeId, Seq<char>> {
    let vacated = match resolved_node(states, address) {
        Some(previous) => if previous != node_id {
            addresses.remove(previous)
        } else {
            addresses
        },
        None => addresses,
    };
    vacated.insert(node_id, address)
}

/// `PeerDirectory::new`: a directory without entries.
#[verifier::external_body]
pub(crate) fn new_directory() -> (directory: PeerDirectory<String, DiscoveredPeerHint>)
    ensures
        directory_states(directory) == no_states(),
        directory_addresses(directory) == no_addresses(),
{
    PeerDirectory::new()
}

/// `PeerDirectory::identity_state`: what the directory holds for an address, copied out.
#[verifier::external_body]
pub(crate) fn identity_state(
    directory: &PeerDirectory<String, DiscoveredPeerHint>,
    address: &String,
) -> (state: Option<PeerIdentityState>)
    ensures
        match state {
            Some(found) => directory_states(*directory).contains_key(address@) && found@
                == directory_states(*directory)[address@],
            None => !directory_states(*directory).contains_key(address@),
        },
{
    match directory.identity_state(address) {
        Some(jacquard_host_support::PeerIdentityState::Hint(hint)) => Some(PeerIdentityState::Hint(hint.clone())),
        Some(jacquard_host_support::PeerIdentityState::Resolved(node_id)) => Some(PeerIdentityState::Resolved(NodeId(node_id.0))),
        None => None,
    }
}

/// `PeerDirectory::upsert_hint`: the address now holds the hint, and a node that was resolved there
/// is not resolved any more.
#[verifier::external_body]
pub(crate) fn upsert_hint(
    directory: &mut PeerDirectory<String, DiscoveredPeerHint>,
    address: String,
    hint: DiscoveredPeerHint,
)
    ensures
        directory_states(*final(directory)) == directory_states(*old(directory)).insert(
            address@,
            PeerIdentityView::Hint(hint@),
        ),
        directory_addresses(*final(directory)) == addresses_without(
            directory_states(*old(directory)),
            directory_addresses(*old(directory)),
            address@,
        ),
{
    directory.upsert_hint(address, hint);
}

/// `PeerDirectory::resolve`: the address now holds the node; the node leaves the address that it
/// was resolved at, and the address loses the node that was resolved there.
#[verifier::external_body]
pub(crate) fn resolve_peer(
    directory: &mut PeerDirectory<String, DiscoveredPeerHint>,
    address: String,
    node_id: NodeId,
)
    ensures
        directory_states(*final(directory)) == states_resolving(
            directory_states(*old(directory)),
            directory_addresses(*old(directory)),
            address@,
            node_id,
        ),
        directory_addresses(*final(directory)) == addresses_resolving(
            directory_states(*old(directory)),
            directory_addresses(*old(directory)),
            address@,
            node_id,
        ),
{
    directory.resolve(address, jacquard_core::NodeId(node_id.0));
}

/// `PeerDirectory::remove`: the address leaves the directory, and with it a node that was resolved
/// there; what the address held is handed back.
#[verifier::external_body]
pub(crate) fn remove_peer(
    directory: &mut PeerDirectory<String, DiscoveredPeerHint>,
    address: &String,
) -> (removed: Option<PeerIdentityState>)
    ensures
        directory_states(*final(directory)) == directory_states(*old(directory)).remove(address@),
        directory_addresses(*final(directory)) == addresses_without(
            directory_states(*old(directory)),
            directory_addresses(*old(directory)),
            address@,
        ),
        match removed {
            Some(found) => directory_states(*old(directory)).contains_key(address@) && found@
                == directory_states(*old(directory))[address@],
            None => !directory_states(*old(directory)).contains_key(address@),
        },
{
    match directory.remove(address) {
        Some(jacquard_host_support::PeerIdentityState::Hint(hint)) => Some(PeerIdentityState::Hint(hint)),
        Some(jacquard_host_support::PeerIdentityState::Resolved(node_id)) => Some(PeerIdentityState::Resolved(NodeId(node_id.0))),
        None => None,
    }
}

/// `PendingClaims::new`: no claim is held.
#[verifier::external_body]
pub(crate) fn new_claims() -> (claims: PendingClaims<String>) {
    PendingClaims::new()
}

/// `PendingClaims::try_claim`: a guard for the key, unless another guard holds it at this moment. A
/// guard holds the key that it was asked for. Guards give their claim back when they are dropped, so
/// whether there is one rests on what else is alive, and nothing is promised of that.
#[verifier::external_body]
pub(crate) fn try_claim(claims: &PendingClaims<String>, key: String) -> (claim: Option<
    ClaimGuard<String>,
>)
    ensures
        claim is Some ==> claim_key(claim->0) == key@,
{
    claims.try_claim(key).ok()
}

/// Whether asking a set of claims for a key gave an answer: a guard, or nothing.
pub closed spec fn claim_answer(
    claims: PendingClaims<String>,
    key: Seq<char>,
    answer: Option<ClaimGuard<String>>,
) -> bool {
    exists|asked: String| asked@ == key && #[trigger] call_ensures(try_claim, (&claims, asked), answer)
}

/// An answer of a set of claims is one that the set gave when it was asked for that very key.
pub(crate) proof fn law_answer_is_the_one_that_was_given(
    claims: PendingClaims<String>,
    key: Seq<char>,
    answer: Option<ClaimGuard<String>>,
)
    requires
        claim_answer(claims, key, answer),
    ensures
        exists|asked: String|
            asked@ == key && #[trigger] call_ensures(try_claim, (&claims, asked), answer),
        answer is Some ==> claim_key(answer->0) == key,
{
}

/// Asks a set of claims for a key. The answer is the one that the set gave.
pub(crate) fn ask_claim(claims: &PendingClaims<String>, key: String) -> (answer: Option<
    ClaimGuard<String>,
>)
    ensures
        claim_answer(*claims, key@, answer),
        answer is Some ==> claim_key(answer->0) == key@,
{
    try_claim(claims, key)
}

/// A node is found at an address exactly if the address is resolved to the node.
pub open spec fn agrees_at(
    states: Map<Seq<char>, PeerIdentityView>,
    addresses: Map<NodeId, Seq<char>>,
    address: Seq<char>,
    node_id: NodeId,
) -> bool {
    resolved_node(states, address) == Some(node_id) <==> addresses.contains_key(node_id)
        && addresses[node_id] == address
}

/// The two sides of a directory agree on every address and every node.
pub open spec fn directory_agrees(
    states: Map<Seq<char>, PeerIdentityView>,
    addresses: Map<NodeId, Seq<char>>,
) -> bool {
    forall|address: Seq<char>, node_id: NodeId| #[trigger]
        agrees_at(states, addresses, address, node_id)
}

/// No node is resolved at two addresses, and every change of the directory keeps it so: a new hint,
/// a resolution, and a removal leave the two sides in agreement.
pub proof fn law_directory_stays_consistent(
    states: Map<Seq<char>, PeerIdentityView>,
    addresses: Map<NodeId, Seq<char>>,
    address: Seq<char>,
    hint: HintView,
    node_id: NodeId,
)
    requires
        directory_agrees(states, addresses),
    ensures
        directory_agrees(
            states.insert(address, PeerIdentityView::Hint(hint)),
            addresses_without(states, addresses, address),
        ),
        directory_agrees(
            states_resolving(states, addresses, address, node_id),
            addresses_resolving(states, addresses, address, node_id),
        ),
        directory_agrees(states.remove(address), addresses_without(states, addresses, address)),
{
    let without = addresses_without(states, addresses, address);
    let hinted = states.insert(address, PeerIdentityView::Hint(hint));
    assert forall|a: Seq<char>, n: NodeId| #[trigger] agrees_at(hinted, without, a, n) by {
        assert(agrees_at(states, addresses, a, n));
        assert(agrees_at(states, addresses, address, n));
    }
    assert forall|a: Seq<char>, n: NodeId| #[trigger]
        agrees_at(states.remove(address), without, a, n) by {
        assert(agrees_at(states, addresses, a, n));
        assert(agrees_at(states, addresses, address, n));
    }
    let after_states = states_resolving(states, addresses, address, node_id);
    let after_addresses = addresses_resolving(states, addresses, address, node_id);
    assert forall|a: Seq<char>, n: NodeId| #[trigger]
        agrees_at(after_states, after_addresses, a, n) by {
        assert(agrees_at(states, addresses, a, n));
        assert(agrees_at(states, addresses, address, n));
        assert(agrees_at(states, addresses, a, node_id));
        assert(agrees_at(states, addresses, addresses[node_id], node_id));
        assert(agrees_at(states, addresses, addresses[node_id], n));
        if let Some(previous) = resolved_node(states, address) {
            assert(agrees_at(states, addresses, address, previous));
            assert(agrees_at(states, addresses, a, previous));
        }
    }
}

/// An empty directory is consistent.
pub proof fn law_empty_directory_is_consistent()
    ensures
        directory_agrees(no_states(), no_addresses()),
{
}

} // verus!
