//! The host-side service: what becomes of messages that arrive, how relaying is retried, and what
//! of the topology is shown.

use crate::errors::{
    BleBridgeError, BleClientError, RouteError, RouteSelectionError, TransportError,
};
use crate::framing::{application_frame, decode_application_frame, is_application_frame};
use crate::identity::{EdgeKey, NodeId, RouteId};
use crate::ordered_map::OrderedMap;
use crate::topology::{ActiveRoute, MeshEdge, MeshNode, MeshTopology};
use vstd::prelude::*;

verus! {

/// Wait between two attempts to pass a message on, while routes converge.
pub const RELAY_RETRY_INTERVAL_MS: u64 = 25;

/// How often passing a message on is attempted.
pub const RELAY_RETRY_ATTEMPTS_MAX: u32 = 200;

/// How many messages are passed on at the same time.
pub const RELAY_INFLIGHT_MAX: usize = 64;

/// How many messages wait for a slow listener.
pub const INCOMING_BROADCAST_CAPACITY: usize = 64;

/// A message for the application of this node.
#[derive(Debug, PartialEq, Eq)]
pub struct JacquardIncomingMessage {
    /// The node that the message claims to come from.
    pub from_node_id: NodeId,
    /// The node that handed it over.
    pub transport_from_node_id: NodeId,
    pub payload: Vec<u8>,
}

/// A peer that was introduced by the user.
#[derive(Clone, Copy, Debug, PartialEq, Eq)]
pub struct JacquardIntroducedPeer {
    pub node_id: NodeId,
}

/// A message that could not be passed on.
#[derive(Clone, Copy, Debug, PartialEq, Eq)]
pub struct JacquardRelayDrop {
    pub from_node_id: NodeId,
    pub destination_node_id: NodeId,
}

/// What becomes of a payload that arrived.
#[derive(Debug)]
pub enum PumpStep {
    /// It is no application frame.
    Discard,
    /// It is for this node.
    Deliver(JacquardIncomingMessage),
    /// It is for another node: pass the bytes on as they are.
    Relay { relay: JacquardRelayDrop, frame: Vec<u8> },
}

/// What a [`PumpStep`] says.
pub ghost enum PumpView {
    Discard,
    Deliver { from: Seq<u8>, transport_from: NodeId, payload: Seq<u8> },
    Relay { from: Seq<u8>, destination: Seq<u8>, frame: Seq<u8> },
}

impl View for PumpStep {
    type V = PumpView;

    open spec fn view(&self) -> PumpView {
        match self {
            PumpStep::Discard => PumpView::Discard,
            PumpStep::Deliver(message) => PumpView::Deliver {
                from: message.from_node_id.0@,
                transport_from: message.transport_from_node_id,
                payload: message.payload@,
            },
            PumpStep::Relay { relay, frame } => PumpView::Relay {
                from: relay.from_node_id.0@,
                destination: relay.destination_node_id.0@,
                frame: frame@,
            },
        }
    }
}

/// What becomes of bytes that arrived at a node. Only what is addressed to the node reaches its
/// application; what is addressed to another node is passed on unchanged.
pub open spec fn pumped(local_node_id: NodeId, transport_from: NodeId, bytes: Seq<u8>) -> PumpView {
    if !is_application_frame(bytes) {
        PumpView::Discard
    } else if bytes.subrange(40, 72) == local_node_id.0@ {
        PumpView::Deliver { from: bytes.subrange(8, 40), transport_from, payload: bytes.skip(72) }
    } else {
        PumpView::Relay {
            from: bytes.subrange(8, 40),
            destination: bytes.subrange(40, 72),
            frame: bytes,
        }
    }
}

/// Decides what becomes of a payload that arrived.
pub fn pump_step(
    local_node_id: NodeId,
    transport_from_node_id: NodeId,
    payload: Vec<u8>,
) -> (step: PumpStep)
    ensures
        step@ == pumped(local_node_id, transport_from_node_id, payload@),
{
    let frame = match decode_application_frame(payload.as_slice()) {
        Some(frame) => frame,
        None => return PumpStep::Discard,
    };
    proof {
        if frame.destination_node_id.0@ == local_node_id.0@ {
            assert(frame.destination_node_id.0 =~= local_node_id.0);
        }
    }
    if frame.destination_node_id == local_node_id {
        return PumpStep::Deliver(
            JacquardIncomingMessage {
                from_node_id: frame.from_node_id,
                transport_from_node_id,
                payload: frame.payload,
            },
        );
    }
    PumpStep::Relay {
        relay: JacquardRelayDrop {
            from_node_id: frame.from_node_id,
            destination_node_id: frame.destination_node_id,
        },
        frame: payload,
    }
}

/// A message reaches the application of the node that it is addressed to and of no other node, with
/// its source and payload as they were sent; every other node passes on the very bytes that it got,
/// so that this holds over any number of relays.
pub proof fn law_message_arrives_at_its_destination_only(
    from_node_id: NodeId,
    destination_node_id: NodeId,
    payload: Seq<u8>,
    at_node_id: NodeId,
    transport_from: NodeId,
)
    ensures
        ({
            let frame = application_frame(from_node_id, destination_node_id, payload);
            pumped(at_node_id, transport_from, frame) == if at_node_id == destination_node_id {
                PumpView::Deliver { from: from_node_id.0@, transport_from, payload }
            } else {
                PumpView::Relay {
                    from: from_node_id.0@,
                    destination: destination_node_id.0@,
                    frame,
                }
            }
        }),
{
    let frame = application_frame(from_node_id, destination_node_id, payload);
    assert(frame.take(8) =~= crate::framing::application_magic());
    assert(frame.subrange(8, 40) =~= from_node_id.0@);
    assert(frame.subrange(40, 72) =~= destination_node_id.0@);
    assert(frame.skip(72) =~= payload);
    if destination_node_id.0@ == at_node_id.0@ {
        assert(destination_node_id.0 =~= at_node_id.0);
    }
}

/// How passing a message on is retried.
#[derive(Clone, Copy, Debug, PartialEq, Eq, Structural)]
pub struct RelayRetryPolicy {
    pub interval_ms: u64,
    pub max_attempts: u32,
}

impl Default for RelayRetryPolicy {
    fn default() -> (policy: Self)
        ensures
            policy.interval_ms == RELAY_RETRY_INTERVAL_MS,
            policy.max_attempts == RELAY_RETRY_ATTEMPTS_MAX,
    {
        RelayRetryPolicy {
            interval_ms: RELAY_RETRY_INTERVAL_MS,
            max_attempts: RELAY_RETRY_ATTEMPTS_MAX,
        }
    }
}

/// A transport error that may pass.
pub open spec fn transient(error: TransportError) -> bool {
    error == TransportError::Unavailable || error == TransportError::TimedOut
}

/// An error after which passing a message on is worth another attempt: no route yet, or a transport
/// that is busy, wherever it was noticed.
pub open spec fn worth_retrying(error: BleClientError) -> bool {
    match error {
        BleClientError::Route(RouteError::Selection(RouteSelectionError::NoCandidate)) => true,
        BleClientError::Route(RouteError::Transport(e)) => transient(e),
        BleClientError::Transport(e) => transient(e),
        BleClientError::Bridge(BleBridgeError::Route(RouteError::Transport(e))) => transient(e),
        BleClientError::Bridge(BleBridgeError::Transport(e)) => transient(e),
        _ => false,
    }
}

fn is_transient(error: TransportError) -> (found: bool)
    ensures
        found == transient(error),
{
    match error {
        TransportError::Unavailable => true,
        TransportError::TimedOut => true,
        TransportError::Rejected => false,
    }
}

/// Whether passing a message on is worth another attempt after an error.
pub fn relay_retryable(error: &BleClientError) -> (retry: bool)
    ensures
        retry == worth_retrying(*error),
{
    match *error {
        BleClientError::Route(RouteError::Selection(RouteSelectionError::NoCandidate)) => true,
        BleClientError::Route(RouteError::Transport(e)) => is_transient(e),
        BleClientError::Transport(e) => is_transient(e),
        BleClientError::Bridge(BleBridgeError::Route(RouteError::Transport(e))) => is_transient(e),
        BleClientError::Bridge(BleBridgeError::Transport(e)) => is_transient(e),
        _ => false,
    }
}

/// What to do after an attempt to pass a message on.
#[derive(Clone, Copy, Debug, PartialEq, Eq, Structural)]
pub enum RelayStep {
    Relayed,
    Dropped,
    /// Wait for the interval of the policy, then attempt again.
    Wait,
}

/// What an attempt leads to; attempts are counted from zero.
pub open spec fn step_after_attempt(
    policy: RelayRetryPolicy,
    attempt: u32,
    outcome: Result<(), BleClientError>,
) -> RelayStep {
    match outcome {
        Ok(()) => RelayStep::Relayed,
        Err(error) => if worth_retrying(error) && attempt + 1 < policy.max_attempts {
            RelayStep::Wait
        } else {
            RelayStep::Dropped
        },
    }
}

impl RelayRetryPolicy {
    /// Whether a message is attempted at all.
    pub fn attempts_any(&self) -> (any: bool)
        ensures
            any == (self.max_attempts > 0),
    {
        self.max_attempts > 0
    }

    /// Decides what to do after an attempt.
    pub fn after_attempt(&self, attempt: u32, outcome: Result<(), BleClientError>) -> (step:
        RelayStep)
        ensures
            step == step_after_attempt(*self, attempt, outcome),
    {
        match outcome {
            Ok(()) => RelayStep::Relayed,
            Err(error) => {
                if relay_retryable(&error) && attempt < self.max_attempts && self.max_attempts
                    - attempt > 1 {
                    RelayStep::Wait
                } else {
                    RelayStep::Dropped
                }
            },
        }
    }
}

/// How many attempts are made before a message is relayed or dropped, if attempt `i` ends as
/// `outcomes(i)`.
pub open spec fn attempts_made(
    policy: RelayRetryPolicy,
    outcomes: spec_fn(u32) -> Result<(), BleClientError>,
    attempt: u32,
) -> nat
    decreases policy.max_attempts - attempt,
{
    if attempt >= policy.max_attempts {
        0
    } else if step_after_attempt(policy, attempt, outcomes(attempt)) == RelayStep::Wait {
        1 + attempts_made(policy, outcomes, (attempt + 1) as u32)
    } else {
        1
    }
}

/// Whether a message is passed on, if attempt `i` ends as `outcomes(i)`.
pub open spec fn is_relayed(
    policy: RelayRetryPolicy,
    outcomes: spec_fn(u32) -> Result<(), BleClientError>,
    attempt: u32,
) -> bool
    decreases policy.max_attempts - attempt,
{
    if attempt >= policy.max_attempts {
        false
    } else {
        match step_after_attempt(policy, attempt, outcomes(attempt)) {
            RelayStep::Relayed => true,
            RelayStep::Dropped => false,
            RelayStep::Wait => is_relayed(policy, outcomes, (attempt + 1) as u32),
        }
    }
}

/// Relaying is bounded, whatever happens: no message is attempted more often than the policy says.
pub proof fn law_relaying_is_bounded(
    policy: RelayRetryPolicy,
    outcomes: spec_fn(u32) -> Result<(), BleClientError>,
    attempt: u32,
)
    requires
        attempt <= policy.max_attempts,
    ensures
        attempts_made(policy, outcomes, attempt) <= policy.max_attempts - attempt,
    decreases policy.max_attempts - attempt,
{
    if attempt < policy.max_attempts && step_after_attempt(policy, attempt, outcomes(attempt))
        == RelayStep::Wait {
        law_relaying_is_bounded(policy, outcomes, (attempt + 1) as u32);
    }
}

/// A message is passed on exactly if some attempt within the policy succeeds after nothing but
/// errors that are worth retrying.
pub proof fn law_relayed_iff_an_attempt_succeeds(
    policy: RelayRetryPolicy,
    outcomes: spec_fn(u32) -> Result<(), BleClientError>,
    attempt: u32,
)
    ensures
        is_relayed(policy, outcomes, attempt) <==> exists|k: u32|
            attempt <= k < policy.max_attempts && (#[trigger] outcomes(k)) is Ok && forall|i: u32|
                attempt <= i < k ==> (#[trigger] outcomes(i)) is Err && worth_retrying(
                    outcomes(i)->Err_0,
                ),
    decreases policy.max_attempts - attempt,
{
    if attempt < policy.max_attempts {
        let here = outcomes(attempt);
        match step_after_attempt(policy, attempt, here) {
            RelayStep::Relayed => {},
            RelayStep::Dropped => {
                assert forall|k: u32|
                    attempt <= k < policy.max_attempts && (#[trigger] outcomes(k)) is Ok implies !(
                forall|i: u32|
                    attempt <= i < k ==> (#[trigger] outcomes(i)) is Err && worth_retrying(
                        outcomes(i)->Err_0,
                    )) by {
                    if k > attempt {
                        assert(attempt + 1 < policy.max_attempts);
                        assert(!(outcomes(attempt) is Err && worth_retrying(
                            outcomes(attempt)->Err_0,
                        )));
                    }
                }
            },
            RelayStep::Wait => {
                let next = (attempt + 1) as u32;
                law_relayed_iff_an_attempt_succeeds(policy, outcomes, next);
                if is_relayed(policy, outcomes, next) {
                    let k = choose|k: u32|
                        next <= k < policy.max_attempts && (#[trigger] outcomes(k)) is Ok
                            && forall|i: u32|
                            next <= i < k ==> (#[trigger] outcomes(i)) is Err && worth_retrying(
                                outcomes(i)->Err_0,
                            );
                    assert forall|i: u32| attempt <= i < k implies (#[trigger] outcomes(i)) is Err
                        && worth_retrying(outcomes(i)->Err_0) by {
                        if i == attempt {
                            assert(outcomes(i) == here);
                        }
                    }
                    assert(outcomes(k) is Ok);
                }
            },
        }
    }
}

/// The local node and the nodes that it has an edge to.
pub open spec fn is_visible(
    local_node_id: NodeId,
    edges: Map<EdgeKey, MeshEdge>,
    node_id: NodeId,
) -> bool {
    node_id == local_node_id || edges.contains_key(
        EdgeKey { from_node_id: local_node_id, to_node_id: node_id },
    )
}

/// The edges that start at the local node.
pub open spec fn own_edges(local_node_id: NodeId, edges: Map<EdgeKey, MeshEdge>) -> Map<
    EdgeKey,
    MeshEdge,
> {
    Map::new(
        |key: EdgeKey| edges.contains_key(key) && key.from_node_id == local_node_id,
        |key: EdgeKey| edges[key],
    )
}

/// The nodes that are visible.
pub open spec fn visible_nodes(
    local_node_id: NodeId,
    edges: Map<EdgeKey, MeshEdge>,
    nodes: Map<NodeId, MeshNode>,
) -> Map<NodeId, MeshNode> {
    Map::new(
        |id: NodeId| nodes.contains_key(id) && is_visible(local_node_id, edges, id),
        |id: NodeId| nodes[id],
    )
}

/// The routes between nodes that are visible.
pub open spec fn visible_routes(
    local_node_id: NodeId,
    edges: Map<EdgeKey, MeshEdge>,
    routes: Map<RouteId, ActiveRoute>,
) -> Map<RouteId, ActiveRoute> {
    Map::new(
        |id: RouteId|
            {
                &&& routes.contains_key(id)
                &&& is_visible(local_node_id, edges, routes[id].owner_node_id)
                &&& is_visible(local_node_id, edges, routes[id].terminal_node_id)
            },
        |id: RouteId| routes[id],
    )
}

fn keep_own_edges(
    local_node_id: NodeId,
    edges: OrderedMap<EdgeKey, MeshEdge>,
) -> (kept: OrderedMap<EdgeKey, MeshEdge>)
    requires
        edges.wf(),
    ensures
        kept.wf(),
        kept@ == own_edges(local_node_id, edges@),
{
    let ghost before = edges@;
    let mut kept = edges;
    let mut i: usize = 0;
    while i < kept.len()
        invariant
            kept.wf(),
            i <= kept.keys().len(),
            forall|key: EdgeKey| #[trigger]
                kept@.contains_key(key) ==> before.contains_key(key) && kept@[key] == before[key],
            forall|key: EdgeKey| #[trigger]
                before.contains_key(key) && key.from_node_id == local_node_id
                    ==> kept@.contains_key(key),
            forall|j: int|
                0 <= j < i ==> (#[trigger] kept.keys()[j]).from_node_id == local_node_id,
        decreases kept.keys().len() - i,
    {
        let ghost was = kept;
        if kept.key_at(i).from_node_id == local_node_id {
            i = i + 1;
        } else {
            kept.remove_at(i);
            proof {
                assert forall|j: int| 0 <= j < i implies (
                #[trigger] kept.keys()[j]).from_node_id == local_node_id by {
                    assert(kept.keys()[j] == was.keys()[j]);
                }
            }
        }
    }
    proof {
        assert forall|key: EdgeKey| #[trigger] kept@.contains_key(key) implies key.from_node_id
            == local_node_id by {
            let j = kept.lemma_position(key);
            assert(kept.keys()[j] == key);
        }
        assert(kept@ =~= own_edges(local_node_id, before));
    }
    kept
}

fn node_is_visible(
    local_node_id: NodeId,
    edges: &OrderedMap<EdgeKey, MeshEdge>,
    node_id: NodeId,
) -> (visible: bool)
    requires
        edges.wf(),
    ensures
        visible == is_visible(local_node_id, edges@, node_id),
{
    node_id == local_node_id || edges.contains_key(
        &EdgeKey { from_node_id: local_node_id, to_node_id: node_id },
    )
}

fn keep_visible_nodes(
    local_node_id: NodeId,
    edges: &OrderedMap<EdgeKey, MeshEdge>,
    nodes: OrderedMap<NodeId, MeshNode>,
) -> (kept: OrderedMap<NodeId, MeshNode>)
    requires
        edges.wf(),
        nodes.wf(),
    ensures
        kept.wf(),
        kept@ == visible_nodes(local_node_id, edges@, nodes@),
{
    let ghost before = nodes@;
    let mut kept = nodes;
    let mut i: usize = 0;
    while i < kept.len()
        invariant
            edges.wf(),
            kept.wf(),
            i <= kept.keys().len(),
            forall|id: NodeId| #[trigger]
                kept@.contains_key(id) ==> before.contains_key(id) && kept@[id] == before[id],
            forall|id: NodeId| #[trigger]
                before.contains_key(id) && is_visible(local_node_id, edges@, id)
                    ==> kept@.contains_key(id),
            forall|j: int|
                0 <= j < i ==> is_visible(local_node_id, edges@, #[trigger] kept.keys()[j]),
        decreases kept.keys().len() - i,
    {
        let ghost was = kept;
        if node_is_visible(local_node_id, edges, kept.key_at(i)) {
            i = i + 1;
        } else {
            kept.remove_at(i);
            proof {
                assert forall|j: int| 0 <= j < i implies is_visible(
                    local_node_id,
                    edges@,
                    #[trigger] kept.keys()[j],
                ) by {
                    assert(kept.keys()[j] == was.keys()[j]);
                }
            }
        }
    }
    proof {
        assert forall|id: NodeId| #[trigger] kept@.contains_key(id) implies is_visible(
            local_node_id,
            edges@,
            id,
        ) by {
            let j = kept.lemma_position(id);
            assert(kept.keys()[j] == id);
        }
        assert(kept@ =~= visible_nodes(local_node_id, edges@, before));
    }
    kept
}

/// Whether both ends of a route are visible.
pub open spec fn route_visible(
    local_node_id: NodeId,
    edges: Map<EdgeKey, MeshEdge>,
    route: ActiveRoute,
) -> bool {
    is_visible(local_node_id, edges, route.owner_node_id) && is_visible(
        local_node_id,
        edges,
        route.terminal_node_id,
    )
}

fn keep_visible_routes(
    local_node_id: NodeId,
    edges: &OrderedMap<EdgeKey, MeshEdge>,
    routes: OrderedMap<RouteId, ActiveRoute>,
) -> (kept: OrderedMap<RouteId, ActiveRoute>)
    requires
        edges.wf(),
        routes.wf(),
    ensures
        kept.wf(),
        kept@ == visible_routes(local_node_id, edges@, routes@),
{
    let ghost before = routes@;
    let mut kept = routes;
    let mut i: usize = 0;
    while i < kept.len()
        invariant
            edges.wf(),
            kept.wf(),
            i <= kept.keys().len(),
            forall|id: RouteId| #[trigger]
                kept@.contains_key(id) ==> before.contains_key(id) && kept@[id] == before[id],
            forall|id: RouteId| #[trigger]
                before.contains_key(id) && route_visible(local_node_id, edges@, before[id])
                    ==> kept@.contains_key(id),
            forall|j: int|
                0 <= j < i ==> route_visible(
                    local_node_id,
                    edges@,
                    before[#[trigger] kept.keys()[j]],
                ),
        decreases kept.keys().len() - i,
    {
        let ghost was = kept;
        proof {
            kept.lemma_at(i as int);
        }
        let route = kept.value_at(i);
        let owner_node_id = route.owner_node_id;
        let terminal_node_id = route.terminal_node_id;
        if node_is_visible(local_node_id, edges, owner_node_id) && node_is_visible(
            local_node_id,
            edges,
            terminal_node_id,
        ) {
            i = i + 1;
        } else {
            kept.remove_at(i);
            proof {
                assert forall|j: int| 0 <= j < i implies route_visible(
                    local_node_id,
                    edges@,
                    before[#[trigger] kept.keys()[j]],
                ) by {
                    assert(kept.keys()[j] == was.keys()[j]);
                }
            }
        }
    }
    proof {
        assert forall|id: RouteId| #[trigger] kept@.contains_key(id) implies route_visible(
            local_node_id,
            edges@,
            before[id],
        ) by {
            let j = kept.lemma_position(id);
            assert(kept.keys()[j] == id);
        }
        assert(kept@ =~= visible_routes(local_node_id, edges@, before));
    }
    kept
}

/// Strips a snapshot of what the local node cannot see for itself: edges between other nodes, nodes
/// that it has no edge to, and routes that involve such nodes.
pub fn sanitize_topology(snapshot: MeshTopology) -> (shown: MeshTopology)
    requires
        snapshot.wf(),
    ensures
        shown.wf(),
        shown.local_node_id == snapshot.local_node_id,
        shown.observed_at_tick == snapshot.observed_at_tick,
        shown.edges@ == own_edges(snapshot.local_node_id, snapshot.edges@),
        shown.nodes@ == visible_nodes(snapshot.local_node_id, snapshot.edges@, snapshot.nodes@),
        shown.active_routes@ == visible_routes(
            snapshot.local_node_id,
            snapshot.edges@,
            snapshot.active_routes@,
        ),
{
    let local_node_id = snapshot.local_node_id;
    let ghost all = snapshot.edges@;
    let edges = keep_own_edges(local_node_id, snapshot.edges);
    proof {
        lemma_own_edges_see_the_same(local_node_id, all);
        assert(visible_nodes(local_node_id, edges@, snapshot.nodes@) =~= visible_nodes(
            local_node_id,
            all,
            snapshot.nodes@,
        ));
        assert(visible_routes(local_node_id, edges@, snapshot.active_routes@) =~= visible_routes(
            local_node_id,
            all,
            snapshot.active_routes@,
        ));
    }
    let nodes = keep_visible_nodes(local_node_id, &edges, snapshot.nodes);
    let active_routes = keep_visible_routes(local_node_id, &edges, snapshot.active_routes);
    MeshTopology {
        local_node_id,
        observed_at_tick: snapshot.observed_at_tick,
        nodes,
        edges,
        active_routes,
    }
}

/// The edges of the local node are enough to say what is visible.
proof fn lemma_own_edges_see_the_same(local_node_id: NodeId, edges: Map<EdgeKey, MeshEdge>)
    ensures
        forall|id: NodeId| #[trigger]
            is_visible(local_node_id, own_edges(local_node_id, edges), id) == is_visible(
                local_node_id,
                edges,
                id,
            ),
{
}

/// Stripping a snapshot twice strips no more than stripping it once.
pub proof fn law_sanitizing_is_idempotent(
    local_node_id: NodeId,
    edges: Map<EdgeKey, MeshEdge>,
    nodes: Map<NodeId, MeshNode>,
    routes: Map<RouteId, ActiveRoute>,
)
    ensures
        own_edges(local_node_id, own_edges(local_node_id, edges)) == own_edges(
            local_node_id,
            edges,
        ),
        visible_nodes(
            local_node_id,
            own_edges(local_node_id, edges),
            visible_nodes(local_node_id, edges, nodes),
        ) == visible_nodes(local_node_id, edges, nodes),
        visible_routes(
            local_node_id,
            own_edges(local_node_id, edges),
            visible_routes(local_node_id, edges, routes),
        ) == visible_routes(local_node_id, edges, routes),
{
    let own = own_edges(local_node_id, edges);
    lemma_own_edges_see_the_same(local_node_id, edges);
    assert(own_edges(local_node_id, own) =~= own);
    assert(visible_nodes(local_node_id, own, visible_nodes(local_node_id, edges, nodes))
        =~= visible_nodes(local_node_id, edges, nodes));
    assert(visible_routes(local_node_id, own, visible_routes(local_node_id, edges, routes))
        =~= visible_routes(local_node_id, edges, routes));
}

/// A stripped snapshot names no node that the local node has no edge to: every node, both ends of
/// every edge and both ends of every route are the local node or its direct neighbours.
pub proof fn law_sanitized_topology_is_local(
    local_node_id: NodeId,
    edges: Map<EdgeKey, MeshEdge>,
    nodes: Map<NodeId, MeshNode>,
    routes: Map<RouteId, ActiveRoute>,
)
    ensures
        forall|id: NodeId| #[trigger]
            visible_nodes(local_node_id, edges, nodes).contains_key(id) ==> is_visible(
                local_node_id,
                edges,
                id,
            ),
        forall|key: EdgeKey| #[trigger]
            own_edges(local_node_id, edges).contains_key(key) ==> key.from_node_id == local_node_id
                && is_visible(local_node_id, edges, key.to_node_id),
        forall|id: RouteId| #[trigger]
            visible_routes(local_node_id, edges, routes).contains_key(id) ==> route_visible(
                local_node_id,
                edges,
                routes[id],
            ),
{
    assert forall|key: EdgeKey| #[trigger]
        own_edges(local_node_id, edges).contains_key(key) implies key.from_node_id == local_node_id
        && is_visible(local_node_id, edges, key.to_node_id) by {
        assert(key == EdgeKey { from_node_id: local_node_id, to_node_id: key.to_node_id });
    }
}

/// The peers that the user introduced.
#[derive(Debug)]
pub struct IntroducedPeers {
    peers: OrderedMap<NodeId, ()>,
}

impl IntroducedPeers {
    /// The set of peers.
    pub closed spec fn peers(&self) -> Set<NodeId> {
        self.peers@.dom()
    }

    /// The peers in order of their identity.
    pub closed spec fn ordered(&self) -> Seq<NodeId> {
        self.peers.keys()
    }

    /// Each peer occurs once, in order.
    pub closed spec fn wf(&self) -> bool {
        self.peers.wf()
    }

    /// No peer yet.
    pub fn new() -> (introduced: IntroducedPeers)
        ensures
            introduced.wf(),
            introduced.peers() == Set::<NodeId>::empty(),
    {
        let introduced = IntroducedPeers { peers: OrderedMap::new() };
        assert(introduced.peers() =~= Set::<NodeId>::empty());
        introduced
    }

    /// Introduces a peer, and says whether it is new.
    pub fn introduce(&mut self, node_id: NodeId) -> (inserted: bool)
        requires
            old(self).wf(),
        ensures
            final(self).wf(),
            inserted == !old(self).peers().contains(node_id),
            final(self).peers() == old(self).peers().insert(node_id),
    {
        let inserted = self.peers.insert(node_id, ()).is_none();
        assert(self.peers() =~= old(self).peers().insert(node_id));
        inserted
    }

    /// The peers in order of their identity, each once.
    pub fn list(&self) -> (peers: Vec<JacquardIntroducedPeer>)
        requires
            self.wf(),
        ensures
            peers@.len() == self.ordered().len(),
            forall|i: int|
                0 <= i < peers@.len() ==> (#[trigger] peers@[i]).node_id == self.ordered()[i],
            self.ordered().to_set() == self.peers(),
            crate::ordered_map::ascending(self.ordered()),
    {
        let mut peers: Vec<JacquardIntroducedPeer> = Vec::new();
        let mut i: usize = 0;
        while i < self.peers.len()
            invariant
                self.wf(),
                i <= self.ordered().len(),
                peers@.len() == i,
                forall|j: int|
                    0 <= j < i ==> (#[trigger] peers@[j]).node_id == self.ordered()[j],
            decreases self.ordered().len() - i,
        {
            peers.push(JacquardIntroducedPeer { node_id: self.peers.key_at(i) });
            i = i + 1;
        }
        proof {
            self.peers.lemma_len();
        }
        peers
    }
}

/// Why a host cannot do what it was asked.
#[derive(Clone, Copy, Debug, PartialEq, Eq)]
pub enum HostSlotError {
    NotStarted,
    AlreadyStarted { local_node_id: NodeId },
}

/// The one service that a host may run, by the node that it runs for.
#[derive(Clone, Copy, Debug, PartialEq, Eq)]
pub struct HostSlot {
    pub running: Option<NodeId>,
}

impl HostSlot {
    /// No service is running.
    pub fn empty() -> (slot: HostSlot)
        ensures
            slot.running is None,
    {
        HostSlot { running: None }
    }

    /// Refuses to start while a service is running.
    pub fn check_free(&self) -> (result: Result<(), HostSlotError>)
        ensures
            match self.running {
                Some(node_id) => result matches Err(HostSlotError::AlreadyStarted {
                    local_node_id,
                }) && local_node_id == node_id,
                None => result is Ok,
            },
    {
        match self.running {
            Some(local_node_id) => Err(HostSlotError::AlreadyStarted { local_node_id }),
            None => Ok(()),
        }
    }

    /// Takes a started service, unless another one got there first.
    pub fn install(&mut self, local_node_id: NodeId) -> (result: Result<(), HostSlotError>)
        ensures
            match old(self).running {
                Some(node_id) => {
                    &&& *final(self) == *old(self)
                    &&& result matches Err(HostSlotError::AlreadyStarted { local_node_id: other })
                    &&& other == node_id
                },
                None => result is Ok && final(self).running == Some(local_node_id),
            },
    {
        match self.running {
            Some(local_node_id) => Err(HostSlotError::AlreadyStarted { local_node_id }),
            None => {
                self.running = Some(local_node_id);
                Ok(())
            },
        }
    }

    /// The node of the running service.
    pub fn service(&self) -> (result: Result<NodeId, HostSlotError>)
        ensures
            match self.running {
                Some(node_id) => result matches Ok(id) && id == node_id,
                None => result matches Err(e) && e is NotStarted,
            },
    {
        match self.running {
            Some(node_id) => Ok(node_id),
            None => Err(HostSlotError::NotStarted),
        }
    }
}

/// Bytes that are no application frame are discarded, and only they: a frame is delivered or passed
/// on, by its destination alone, whoever handed it over and whatever it holds.
pub proof fn law_every_frame_is_delivered_or_passed_on(
    local_node_id: NodeId,
    transport_from: NodeId,
    bytes: Seq<u8>,
)
    ensures
        pumped(local_node_id, transport_from, bytes) is Discard <==> !(bytes.len() >= 72
            && bytes.take(8) == crate::framing::application_magic()),
        pumped(local_node_id, transport_from, bytes) is Deliver ==> {
            &&& bytes.subrange(40, 72) == local_node_id.0@
            &&& pumped(local_node_id, transport_from, bytes)->transport_from == transport_from
            &&& pumped(local_node_id, transport_from, bytes)->Deliver_from == bytes.subrange(8, 40)
            &&& pumped(local_node_id, transport_from, bytes)->payload == bytes.skip(72)
        },
        pumped(local_node_id, transport_from, bytes) is Relay ==> {
            &&& bytes.subrange(40, 72) != local_node_id.0@
            &&& pumped(local_node_id, transport_from, bytes)->frame == bytes
            &&& pumped(local_node_id, transport_from, bytes)->Relay_from == bytes.subrange(8, 40)
            &&& pumped(local_node_id, transport_from, bytes)->destination == bytes.subrange(40, 72)
        },
{
}

/// Only what may pass is worth another attempt: that there is no route yet, and that a transport is
/// unavailable or too slow, in whichever part of the client that was noticed. A transport that
/// rejects a message, and every other error, ends it.
pub proof fn law_only_passing_troubles_are_retried(error: BleClientError, trouble: TransportError)
    ensures
        worth_retrying(
            BleClientError::Route(RouteError::Selection(RouteSelectionError::NoCandidate)),
        ),
        ({
            let passes = trouble is Unavailable || trouble is TimedOut;
            &&& worth_retrying(BleClientError::Transport(trouble)) <==> passes
            &&& worth_retrying(BleClientError::Route(RouteError::Transport(trouble))) <==> passes
            &&& worth_retrying(BleClientError::Bridge(BleBridgeError::Transport(trouble)))
                <==> passes
            &&& worth_retrying(
                BleClientError::Bridge(BleBridgeError::Route(RouteError::Transport(trouble))),
            ) <==> passes
        }),
        worth_retrying(error) ==> {
            ||| error == BleClientError::Route(
                RouteError::Selection(RouteSelectionError::NoCandidate),
            )
            ||| error is Transport
            ||| error is Route && error->Route_0 is Transport
            ||| error is Bridge && error->Bridge_0 is Transport
            ||| error is Bridge && error->Bridge_0 is Route && error->Bridge_0->Route_0 is Transport
        },
        !worth_retrying(BleClientError::Transport(TransportError::Rejected)),
{
}

/// An attempt that succeeded relays the message; one that failed is followed by another exactly if
/// the trouble may pass and the policy allows one more.
pub proof fn law_attempts_go_on_while_it_helps(
    policy: RelayRetryPolicy,
    attempt: u32,
    outcome: Result<(), BleClientError>,
)
    ensures
        step_after_attempt(policy, attempt, outcome) is Relayed <==> outcome is Ok,
        step_after_attempt(policy, attempt, outcome) is Wait <==> outcome is Err && worth_retrying(
            outcome->Err_0,
        ) && attempt + 2 <= policy.max_attempts,
{
}

/// As long as nothing but passing trouble comes, every attempt that the policy allows is made; the
/// first outcome of any other kind is the last one.
pub proof fn law_every_allowed_attempt_is_made(
    policy: RelayRetryPolicy,
    outcomes: spec_fn(u32) -> Result<(), BleClientError>,
    attempt: u32,
)
    requires
        attempt < policy.max_attempts,
    ensures
        attempts_made(policy, outcomes, attempt) >= 1,
        (forall|i: u32|
            attempt <= i < policy.max_attempts ==> (#[trigger] outcomes(i)) is Err
                && worth_retrying(outcomes(i)->Err_0)) ==> attempts_made(policy, outcomes, attempt)
            == policy.max_attempts - attempt,
        !(outcomes(attempt) is Err && worth_retrying(outcomes(attempt)->Err_0)) ==> attempts_made(
            policy,
            outcomes,
            attempt,
        ) == 1,
    decreases policy.max_attempts - attempt,
{
    if attempt + 1 < policy.max_attempts {
        law_every_allowed_attempt_is_made(policy, outcomes, (attempt + 1) as u32);
    }
}

/// A stripped snapshot lacks nothing that the local node can see for itself: it keeps every edge that
/// starts there, whatever its transport and its state, every node at the end of such an edge, the
/// local node, and every route between these nodes, each as it was; and it keeps nothing else.
pub proof fn law_sanitizing_keeps_what_is_local(
    local_node_id: NodeId,
    edges: Map<EdgeKey, MeshEdge>,
    nodes: Map<NodeId, MeshNode>,
    routes: Map<RouteId, ActiveRoute>,
    node_id: NodeId,
    key: EdgeKey,
    route_id: RouteId,
)
    ensures
        ({
            let to = |id: NodeId| EdgeKey { from_node_id: local_node_id, to_node_id: id };
            let kept_nodes = visible_nodes(local_node_id, edges, nodes);
            let kept_edges = own_edges(local_node_id, edges);
            let kept_routes = visible_routes(local_node_id, edges, routes);
            let owner = routes[route_id].owner_node_id;
            let terminal = routes[route_id].terminal_node_id;
            &&& kept_nodes.contains_key(node_id) <==> nodes.contains_key(node_id) && (node_id
                == local_node_id || edges.contains_key(to(node_id)))
            &&& kept_nodes.contains_key(node_id) ==> kept_nodes[node_id] == nodes[node_id]
            &&& kept_edges.contains_key(key) <==> edges.contains_key(key) && key.from_node_id
                == local_node_id
            &&& kept_edges.contains_key(key) ==> kept_edges[key] == edges[key]
            &&& kept_routes.contains_key(route_id) <==> routes.contains_key(route_id) && (owner
                == local_node_id || edges.contains_key(to(owner))) && (terminal == local_node_id
                || edges.contains_key(to(terminal)))
            &&& kept_routes.contains_key(route_id) ==> kept_routes[route_id] == routes[route_id]
        }),
{
}

/// What arrives is delivered exactly if it is a frame for this node, passed on unchanged exactly if it is
/// a frame for another one, and discarded exactly if it is no frame.
pub proof fn law_arrivals_are_pumped(
    local_node_id: NodeId,
    transport_from: NodeId,
    payload: Vec<u8>,
    step: PumpStep,
)
    requires
        call_ensures(pump_step, (local_node_id, transport_from, payload), step),
    ensures
        ({
            let frame = is_application_frame(payload@);
            let own = payload@.subrange(40, 72) == local_node_id.0@;
            &&& step is Discard <==> !frame
            &&& step is Deliver <==> frame && own
            &&& step is Relay <==> frame && !own
            &&& step matches PumpStep::Deliver(message) ==> {
                &&& message.from_node_id.0@ == payload@.subrange(8, 40)
                &&& message.transport_from_node_id == transport_from
                &&& message.payload@ == payload@.skip(72)
            }
            &&& step matches PumpStep::Relay { relay, frame: bytes } ==> {
                &&& relay.from_node_id.0@ == payload@.subrange(8, 40)
                &&& relay.destination_node_id.0@ == payload@.subrange(40, 72)
                &&& bytes@ == payload@
            }
        }),
{
    law_every_frame_is_delivered_or_passed_on(local_node_id, transport_from, payload@);
    assert(step@ is Discard <==> step is Discard);
    assert(step@ is Deliver <==> step is Deliver);
    assert(step@ is Relay <==> step is Relay);
}

/// Another attempt follows exactly if the trouble may pass and the policy allows it.
pub proof fn law_relay_attempts_follow_the_policy(
    policy: RelayRetryPolicy,
    attempt: u32,
    outcome: Result<(), BleClientError>,
    step: RelayStep,
    any: bool,
)
    requires
        call_ensures(RelayRetryPolicy::after_attempt, (&policy, attempt, outcome), step),
        call_ensures(RelayRetryPolicy::attempts_any, (&policy,), any),
    ensures
        any <==> policy.max_attempts > 0,
        step is Relayed <==> outcome is Ok,
        step is Wait <==> outcome is Err && worth_retrying(outcome->Err_0) && attempt + 2
            <= policy.max_attempts,
{
    law_attempts_go_on_while_it_helps(policy, attempt, outcome);
}

/// A snapshot is stripped of nothing that the local node sees for itself, and of everything else.
pub proof fn law_snapshots_are_stripped_to_what_is_local(
    snapshot: MeshTopology,
    shown: MeshTopology,
    node_id: NodeId,
    key: EdgeKey,
    route_id: RouteId,
)
    requires
        call_ensures(sanitize_topology, (snapshot,), shown),
    ensures
        ({
            let local = snapshot.local_node_id;
            let sees = |id: NodeId|
                id == local || snapshot.edges@.contains_key(
                    EdgeKey { from_node_id: local, to_node_id: id },
                );
            &&& shown.local_node_id == local
            &&& shown.observed_at_tick == snapshot.observed_at_tick
            &&& shown.nodes@.contains_key(node_id) <==> snapshot.nodes@.contains_key(node_id)
                && sees(node_id)
            &&& shown.nodes@.contains_key(node_id) ==> shown.nodes@[node_id]
                == snapshot.nodes@[node_id]
            &&& shown.edges@.contains_key(key) <==> snapshot.edges@.contains_key(key)
                && key.from_node_id == local
            &&& shown.edges@.contains_key(key) ==> shown.edges@[key] == snapshot.edges@[key]
            &&& shown.active_routes@.contains_key(route_id) <==> {
                &&& snapshot.active_routes@.contains_key(route_id)
                &&& sees(snapshot.active_routes@[route_id].owner_node_id)
                &&& sees(snapshot.active_routes@[route_id].terminal_node_id)
            }
            &&& shown.active_routes@.contains_key(route_id) ==> shown.active_routes@[route_id]
                == snapshot.active_routes@[route_id]
        }),
{
}

/// A host runs one service at a time: a second one is refused with the node of the first, which stays,
/// and the node of the service that runs is the one that was installed.
pub proof fn law_host_runs_one_service()
    ensures
        forall|slot: &mut HostSlot, node_id: NodeId, result: Result<(), HostSlotError>|
            #[trigger] call_ensures(HostSlot::install, (slot, node_id), result) ==> {
                &&& result is Ok <==> (*slot).running is None
                &&& result is Ok ==> final(slot).running == Some(node_id)
                &&& result is Err ==> final(slot).running == (*slot).running
                &&& result matches Err(HostSlotError::AlreadyStarted { local_node_id })
                    ==> (*slot).running == Some(local_node_id)
                &&& !(result is Err && result->Err_0 is NotStarted)
            },
        forall|slot: HostSlot, result: Result<NodeId, HostSlotError>|
            #[trigger] call_ensures(HostSlot::service, (&slot,), result) ==> {
                &&& result is Ok <==> slot.running is Some
                &&& result is Ok ==> slot.running == Some(result->Ok_0)
                &&& result is Err ==> result->Err_0 is NotStarted
            },
        forall|slot: HostSlot, result: Result<(), HostSlotError>|
            #[trigger] call_ensures(HostSlot::check_free, (&slot,), result) ==> (result is Ok
                <==> slot.running is None),
{
}

/// A peer that was introduced is listed, once, and so is everyone who was introduced before; a peer is
/// new exactly the first time.
pub proof fn law_introduced_peers_are_listed()
    ensures
        forall|introduced: &mut IntroducedPeers, node_id: NodeId, inserted: bool|
            #[trigger] call_ensures(
                IntroducedPeers::introduce,
                (introduced, node_id),
                inserted,
            ) ==> {
                &&& inserted <==> !(*introduced).peers().contains(node_id)
                &&& final(introduced).peers().contains(node_id)
                &&& forall|other: NodeId|
                    other != node_id ==> (#[trigger] final(introduced).peers().contains(other)
                        <==> (*introduced).peers().contains(other))
            },
        forall|introduced: IntroducedPeers, listed: Vec<JacquardIntroducedPeer>, node_id: NodeId|
            #[trigger] call_ensures(IntroducedPeers::list, (&introduced,), listed) ==> (
            #[trigger] introduced.peers().contains(node_id) <==> exists|i: int|
                0 <= i < listed@.len() && (#[trigger] listed@[i]).node_id == node_id),
{
    assert forall|introduced: IntroducedPeers, listed: Vec<JacquardIntroducedPeer>, node_id: NodeId|
        #[trigger] call_ensures(IntroducedPeers::list, (&introduced,), listed) implies (
    #[trigger] introduced.peers().contains(node_id) <==> exists|i: int|
        0 <= i < listed@.len() && (#[trigger] listed@[i]).node_id == node_id) by {
        let ordered = introduced.ordered();
        if introduced.peers().contains(node_id) {
            assert(ordered.to_set().contains(node_id));
            let i = ordered.index_of(node_id);
            assert(listed@[i].node_id == node_id);
        }
        if exists|i: int| 0 <= i < listed@.len() && (#[trigger] listed@[i]).node_id == node_id {
            let i = choose|i: int|
                0 <= i < listed@.len() && (#[trigger] listed@[i]).node_id == node_id;
            assert(ordered[i] == node_id);
            assert(ordered.to_set().contains(node_id));
        }
    }
}

} // verus!
