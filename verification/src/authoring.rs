//! Builders for [`MeshTopology`] and [`ActiveRoute`].
//!
//! [`topology`] starts a [`MeshTopologyBuilder`] and [`active_route`] an [`ActiveRouteBuilder`].
//! [`MeshTopologyBuilder::build`] admits a snapshot only if it is sound: no dangling edges, no
//! collapsed routes, and a transport declared for every hop that is claimed.

use crate::endpoint::{TransportKind, contains_kind, holds_kind};
use crate::identity::{EdgeKey, NodeId, RouteId, RoutingEngineId, Tick};
use crate::ordered_map::{lemma_listed_keeps, listed, OrderedMap};
use crate::topology::{
    ActiveRoute, ActiveRouteDelivery, DestinationId, MeshEdge, MeshNode, MeshNodeRole,
    MeshTopology, MeshTopologyBuildError, RouteShapeVisibility, delivery_hops,
};
use vstd::prelude::*;

verus! {

/// Starts the snapshot that a node takes at a point in logical time.
pub fn topology(local_node_id: NodeId, observed_at_tick: Tick) -> (builder: MeshTopologyBuilder)
    ensures
        builder.is_empty_for(local_node_id, observed_at_tick),
{
    MeshTopologyBuilder::new(local_node_id, observed_at_tick)
}

/// Starts a route between two nodes.
pub fn active_route(
    route_id: RouteId,
    owner_node_id: NodeId,
    destination: DestinationId,
    terminal_node_id: NodeId,
    engine: RoutingEngineId,
    observed_at_tick: Tick,
) -> (builder: ActiveRouteBuilder)
    ensures
        builder.route().route_id == route_id,
        builder.route().owner_node_id == owner_node_id,
        builder.route().destination == destination,
        builder.route().terminal_node_id == terminal_node_id,
        builder.route().engine == engine,
        builder.route().observed_at_tick == observed_at_tick,
        builder.route().shape_visibility == RouteShapeVisibility::ExplicitPath,
        builder.route().protocol_mix@ == Seq::<TransportKind>::empty(),
        builder.route().delivery == inferred_delivery(owner_node_id, terminal_node_id),
{
    ActiveRouteBuilder::new(
        route_id,
        owner_node_id,
        destination,
        terminal_node_id,
        engine,
        observed_at_tick,
    )
}

/// The most specific delivery that two nodes allow.
pub open spec fn inferred_delivery(
    owner_node_id: NodeId,
    terminal_node_id: NodeId,
) -> ActiveRouteDelivery {
    if owner_node_id == terminal_node_id {
        ActiveRouteDelivery::Local
    } else {
        ActiveRouteDelivery::Direct { next_hop_node_id: terminal_node_id }
    }
}

/// A route under construction.
#[derive(Debug)]
pub struct ActiveRouteBuilder {
    route: ActiveRoute,
}

impl ActiveRouteBuilder {
    /// The route as it stands.
    pub closed spec fn route(&self) -> ActiveRoute {
        self.route
    }

    /// Starts a route between two nodes: local to one node, direct between two.
    pub fn new(
        route_id: RouteId,
        owner_node_id: NodeId,
        destination: DestinationId,
        terminal_node_id: NodeId,
        engine: RoutingEngineId,
        observed_at_tick: Tick,
    ) -> (builder: ActiveRouteBuilder)
        ensures
            builder.route().route_id == route_id,
            builder.route().owner_node_id == owner_node_id,
            builder.route().destination == destination,
            builder.route().terminal_node_id == terminal_node_id,
            builder.route().engine == engine,
            builder.route().observed_at_tick == observed_at_tick,
            builder.route().shape_visibility == RouteShapeVisibility::ExplicitPath,
            builder.route().protocol_mix@ == Seq::<TransportKind>::empty(),
            builder.route().delivery == inferred_delivery(owner_node_id, terminal_node_id),
    {
        let delivery = if owner_node_id == terminal_node_id {
            ActiveRouteDelivery::Local
        } else {
            ActiveRouteDelivery::Direct { next_hop_node_id: terminal_node_id }
        };
        ActiveRouteBuilder {
            route: ActiveRoute {
                route_id,
                owner_node_id,
                destination,
                terminal_node_id,
                engine,
                shape_visibility: RouteShapeVisibility::ExplicitPath,
                protocol_mix: Vec::new(),
                delivery,
                observed_at_tick,
            },
        }
    }

    /// Delivers on the owner itself, over no transport.
    pub fn local(self) -> (builder: ActiveRouteBuilder)
        ensures
            builder.route().protocol_mix@ == Seq::<TransportKind>::empty(),
            builder.route() == (ActiveRoute {
                delivery: ActiveRouteDelivery::Local,
                protocol_mix: builder.route().protocol_mix,
                ..self.route()
            }),
    {
        let mut route = self.route;
        route.delivery = ActiveRouteDelivery::Local;
        route.protocol_mix = Vec::new();
        ActiveRouteBuilder { route }
    }

    /// Delivers over one hop.
    pub fn direct(self, next_hop_node_id: NodeId) -> (builder: ActiveRouteBuilder)
        ensures
            builder.route() == (ActiveRoute {
                delivery: ActiveRouteDelivery::Direct { next_hop_node_id },
                ..self.route()
            }),
    {
        let mut route = self.route;
        route.delivery = ActiveRouteDelivery::Direct { next_hop_node_id };
        ActiveRouteBuilder { route }
    }

    /// Delivers over hops that are not shown; the hint is at least one.
    pub fn reachable(self, hop_count_hint: u8) -> (builder: ActiveRouteBuilder)
        ensures
            builder.route() == (ActiveRoute {
                delivery: ActiveRouteDelivery::Reachable {
                    hop_count_hint: if hop_count_hint == 0 {
                        1
                    } else {
                        hop_count_hint
                    },
                },
                ..self.route()
            }),
    {
        let hop_count_hint: u8 = if hop_count_hint == 0 {
            1
        } else {
            hop_count_hint
        };
        let mut route = self.route;
        route.delivery = ActiveRouteDelivery::Reachable { hop_count_hint };
        ActiveRouteBuilder { route }
    }

    /// Declares the transports of the route.
    pub fn with_protocol_mix(self, protocol_mix: Vec<TransportKind>) -> (builder:
        ActiveRouteBuilder)
        ensures
            builder.route() == (ActiveRoute { protocol_mix, ..self.route() }),
    {
        let mut route = self.route;
        route.protocol_mix = protocol_mix;
        ActiveRouteBuilder { route }
    }

    /// Declares how much of the path is shown.
    pub fn with_shape_visibility(self, shape_visibility: RouteShapeVisibility) -> (builder:
        ActiveRouteBuilder)
        ensures
            builder.route() == (ActiveRoute { shape_visibility, ..self.route() }),
    {
        let mut route = self.route;
        route.shape_visibility = shape_visibility;
        ActiveRouteBuilder { route }
    }

    /// The finished route.
    pub fn build(self) -> (route: ActiveRoute)
        ensures
            route == self.route(),
    {
        self.route
    }
}

/// The first fault among the first `n` items, where `fault` judges each by its position.
pub open spec fn first_fault<E>(fault: spec_fn(int) -> Option<E>, n: nat) -> Option<E>
    decreases n,
{
    if n == 0 {
        None
    } else {
        match first_fault(fault, (n - 1) as nat) {
            Some(e) => Some(e),
            None => fault(n - 1),
        }
    }
}

/// A fault among the first items is the first fault of all of them.
proof fn lemma_first_fault_stays<E>(fault: spec_fn(int) -> Option<E>, n: nat, all: nat)
    requires
        n <= all,
        first_fault(fault, n) is Some,
    ensures
        first_fault(fault, all) == first_fault(fault, n),
    decreases all,
{
    if n < all {
        lemma_first_fault_stays(fault, n, (all - 1) as nat);
    }
}

/// Where no item has a fault, none of them has.
proof fn lemma_no_fault<E>(fault: spec_fn(int) -> Option<E>, n: nat, i: int)
    requires
        first_fault(fault, n) is None,
        0 <= i < n,
    ensures
        fault(i) is None,
    decreases n,
{
    if i < n - 1 {
        lemma_no_fault(fault, (n - 1) as nat, i);
    }
}

/// Two errors say the same thing.
pub open spec fn error_agrees(a: MeshTopologyBuildError, b: MeshTopologyBuildError) -> bool {
    match (a, b) {
        (
            MeshTopologyBuildError::RouteProtocolMixMissingTransport {
                route_id: p,
                transport_kind: x,
            },
            MeshTopologyBuildError::RouteProtocolMixMissingTransport {
                route_id: q,
                transport_kind: y,
            },
        ) => p == q && x@ == y@,
        _ => a == b,
    }
}

/// What is wrong with one node, given the nodes before it.
pub open spec fn node_fault(nodes: Seq<MeshNode>, i: int) -> Option<MeshTopologyBuildError> {
    if exists|j: int| 0 <= j < i && (#[trigger] nodes[j]).node_id == nodes[i].node_id {
        Some(MeshTopologyBuildError::DuplicateNode { node_id: nodes[i].node_id })
    } else {
        None
    }
}

/// The nodes by their identity; a later node takes the place of an earlier one.
pub open spec fn nodes_by_id(nodes: Seq<MeshNode>) -> Map<NodeId, MeshNode>
    decreases nodes.len(),
{
    if nodes.len() == 0 {
        Map::empty()
    } else {
        nodes_by_id(nodes.drop_last()).insert(nodes.last().node_id, nodes.last())
    }
}

/// What is wrong with a list of nodes: the first node that occurs a second time, else a local node
/// that is missing or not marked as local.
pub open spec fn nodes_fault(nodes: Seq<MeshNode>, local_node_id: NodeId) -> Option<
    MeshTopologyBuildError,
> {
    match first_fault(|i: int| node_fault(nodes, i), nodes.len()) {
        Some(e) => Some(e),
        None => if nodes_by_id(nodes).contains_key(local_node_id) && nodes_by_id(
            nodes,
        )[local_node_id].role == MeshNodeRole::Local {
            None
        } else {
            Some(MeshTopologyBuildError::MissingLocalNode { node_id: local_node_id })
        },
    }
}

/// What is wrong with one edge, given the edges before it: an end that is no node, the sender
/// first, or an edge that was there already.
pub open spec fn edge_fault(
    edges: Seq<MeshEdge>,
    nodes: Map<NodeId, MeshNode>,
    i: int,
) -> Option<MeshTopologyBuildError> {
    let from_node_id = edges[i].from_node_id;
    let to_node_id = edges[i].to_node_id;
    if !nodes.contains_key(from_node_id) {
        Some(
            MeshTopologyBuildError::EdgeReferencesUnknownNode {
                from_node_id,
                to_node_id,
                missing_node_id: from_node_id,
            },
        )
    } else if !nodes.contains_key(to_node_id) {
        Some(
            MeshTopologyBuildError::EdgeReferencesUnknownNode {
                from_node_id,
                to_node_id,
                missing_node_id: to_node_id,
            },
        )
    } else if exists|j: int| 0 <= j < i && (#[trigger] edges[j]).key() == edges[i].key() {
        Some(MeshTopologyBuildError::DuplicateEdge { from_node_id, to_node_id })
    } else {
        None
    }
}

/// The edges by their ends.
pub open spec fn edges_by_key(edges: Seq<MeshEdge>) -> Map<EdgeKey, MeshEdge>
    decreases edges.len(),
{
    if edges.len() == 0 {
        Map::empty()
    } else {
        edges_by_key(edges.drop_last()).insert(edges.last().key(), edges.last())
    }
}

/// What is wrong with a list of edges.
pub open spec fn edges_fault(
    edges: Seq<MeshEdge>,
    nodes: Map<NodeId, MeshNode>,
) -> Option<MeshTopologyBuildError> {
    first_fault(|i: int| edge_fault(edges, nodes, i), edges.len())
}

/// What is wrong with one hop of a path.
pub open spec fn hop_fault(
    route: ActiveRoute,
    hops: Seq<NodeId>,
    nodes: Map<NodeId, MeshNode>,
    i: int,
) -> Option<MeshTopologyBuildError> {
    if nodes.contains_key(hops[i]) {
        None
    } else {
        Some(
            MeshTopologyBuildError::RouteHopNodeMissing {
                route_id: route.route_id,
                node_id: hops[i],
            },
        )
    }
}

/// What is wrong with the step from one hop of a path to the next.
pub open spec fn step_fault(
    route: ActiveRoute,
    hops: Seq<NodeId>,
    edges: Map<EdgeKey, MeshEdge>,
    i: int,
) -> Option<MeshTopologyBuildError> {
    let key = EdgeKey { from_node_id: hops[i], to_node_id: hops[i + 1] };
    if !edges.contains_key(key) {
        Some(
            MeshTopologyBuildError::RouteMissingEdge {
                route_id: route.route_id,
                from_node_id: hops[i],
                to_node_id: hops[i + 1],
            },
        )
    } else if !holds_kind(
        route.protocol_mix@,
        edges[key].observation.value.endpoint.transport_kind@,
    ) {
        Some(
            MeshTopologyBuildError::RouteProtocolMixMissingTransport {
                route_id: route.route_id,
                transport_kind: edges[key].observation.value.endpoint.transport_kind,
            },
        )
    } else {
        None
    }
}

/// What is wrong with a path: first its hops, then the steps between them.
pub open spec fn path_fault(
    route: ActiveRoute,
    hops: Seq<NodeId>,
    nodes: Map<NodeId, MeshNode>,
    edges: Map<EdgeKey, MeshEdge>,
) -> Option<MeshTopologyBuildError> {
    match first_fault(|i: int| hop_fault(route, hops, nodes, i), hops.len()) {
        Some(e) => Some(e),
        None => if hops.len() == 0 {
            None
        } else {
            first_fault(|i: int| step_fault(route, hops, edges, i), (hops.len() - 1) as nat)
        },
    }
}

/// What is wrong with one route on its own.
pub open spec fn route_shape_fault(
    route: ActiveRoute,
    nodes: Map<NodeId, MeshNode>,
    edges: Map<EdgeKey, MeshEdge>,
) -> Option<MeshTopologyBuildError> {
    let route_id = route.route_id;
    let owner_node_id = route.owner_node_id;
    let terminal_node_id = route.terminal_node_id;
    if !nodes.contains_key(owner_node_id) {
        Some(MeshTopologyBuildError::RouteOwnerMissing { route_id, owner_node_id })
    } else if !nodes.contains_key(terminal_node_id) {
        Some(MeshTopologyBuildError::RouteTerminalMissing { route_id, terminal_node_id })
    } else {
        match route.delivery {
            ActiveRouteDelivery::Local => if owner_node_id != terminal_node_id {
                Some(
                    MeshTopologyBuildError::LocalDeliveryTargetsRemote {
                        route_id,
                        owner_node_id,
                        terminal_node_id,
                    },
                )
            } else if route.protocol_mix@.len() != 0 {
                Some(MeshTopologyBuildError::LocalDeliveryHasProtocolMix { route_id })
            } else {
                None
            },
            ActiveRouteDelivery::Direct { next_hop_node_id } => if next_hop_node_id
                != terminal_node_id {
                Some(
                    MeshTopologyBuildError::DirectDeliveryNextHopMismatch {
                        route_id,
                        next_hop_node_id,
                        terminal_node_id,
                    },
                )
            } else if owner_node_id == terminal_node_id {
                Some(MeshTopologyBuildError::DirectDeliveryCollapsesToLocal { route_id })
            } else {
                path_fault(
                    route,
                    delivery_hops(route.delivery, owner_node_id, terminal_node_id),
                    nodes,
                    edges,
                )
            },
            ActiveRouteDelivery::Reachable { hop_count_hint } => if hop_count_hint <= 1 {
                Some(MeshTopologyBuildError::ReachableDeliveryRequiresMultiHop { route_id })
            } else if owner_node_id == terminal_node_id {
                Some(MeshTopologyBuildError::ReachableDeliveryCollapsesToDirect { route_id })
            } else {
                None
            },
        }
    }
}

/// What is wrong with one route, given the routes before it.
pub open spec fn route_fault(
    routes: Seq<ActiveRoute>,
    nodes: Map<NodeId, MeshNode>,
    edges: Map<EdgeKey, MeshEdge>,
    i: int,
) -> Option<MeshTopologyBuildError> {
    match route_shape_fault(routes[i], nodes, edges) {
        Some(e) => Some(e),
        None => if exists|j: int|
            0 <= j < i && (#[trigger] routes[j]).route_id == routes[i].route_id {
            Some(MeshTopologyBuildError::DuplicateRoute { route_id: routes[i].route_id })
        } else {
            None
        },
    }
}

/// The routes by their identity.
pub open spec fn routes_by_id(routes: Seq<ActiveRoute>) -> Map<RouteId, ActiveRoute>
    decreases routes.len(),
{
    if routes.len() == 0 {
        Map::empty()
    } else {
        routes_by_id(routes.drop_last()).insert(routes.last().route_id, routes.last())
    }
}

/// What is wrong with a list of routes.
pub open spec fn routes_fault(
    routes: Seq<ActiveRoute>,
    nodes: Map<NodeId, MeshNode>,
    edges: Map<EdgeKey, MeshEdge>,
) -> Option<MeshTopologyBuildError> {
    first_fault(|i: int| route_fault(routes, nodes, edges, i), routes.len())
}

/// What is wrong with the parts of a snapshot: nodes are judged first, then edges, then routes.
pub open spec fn snapshot_fault(
    local_node_id: NodeId,
    nodes: Seq<MeshNode>,
    edges: Seq<MeshEdge>,
    routes: Seq<ActiveRoute>,
) -> Option<MeshTopologyBuildError> {
    match nodes_fault(nodes, local_node_id) {
        Some(e) => Some(e),
        None => match edges_fault(edges, nodes_by_id(nodes)) {
            Some(e) => Some(e),
            None => routes_fault(routes, nodes_by_id(nodes), edges_by_key(edges)),
        },
    }
}

/// A key is in the map of a list exactly if an item of the list has it.
proof fn lemma_nodes_by_id(nodes: Seq<MeshNode>, node_id: NodeId)
    ensures
        nodes_by_id(nodes).contains_key(node_id) <==> exists|j: int|
            0 <= j < nodes.len() && (#[trigger] nodes[j]).node_id == node_id,
        nodes_by_id(nodes).contains_key(node_id) ==> nodes_by_id(nodes)[node_id].node_id == node_id,
    decreases nodes.len(),
{
    if nodes.len() > 0 {
        let shorter = nodes.drop_last();
        lemma_nodes_by_id(shorter, node_id);
        if nodes_by_id(shorter).contains_key(node_id) {
            let j = choose|j: int| 0 <= j < shorter.len() && (#[trigger] shorter[j]).node_id
                == node_id;
            assert(nodes[j].node_id == node_id);
        }
        if exists|j: int| 0 <= j < nodes.len() && (#[trigger] nodes[j]).node_id == node_id {
            let j = choose|j: int| 0 <= j < nodes.len() && (#[trigger] nodes[j]).node_id == node_id;
            if j < nodes.len() - 1 {
                assert(shorter[j].node_id == node_id);
            }
        }
    }
}

proof fn lemma_edges_by_key(edges: Seq<MeshEdge>, key: EdgeKey)
    ensures
        edges_by_key(edges).contains_key(key) <==> exists|j: int|
            0 <= j < edges.len() && (#[trigger] edges[j]).key() == key,
        edges_by_key(edges).contains_key(key) ==> edges_by_key(edges)[key].key() == key,
        edges_by_key(edges).contains_key(key) ==> edges.contains(edges_by_key(edges)[key]),
    decreases edges.len(),
{
    if edges.len() > 0 {
        let shorter = edges.drop_last();
        lemma_edges_by_key(shorter, key);
        if edges_by_key(shorter).contains_key(key) {
            let j = choose|j: int| 0 <= j < shorter.len() && (#[trigger] shorter[j]).key() == key;
            assert(edges[j].key() == key);
            let held = edges_by_key(shorter)[key];
            let k = choose|k: int| 0 <= k < shorter.len() && shorter[k] == held;
            assert(edges[k] == held);
        }
        if exists|j: int| 0 <= j < edges.len() && (#[trigger] edges[j]).key() == key {
            let j = choose|j: int| 0 <= j < edges.len() && (#[trigger] edges[j]).key() == key;
            if j < edges.len() - 1 {
                assert(shorter[j].key() == key);
            }
        }
        assert(edges[edges.len() - 1] == edges.last());
    }
}

proof fn lemma_routes_by_id(routes: Seq<ActiveRoute>, route_id: RouteId)
    ensures
        routes_by_id(routes).contains_key(route_id) <==> exists|j: int|
            0 <= j < routes.len() && (#[trigger] routes[j]).route_id == route_id,
        routes_by_id(routes).contains_key(route_id) ==> routes_by_id(routes)[route_id].route_id
            == route_id,
        routes_by_id(routes).contains_key(route_id) ==> routes.contains(
            routes_by_id(routes)[route_id],
        ),
    decreases routes.len(),
{
    if routes.len() > 0 {
        let shorter = routes.drop_last();
        lemma_routes_by_id(shorter, route_id);
        if routes_by_id(shorter).contains_key(route_id) {
            let j = choose|j: int| 0 <= j < shorter.len() && (#[trigger] shorter[j]).route_id
                == route_id;
            assert(routes[j].route_id == route_id);
            let held = routes_by_id(shorter)[route_id];
            let k = choose|k: int| 0 <= k < shorter.len() && shorter[k] == held;
            assert(routes[k] == held);
        }
        if exists|j: int| 0 <= j < routes.len() && (#[trigger] routes[j]).route_id == route_id {
            let j = choose|j: int| 0 <= j < routes.len() && (#[trigger] routes[j]).route_id
                == route_id;
            if j < routes.len() - 1 {
                assert(shorter[j].route_id == route_id);
            }
        }
        assert(routes[routes.len() - 1] == routes.last());
    }
}

/// A route claims no more than the rest of the snapshot bears out.
pub open spec fn route_is_sound(
    route: ActiveRoute,
    nodes: Map<NodeId, MeshNode>,
    edges: Map<EdgeKey, MeshEdge>,
) -> bool {
    &&& nodes.contains_key(route.owner_node_id)
    &&& nodes.contains_key(route.terminal_node_id)
    &&& match route.delivery {
        ActiveRouteDelivery::Local => {
            &&& route.owner_node_id == route.terminal_node_id
            &&& route.protocol_mix@.len() == 0
        },
        ActiveRouteDelivery::Direct { next_hop_node_id } => {
            let key = EdgeKey {
                from_node_id: route.owner_node_id,
                to_node_id: route.terminal_node_id,
            };
            &&& route.owner_node_id != route.terminal_node_id
            &&& next_hop_node_id == route.terminal_node_id
            &&& edges.contains_key(key)
            &&& holds_kind(
                route.protocol_mix@,
                edges[key].observation.value.endpoint.transport_kind@,
            )
        },
        ActiveRouteDelivery::Reachable { hop_count_hint } => {
            &&& hop_count_hint > 1
            &&& route.owner_node_id != route.terminal_node_id
        },
    }
}

/// A snapshot without contradictions: the local node is in it and marked as local, every edge and
/// every route stands under its own key, edges join nodes of the snapshot, and every route is
/// sound.
pub open spec fn topology_is_sound(topology: MeshTopology) -> bool {
    &&& topology.wf()
    &&& topology.nodes@.contains_key(topology.local_node_id)
    &&& topology.nodes@[topology.local_node_id].role == MeshNodeRole::Local
    &&& forall|id: NodeId| #[trigger]
        topology.nodes@.contains_key(id) ==> topology.nodes@[id].node_id == id
    &&& forall|key: EdgeKey| #[trigger]
        topology.edges@.contains_key(key) ==> {
            &&& topology.edges@[key].key() == key
            &&& topology.nodes@.contains_key(key.from_node_id)
            &&& topology.nodes@.contains_key(key.to_node_id)
        }
    &&& forall|id: RouteId| #[trigger]
        topology.active_routes@.contains_key(id) ==> {
            &&& topology.active_routes@[id].route_id == id
            &&& route_is_sound(topology.active_routes@[id], topology.nodes@, topology.edges@)
        }
}

/// A direct route without a fault has its edge, and declares the transport of that edge.
proof fn lemma_direct_path(
    route: ActiveRoute,
    nodes: Map<NodeId, MeshNode>,
    edges: Map<EdgeKey, MeshEdge>,
)
    requires
        path_fault(
            route,
            seq![route.owner_node_id, route.terminal_node_id],
            nodes,
            edges,
        ) is None,
    ensures
        edges.contains_key(
            EdgeKey { from_node_id: route.owner_node_id, to_node_id: route.terminal_node_id },
        ),
        holds_kind(
            route.protocol_mix@,
            edges[EdgeKey {
                from_node_id: route.owner_node_id,
                to_node_id: route.terminal_node_id,
            }].observation.value.endpoint.transport_kind@,
        ),
{
    let hops = seq![route.owner_node_id, route.terminal_node_id];
    let fault = |i: int| step_fault(route, hops, edges, i);
    lemma_no_fault(fault, 1, 0);
    assert(fault(0) == step_fault(route, hops, edges, 0));
}

/// Parts without a fault make a sound snapshot.
pub proof fn lemma_faultless_is_sound(
    topology: MeshTopology,
    nodes: Seq<MeshNode>,
    edges: Seq<MeshEdge>,
    routes: Seq<ActiveRoute>,
)
    requires
        topology.wf(),
        snapshot_fault(topology.local_node_id, nodes, edges, routes) is None,
        topology.nodes@ == nodes_by_id(nodes),
        topology.edges@ == edges_by_key(edges),
        topology.active_routes@ == routes_by_id(routes),
    ensures
        topology_is_sound(topology),
{
    let by_id = nodes_by_id(nodes);
    let by_key = edges_by_key(edges);
    assert forall|id: NodeId| #[trigger]
        topology.nodes@.contains_key(id) implies topology.nodes@[id].node_id == id by {
        lemma_nodes_by_id(nodes, id);
    }
    assert forall|key: EdgeKey| #[trigger] topology.edges@.contains_key(key) implies {
        &&& topology.edges@[key].key() == key
        &&& topology.nodes@.contains_key(key.from_node_id)
        &&& topology.nodes@.contains_key(key.to_node_id)
    } by {
        lemma_edges_by_key(edges, key);
        let i = choose|j: int| 0 <= j < edges.len() && edges[j] == by_key[key];
        let fault = |i: int| edge_fault(edges, by_id, i);
        lemma_no_fault(fault, edges.len(), i);
        assert(fault(i) == edge_fault(edges, by_id, i));
    }
    assert forall|id: RouteId| #[trigger] topology.active_routes@.contains_key(id) implies {
        &&& topology.active_routes@[id].route_id == id
        &&& route_is_sound(topology.active_routes@[id], topology.nodes@, topology.edges@)
    } by {
        lemma_routes_by_id(routes, id);
        let route = routes_by_id(routes)[id];
        let i = choose|j: int| 0 <= j < routes.len() && routes[j] == route;
        let fault = |i: int| route_fault(routes, by_id, by_key, i);
        lemma_no_fault(fault, routes.len(), i);
        assert(fault(i) == route_fault(routes, by_id, by_key, i));
        if route.delivery is Direct {
            lemma_direct_path(route, by_id, by_key);
        }
    }
}

/// In a sound snapshot no route is collapsed: one that ends where it starts is delivered locally, and
/// every other route is not.
pub proof fn law_only_local_routes_end_where_they_start(topology: MeshTopology, route_id: RouteId)
    requires
        topology_is_sound(topology),
        topology.active_routes@.contains_key(route_id),
    ensures
        ({
            let route = topology.active_routes@[route_id];
            route.owner_node_id == route.terminal_node_id <==> route.delivery
                == ActiveRouteDelivery::Local
        }),
{
}

proof fn lemma_nodes_are_listed(nodes: Seq<MeshNode>)
    ensures
        nodes_by_id(nodes) == listed(nodes.map_values(|node: MeshNode| (node.node_id, node))),
    decreases nodes.len(),
{
    let entries = nodes.map_values(|node: MeshNode| (node.node_id, node));
    if nodes.len() > 0 {
        lemma_nodes_are_listed(nodes.drop_last());
        assert(entries.drop_last() =~= nodes.drop_last().map_values(
            |node: MeshNode| (node.node_id, node),
        ));
    }
}

proof fn lemma_edges_are_listed(edges: Seq<MeshEdge>)
    ensures
        edges_by_key(edges) == listed(edges.map_values(|edge: MeshEdge| (edge.key(), edge))),
    decreases edges.len(),
{
    let entries = edges.map_values(|edge: MeshEdge| (edge.key(), edge));
    if edges.len() > 0 {
        lemma_edges_are_listed(edges.drop_last());
        assert(entries.drop_last() =~= edges.drop_last().map_values(
            |edge: MeshEdge| (edge.key(), edge),
        ));
    }
}

proof fn lemma_routes_are_listed(routes: Seq<ActiveRoute>)
    ensures
        routes_by_id(routes) == listed(
            routes.map_values(|route: ActiveRoute| (route.route_id, route)),
        ),
    decreases routes.len(),
{
    let entries = routes.map_values(|route: ActiveRoute| (route.route_id, route));
    if routes.len() > 0 {
        lemma_routes_are_listed(routes.drop_last());
        assert(entries.drop_last() =~= routes.drop_last().map_values(
            |route: ActiveRoute| (route.route_id, route),
        ));
    }
}

/// A snapshot that can be built keeps every node, edge and route that it was given, each under its
/// own key, and holds no others.
pub proof fn law_build_keeps_every_part(
    local_node_id: NodeId,
    nodes: Seq<MeshNode>,
    edges: Seq<MeshEdge>,
    routes: Seq<ActiveRoute>,
)
    requires
        snapshot_fault(local_node_id, nodes, edges, routes) is None,
    ensures
        nodes_by_id(nodes).dom().finite(),
        nodes_by_id(nodes).len() == nodes.len(),
        forall|i: int|
            0 <= i < nodes.len() ==> nodes_by_id(nodes).contains_key((#[trigger] nodes[i]).node_id)
                && nodes_by_id(nodes)[nodes[i].node_id] == nodes[i],
        edges_by_key(edges).dom().finite(),
        edges_by_key(edges).len() == edges.len(),
        forall|i: int|
            0 <= i < edges.len() ==> edges_by_key(edges).contains_key((#[trigger] edges[i]).key())
                && edges_by_key(edges)[edges[i].key()] == edges[i],
        routes_by_id(routes).dom().finite(),
        routes_by_id(routes).len() == routes.len(),
        forall|i: int|
            0 <= i < routes.len() ==> routes_by_id(routes).contains_key(
                (#[trigger] routes[i]).route_id,
            ) && routes_by_id(routes)[routes[i].route_id] == routes[i],
{
    let by_id = nodes_by_id(nodes);
    let by_key = edges_by_key(edges);
    let listed_nodes = nodes.map_values(|node: MeshNode| (node.node_id, node));
    let listed_edges = edges.map_values(|edge: MeshEdge| (edge.key(), edge));
    let listed_routes = routes.map_values(|route: ActiveRoute| (route.route_id, route));
    lemma_nodes_are_listed(nodes);
    lemma_edges_are_listed(edges);
    lemma_routes_are_listed(routes);
    assert forall|i: int, j: int| 0 <= i < j < nodes.len() implies (
    #[trigger] listed_nodes[i]).0 != (#[trigger] listed_nodes[j]).0 by {
        let fault = |i: int| node_fault(nodes, i);
        lemma_no_fault(fault, nodes.len(), j);
        assert(fault(j) == node_fault(nodes, j));
        assert(nodes[i].node_id != nodes[j].node_id);
    }
    lemma_listed_keeps(listed_nodes);
    assert forall|i: int| 0 <= i < nodes.len() implies by_id.contains_key(
        (#[trigger] nodes[i]).node_id,
    ) && by_id[nodes[i].node_id] == nodes[i] by {
        assert(listed_nodes[i] == (nodes[i].node_id, nodes[i]));
    }
    assert forall|i: int, j: int| 0 <= i < j < edges.len() implies (
    #[trigger] listed_edges[i]).0 != (#[trigger] listed_edges[j]).0 by {
        let fault = |i: int| edge_fault(edges, by_id, i);
        lemma_no_fault(fault, edges.len(), j);
        assert(fault(j) == edge_fault(edges, by_id, j));
        assert(edges[i].key() != edges[j].key());
    }
    lemma_listed_keeps(listed_edges);
    assert forall|i: int| 0 <= i < edges.len() implies by_key.contains_key(
        (#[trigger] edges[i]).key(),
    ) && by_key[edges[i].key()] == edges[i] by {
        assert(listed_edges[i] == (edges[i].key(), edges[i]));
    }
    assert forall|i: int, j: int| 0 <= i < j < routes.len() implies (
    #[trigger] listed_routes[i]).0 != (#[trigger] listed_routes[j]).0 by {
        let fault = |i: int| route_fault(routes, by_id, by_key, i);
        lemma_no_fault(fault, routes.len(), j);
        assert(fault(j) == route_fault(routes, by_id, by_key, j));
        assert(routes[i].route_id != routes[j].route_id);
    }
    lemma_listed_keeps(listed_routes);
    assert forall|i: int| 0 <= i < routes.len() implies routes_by_id(routes).contains_key(
        (#[trigger] routes[i]).route_id,
    ) && routes_by_id(routes)[routes[i].route_id] == routes[i] by {
        assert(listed_routes[i] == (routes[i].route_id, routes[i]));
    }
}

/// A snapshot under construction.
#[derive(Debug)]
pub struct MeshTopologyBuilder {
    local_node_id: NodeId,
    observed_at_tick: Tick,
    nodes: Vec<MeshNode>,
    edges: Vec<MeshEdge>,
    active_routes: Vec<ActiveRoute>,
}

impl MeshTopologyBuilder {
    /// The node that the snapshot is taken on.
    pub closed spec fn local_node_id(&self) -> NodeId {
        self.local_node_id
    }

    /// When the snapshot is taken.
    pub closed spec fn observed_at_tick(&self) -> Tick {
        self.observed_at_tick
    }

    /// The nodes given so far, in order.
    pub closed spec fn nodes(&self) -> Seq<MeshNode> {
        self.nodes@
    }

    /// The edges given so far, in order.
    pub closed spec fn edges(&self) -> Seq<MeshEdge> {
        self.edges@
    }

    /// The routes given so far, in order.
    pub closed spec fn active_routes(&self) -> Seq<ActiveRoute> {
        self.active_routes@
    }

    /// The builder holds nothing yet.
    pub open spec fn is_empty_for(&self, local_node_id: NodeId, observed_at_tick: Tick) -> bool {
        &&& self.local_node_id() == local_node_id
        &&& self.observed_at_tick() == observed_at_tick
        &&& self.nodes() == Seq::<MeshNode>::empty()
        &&& self.edges() == Seq::<MeshEdge>::empty()
        &&& self.active_routes() == Seq::<ActiveRoute>::empty()
    }

    /// A builder that holds nothing yet.
    pub fn new(local_node_id: NodeId, observed_at_tick: Tick) -> (builder: MeshTopologyBuilder)
        ensures
            builder.is_empty_for(local_node_id, observed_at_tick),
    {
        MeshTopologyBuilder {
            local_node_id,
            observed_at_tick,
            nodes: Vec::new(),
            edges: Vec::new(),
            active_routes: Vec::new(),
        }
    }

    /// Adds a node.
    pub fn with_node(self, node: MeshNode) -> (builder: MeshTopologyBuilder)
        ensures
            builder.local_node_id() == self.local_node_id(),
            builder.observed_at_tick() == self.observed_at_tick(),
            builder.nodes() == self.nodes().push(node),
            builder.edges() == self.edges(),
            builder.active_routes() == self.active_routes(),
    {
        let mut builder = self;
        builder.nodes.push(node);
        builder
    }

    /// Adds an edge.
    pub fn with_edge(self, edge: MeshEdge) -> (builder: MeshTopologyBuilder)
        ensures
            builder.local_node_id() == self.local_node_id(),
            builder.observed_at_tick() == self.observed_at_tick(),
            builder.nodes() == self.nodes(),
            builder.edges() == self.edges().push(edge),
            builder.active_routes() == self.active_routes(),
    {
        let mut builder = self;
        builder.edges.push(edge);
        builder
    }

    /// Adds a route.
    pub fn with_active_route(self, active_route: ActiveRoute) -> (builder: MeshTopologyBuilder)
        ensures
            builder.local_node_id() == self.local_node_id(),
            builder.observed_at_tick() == self.observed_at_tick(),
            builder.nodes() == self.nodes(),
            builder.edges() == self.edges(),
            builder.active_routes() == self.active_routes().push(active_route),
    {
        let mut builder = self;
        builder.active_routes.push(active_route);
        builder
    }

    /// Builds the snapshot, or says what is wrong with its parts first.
    pub fn build(self) -> (result: Result<MeshTopology, MeshTopologyBuildError>)
        ensures
            match snapshot_fault(
                self.local_node_id(),
                self.nodes(),
                self.edges(),
                self.active_routes(),
            ) {
                Some(fault) => result matches Err(e) && error_agrees(e, fault),
                None => {
                    &&& result is Ok
                    &&& result->Ok_0.local_node_id == self.local_node_id()
                    &&& result->Ok_0.observed_at_tick == self.observed_at_tick()
                    &&& result->Ok_0.nodes@ == nodes_by_id(self.nodes())
                    &&& result->Ok_0.edges@ == edges_by_key(self.edges())
                    &&& result->Ok_0.active_routes@ == routes_by_id(self.active_routes())
                },
            },
            result matches Ok(built) ==> topology_is_sound(built),
    {
        let ghost node_list = self.nodes@;
        let ghost edge_list = self.edges@;
        let ghost route_list = self.active_routes@;
        let nodes = match collect_nodes(self.nodes, self.local_node_id) {
            Ok(nodes) => nodes,
            Err(error) => return Err(error),
        };
        let edges = match collect_edges(self.edges, &nodes) {
            Ok(edges) => edges,
            Err(error) => return Err(error),
        };
        let active_routes = match collect_routes(self.active_routes, &nodes, &edges) {
            Ok(active_routes) => active_routes,
            Err(error) => return Err(error),
        };
        let built = MeshTopology {
            local_node_id: self.local_node_id,
            observed_at_tick: self.observed_at_tick,
            nodes,
            edges,
            active_routes,
        };
        proof {
            lemma_faultless_is_sound(built, node_list, edge_list, route_list);
        }
        Ok(built)
    }
}

/// Takes the nodes into a map.
fn collect_nodes(nodes: Vec<MeshNode>, local_node_id: NodeId) -> (result: Result<
    OrderedMap<NodeId, MeshNode>,
    MeshTopologyBuildError,
>)
    ensures
        match nodes_fault(nodes@, local_node_id) {
            Some(fault) => result matches Err(e) && e == fault,
            None => result matches Ok(map) && map.wf() && map@ == nodes_by_id(nodes@),
        },
{
    let ghost fault = |i: int| node_fault(nodes@, i);
    let mut map: OrderedMap<NodeId, MeshNode> = OrderedMap::new();
    let mut i: usize = 0;
    assert(nodes@.take(0) =~= Seq::<MeshNode>::empty());
    while i < nodes.len()
        invariant
            i <= nodes@.len(),
            fault == (|i: int| node_fault(nodes@, i)),
            map.wf(),
            map@ == nodes_by_id(nodes@.take(i as int)),
            first_fault(fault, i as nat) is None,
        decreases nodes@.len() - i,
    {
        let node = nodes[i].duplicate();
        let node_id = node.node_id;
        proof {
            let shorter = nodes@.take(i as int);
            lemma_nodes_by_id(shorter, node_id);
            if exists|j: int| 0 <= j < shorter.len() && (#[trigger] shorter[j]).node_id == node_id {
                let j = choose|j: int|
                    0 <= j < shorter.len() && (#[trigger] shorter[j]).node_id == node_id;
                assert(nodes@[j].node_id == node_id);
            }
            if exists|j: int| 0 <= j < i && (#[trigger] nodes@[j]).node_id == node_id {
                let j = choose|j: int| 0 <= j < i && (#[trigger] nodes@[j]).node_id == node_id;
                assert(shorter[j].node_id == node_id);
            }
            assert(fault(i as int) == node_fault(nodes@, i as int));
            assert(nodes@.take(i + 1).drop_last() =~= shorter);
        }
        if map.insert(node_id, node).is_some() {
            proof {
                assert(first_fault(fault, (i + 1) as nat) == fault(i as int));
                lemma_first_fault_stays(fault, (i + 1) as nat, nodes@.len());
            }
            return Err(MeshTopologyBuildError::DuplicateNode { node_id });
        }
        i = i + 1;
    }
    assert(nodes@.take(i as int) =~= nodes@);
    match map.get(&local_node_id) {
        Some(local_node) => {
            if local_node.role != MeshNodeRole::Local {
                return Err(MeshTopologyBuildError::MissingLocalNode { node_id: local_node_id });
            }
        },
        None => {
            return Err(MeshTopologyBuildError::MissingLocalNode { node_id: local_node_id });
        },
    }
    Ok(map)
}

/// What one more edge does to the map and to the verdict on the list.
proof fn lemma_edge_step(edges: Seq<MeshEdge>, nodes: Map<NodeId, MeshNode>, done: nat)
    requires
        done < edges.len(),
        first_fault(|i: int| edge_fault(edges, nodes, i), done) is None,
    ensures
        edges_by_key(edges.take(done as int)).contains_key(edges[done as int].key()) <==> exists|
            j: int,
        |
            0 <= j < done && (#[trigger] edges[j]).key() == edges[done as int].key(),
        edges_by_key(edges.take((done + 1) as int)) == edges_by_key(edges.take(done as int)).insert(
            edges[done as int].key(),
            edges[done as int],
        ),
        edge_fault(edges, nodes, done as int) is Some ==> edges_fault(edges, nodes) == edge_fault(
            edges,
            nodes,
            done as int,
        ),
        edge_fault(edges, nodes, done as int) is None ==> first_fault(
            |i: int| edge_fault(edges, nodes, i),
            done + 1,
        ) is None,
{
    let fault = |i: int| edge_fault(edges, nodes, i);
    let shorter = edges.take(done as int);
    let key = edges[done as int].key();
    lemma_edges_by_key(shorter, key);
    if exists|j: int| 0 <= j < shorter.len() && (#[trigger] shorter[j]).key() == key {
        let j = choose|j: int| 0 <= j < shorter.len() && (#[trigger] shorter[j]).key() == key;
        assert(edges[j].key() == key);
    }
    if exists|j: int| 0 <= j < done && (#[trigger] edges[j]).key() == key {
        let j = choose|j: int| 0 <= j < done && (#[trigger] edges[j]).key() == key;
        assert(shorter[j].key() == key);
    }
    assert(edges.take((done + 1) as int).drop_last() =~= shorter);
    assert(first_fault(fault, done + 1) == fault(done as int));
    if fault(done as int) is Some {
        lemma_first_fault_stays(fault, done + 1, edges.len());
    }
}

/// Takes the edges into a map.
fn collect_edges(listed: Vec<MeshEdge>, nodes: &OrderedMap<NodeId, MeshNode>) -> (result: Result<
    OrderedMap<EdgeKey, MeshEdge>,
    MeshTopologyBuildError,
>)
    requires
        nodes.wf(),
    ensures
        match edges_fault(listed@, nodes@) {
            Some(fault) => result matches Err(e) && e == fault,
            None => result matches Ok(map) && map.wf() && map@ == edges_by_key(listed@),
        },
{
    let ghost all = listed@;
    let mut edges = listed;
    let mut map: OrderedMap<EdgeKey, MeshEdge> = OrderedMap::new();
    let ghost mut done: nat = 0;
    proof {
        assert(all.take(0) =~= Seq::<MeshEdge>::empty());
        assert(all.skip(0) =~= all);
    }
    while edges.len() > 0
        invariant
            nodes.wf(),
            all == listed@,
            done <= all.len(),
            edges@ == all.skip(done as int),
            map.wf(),
            map@ == edges_by_key(all.take(done as int)),
            first_fault(|i: int| edge_fault(all, nodes@, i), done) is None,
        decreases edges@.len(),
    {
        let edge = edges.remove(0);
        let from_node_id = edge.from_node_id;
        let to_node_id = edge.to_node_id;
        let key = EdgeKey { from_node_id, to_node_id };
        proof {
            assert(edge == all[done as int]);
            assert(edges@ =~= all.skip((done + 1) as int));
            lemma_edge_step(all, nodes@, done);
        }
        if !nodes.contains_key(&from_node_id) {
            return Err(
                MeshTopologyBuildError::EdgeReferencesUnknownNode {
                    from_node_id,
                    to_node_id,
                    missing_node_id: from_node_id,
                },
            );
        }
        if !nodes.contains_key(&to_node_id) {
            return Err(
                MeshTopologyBuildError::EdgeReferencesUnknownNode {
                    from_node_id,
                    to_node_id,
                    missing_node_id: to_node_id,
                },
            );
        }
        if map.insert(key, edge).is_some() {
            return Err(MeshTopologyBuildError::DuplicateEdge { from_node_id, to_node_id });
        }
        proof {
            done = done + 1;
        }
    }
    assert(all.take(done as int) =~= all);
    Ok(map)
}

/// What one more route does to the map and to the verdict on the list.
proof fn lemma_route_step(
    routes: Seq<ActiveRoute>,
    nodes: Map<NodeId, MeshNode>,
    edges: Map<EdgeKey, MeshEdge>,
    done: nat,
)
    requires
        done < routes.len(),
        first_fault(|i: int| route_fault(routes, nodes, edges, i), done) is None,
    ensures
        routes_by_id(routes.take(done as int)).contains_key(routes[done as int].route_id)
            <==> exists|j: int|
            0 <= j < done && (#[trigger] routes[j]).route_id == routes[done as int].route_id,
        routes_by_id(routes.take((done + 1) as int)) == routes_by_id(
            routes.take(done as int),
        ).insert(routes[done as int].route_id, routes[done as int]),
        route_fault(routes, nodes, edges, done as int) is Some ==> routes_fault(
            routes,
            nodes,
            edges,
        ) == route_fault(routes, nodes, edges, done as int),
        route_fault(routes, nodes, edges, done as int) is None ==> first_fault(
            |i: int| route_fault(routes, nodes, edges, i),
            done + 1,
        ) is None,
{
    let fault = |i: int| route_fault(routes, nodes, edges, i);
    let shorter = routes.take(done as int);
    let route_id = routes[done as int].route_id;
    lemma_routes_by_id(shorter, route_id);
    if exists|j: int| 0 <= j < shorter.len() && (#[trigger] shorter[j]).route_id == route_id {
        let j = choose|j: int| 0 <= j < shorter.len() && (#[trigger] shorter[j]).route_id
            == route_id;
        assert(routes[j].route_id == route_id);
    }
    if exists|j: int| 0 <= j < done && (#[trigger] routes[j]).route_id == route_id {
        let j = choose|j: int| 0 <= j < done && (#[trigger] routes[j]).route_id == route_id;
        assert(shorter[j].route_id == route_id);
    }
    assert(routes.take((done + 1) as int).drop_last() =~= shorter);
    assert(first_fault(fault, done + 1) == fault(done as int));
    if fault(done as int) is Some {
        lemma_first_fault_stays(fault, done + 1, routes.len());
    }
}

/// Takes the routes into a map.
fn collect_routes(
    listed: Vec<ActiveRoute>,
    nodes: &OrderedMap<NodeId, MeshNode>,
    edges: &OrderedMap<EdgeKey, MeshEdge>,
) -> (result: Result<OrderedMap<RouteId, ActiveRoute>, MeshTopologyBuildError>)
    requires
        nodes.wf(),
        edges.wf(),
    ensures
        match routes_fault(listed@, nodes@, edges@) {
            Some(fault) => result matches Err(e) && error_agrees(e, fault),
            None => result matches Ok(map) && map.wf() && map@ == routes_by_id(listed@),
        },
{
    let ghost all = listed@;
    let mut routes = listed;
    let mut map: OrderedMap<RouteId, ActiveRoute> = OrderedMap::new();
    let ghost mut done: nat = 0;
    proof {
        assert(all.take(0) =~= Seq::<ActiveRoute>::empty());
        assert(all.skip(0) =~= all);
    }
    while routes.len() > 0
        invariant
            nodes.wf(),
            edges.wf(),
            all == listed@,
            done <= all.len(),
            routes@ == all.skip(done as int),
            map.wf(),
            map@ == routes_by_id(all.take(done as int)),
            first_fault(|i: int| route_fault(all, nodes@, edges@, i), done) is None,
        decreases routes@.len(),
    {
        let active_route = routes.remove(0);
        let route_id = active_route.route_id;
        proof {
            assert(active_route == all[done as int]);
            assert(routes@ =~= all.skip((done + 1) as int));
            lemma_route_step(all, nodes@, edges@, done);
        }
        match validate_route(&active_route, nodes, edges) {
            Ok(()) => {},
            Err(error) => return Err(error),
        }
        if map.insert(route_id, active_route).is_some() {
            return Err(MeshTopologyBuildError::DuplicateRoute { route_id });
        }
        proof {
            done = done + 1;
        }
    }
    assert(all.take(done as int) =~= all);
    Ok(map)
}

/// Judges one route on its own.
fn validate_route(
    active_route: &ActiveRoute,
    nodes: &OrderedMap<NodeId, MeshNode>,
    edges: &OrderedMap<EdgeKey, MeshEdge>,
) -> (result: Result<(), MeshTopologyBuildError>)
    requires
        nodes.wf(),
        edges.wf(),
    ensures
        match route_shape_fault(*active_route, nodes@, edges@) {
            Some(fault) => result matches Err(e) && error_agrees(e, fault),
            None => result is Ok,
        },
{
    let route_id = active_route.route_id;
    let owner_node_id = active_route.owner_node_id;
    let terminal_node_id = active_route.terminal_node_id;
    if !nodes.contains_key(&owner_node_id) {
        return Err(MeshTopologyBuildError::RouteOwnerMissing { route_id, owner_node_id });
    }
    if !nodes.contains_key(&terminal_node_id) {
        return Err(MeshTopologyBuildError::RouteTerminalMissing { route_id, terminal_node_id });
    }
    match active_route.delivery {
        ActiveRouteDelivery::Local => {
            if owner_node_id != terminal_node_id {
                return Err(
                    MeshTopologyBuildError::LocalDeliveryTargetsRemote {
                        route_id,
                        owner_node_id,
                        terminal_node_id,
                    },
                );
            }
            if active_route.protocol_mix.len() != 0 {
                return Err(MeshTopologyBuildError::LocalDeliveryHasProtocolMix { route_id });
            }
            Ok(())
        },
        ActiveRouteDelivery::Direct { next_hop_node_id } => {
            if next_hop_node_id != terminal_node_id {
                return Err(
                    MeshTopologyBuildError::DirectDeliveryNextHopMismatch {
                        route_id,
                        next_hop_node_id,
                        terminal_node_id,
                    },
                );
            }
            if owner_node_id == terminal_node_id {
                return Err(MeshTopologyBuildError::DirectDeliveryCollapsesToLocal { route_id });
            }
            let hops = active_route.hop_node_ids();
            validate_path(active_route, &hops, nodes, edges)
        },
        ActiveRouteDelivery::Reachable { hop_count_hint } => {
            if hop_count_hint <= 1 {
                return Err(MeshTopologyBuildError::ReachableDeliveryRequiresMultiHop { route_id });
            }
            if owner_node_id == terminal_node_id {
                return Err(MeshTopologyBuildError::ReachableDeliveryCollapsesToDirect { route_id });
            }
            Ok(())
        },
    }
}

/// Judges a path: every hop is a node, every step an edge whose transport the route declares.
fn validate_path(
    active_route: &ActiveRoute,
    hop_node_ids: &Vec<NodeId>,
    nodes: &OrderedMap<NodeId, MeshNode>,
    edges: &OrderedMap<EdgeKey, MeshEdge>,
) -> (result: Result<(), MeshTopologyBuildError>)
    requires
        nodes.wf(),
        edges.wf(),
    ensures
        match path_fault(*active_route, hop_node_ids@, nodes@, edges@) {
            Some(fault) => result matches Err(e) && error_agrees(e, fault),
            None => result is Ok,
        },
{
    let route_id = active_route.route_id;
    let ghost hops = hop_node_ids@;
    let ghost hop_judge = |i: int| hop_fault(*active_route, hops, nodes@, i);
    let ghost step_judge = |i: int| step_fault(*active_route, hops, edges@, i);
    let mut i: usize = 0;
    while i < hop_node_ids.len()
        invariant
            i <= hops.len(),
            hops == hop_node_ids@,
            nodes.wf(),
            route_id == active_route.route_id,
            hop_judge == (|i: int| hop_fault(*active_route, hops, nodes@, i)),
            first_fault(hop_judge, i as nat) is None,
        decreases hops.len() - i,
    {
        let node_id = hop_node_ids[i];
        assert(hop_judge(i as int) == hop_fault(*active_route, hops, nodes@, i as int));
        assert(first_fault(hop_judge, (i + 1) as nat) == hop_judge(i as int));
        if !nodes.contains_key(&node_id) {
            proof {
                lemma_first_fault_stays(hop_judge, (i + 1) as nat, hops.len());
            }
            return Err(MeshTopologyBuildError::RouteHopNodeMissing { route_id, node_id });
        }
        i = i + 1;
    }
    if hop_node_ids.len() == 0 {
        return Ok(());
    }
    let last: usize = hop_node_ids.len() - 1;
    let mut i: usize = 0;
    while i < last
        invariant
            i <= last,
            hops == hop_node_ids@,
            last == hops.len() - 1,
            edges.wf(),
            route_id == active_route.route_id,
            first_fault(|i: int| hop_fault(*active_route, hops, nodes@, i), hops.len()) is None,
            step_judge == (|i: int| step_fault(*active_route, hops, edges@, i)),
            first_fault(step_judge, i as nat) is None,
        decreases last - i,
    {
        let from_node_id = hop_node_ids[i];
        let to_node_id = hop_node_ids[i + 1];
        proof {
            assert(step_judge(i as int) == step_fault(*active_route, hops, edges@, i as int));
            assert(first_fault(step_judge, (i + 1) as nat) == step_judge(i as int));
            if step_judge(i as int) is Some {
                lemma_first_fault_stays(step_judge, (i + 1) as nat, last as nat);
            }
        }
        match edges.get(&EdgeKey { from_node_id, to_node_id }) {
            Some(edge) => {
                let transport_kind = edge.transport_kind();
                if !contains_kind(&active_route.protocol_mix, transport_kind) {
                    return Err(
                        MeshTopologyBuildError::RouteProtocolMixMissingTransport {
                            route_id,
                            transport_kind: transport_kind.clone(),
                        },
                    );
                }
            },
            None => {
                return Err(
                    MeshTopologyBuildError::RouteMissingEdge { route_id, from_node_id, to_node_id },
                );
            },
        }
        i = i + 1;
    }
    Ok(())
}

proof fn lemma_all_fine<E>(fault: spec_fn(int) -> Option<E>, n: nat)
    requires
        forall|i: int| 0 <= i < n ==> (#[trigger] fault(i)) is None,
    ensures
        first_fault(fault, n) is None,
    decreases n,
{
    if n > 0 {
        lemma_all_fine(fault, (n - 1) as nat);
        assert(fault(n - 1) is None);
    }
}

/// The first fault is the fault of an item, and no item before it has one.
proof fn lemma_first_fault_is_found<E>(fault: spec_fn(int) -> Option<E>, n: nat) -> (found: int)
    requires
        first_fault(fault, n) is Some,
    ensures
        0 <= found < n,
        fault(found) == first_fault(fault, n),
        forall|i: int| 0 <= i < found ==> (#[trigger] fault(i)) is None,
    decreases n,
{
    if first_fault(fault, (n - 1) as nat) is Some {
        lemma_first_fault_is_found(fault, (n - 1) as nat)
    } else {
        assert forall|i: int| 0 <= i < n - 1 implies (#[trigger] fault(i)) is None by {
            lemma_no_fault(fault, (n - 1) as nat, i);
        }
        n - 1
    }
}

/// Whether a node is listed.
pub open spec fn lists_node(nodes: Seq<MeshNode>, node_id: NodeId) -> bool {
    exists|i: int| 0 <= i < nodes.len() && (#[trigger] nodes[i]).node_id == node_id
}

/// Whether an edge between two nodes is listed.
pub open spec fn lists_edge(edges: Seq<MeshEdge>, from_node_id: NodeId, to_node_id: NodeId) -> bool {
    exists|i: int|
        0 <= i < edges.len() && (#[trigger] edges[i]).from_node_id == from_node_id
            && edges[i].to_node_id == to_node_id
}

/// Whether a route names the transport of an edge.
pub open spec fn names_transport(route: ActiveRoute, edge: MeshEdge) -> bool {
    exists|k: int|
        0 <= k < route.protocol_mix@.len() && (#[trigger] route.protocol_mix@[k])@
            == edge.observation.value.endpoint.transport_kind@
}

/// Whether a route fits the nodes and edges that are listed: both of its ends are listed; local
/// delivery ends where it starts and uses no transport; direct delivery goes from one node to another
/// over an edge that is listed and whose transport the route names; and anything else takes more
/// than one hop to another node.
pub open spec fn route_fits(
    route: ActiveRoute,
    nodes: Seq<MeshNode>,
    edges: Seq<MeshEdge>,
) -> bool {
    &&& lists_node(nodes, route.owner_node_id)
    &&& lists_node(nodes, route.terminal_node_id)
    &&& match route.delivery {
        ActiveRouteDelivery::Local => route.owner_node_id == route.terminal_node_id
            && route.protocol_mix@.len() == 0,
        ActiveRouteDelivery::Direct { next_hop_node_id } => {
            &&& route.owner_node_id != route.terminal_node_id
            &&& next_hop_node_id == route.terminal_node_id
            &&& lists_edge(edges, route.owner_node_id, route.terminal_node_id)
            &&& forall|i: int|
                0 <= i < edges.len() && (#[trigger] edges[i]).from_node_id == route.owner_node_id
                    && edges[i].to_node_id == route.terminal_node_id ==> names_transport(
                    route,
                    edges[i],
                )
        },
        ActiveRouteDelivery::Reachable { hop_count_hint } => hop_count_hint >= 2
            && route.owner_node_id != route.terminal_node_id,
    }
}

/// Whether the parts of a snapshot fit together: no node, edge or route is listed twice, the local
/// node is listed as such, both ends of every edge are listed, and every route fits.
pub open spec fn parts_fit(
    local_node_id: NodeId,
    nodes: Seq<MeshNode>,
    edges: Seq<MeshEdge>,
    routes: Seq<ActiveRoute>,
) -> bool {
    &&& forall|i: int, j: int|
        0 <= i < j < nodes.len() ==> (#[trigger] nodes[i]).node_id != (#[trigger] nodes[j]).node_id
    &&& exists|i: int|
        0 <= i < nodes.len() && (#[trigger] nodes[i]).node_id == local_node_id && nodes[i].role
            == MeshNodeRole::Local
    &&& forall|i: int|
        0 <= i < edges.len() ==> lists_node(nodes, (#[trigger] edges[i]).from_node_id)
            && lists_node(nodes, edges[i].to_node_id)
    &&& forall|i: int, j: int|
        0 <= i < j < edges.len() ==> (#[trigger] edges[i]).from_node_id != (
        #[trigger] edges[j]).from_node_id || edges[i].to_node_id != edges[j].to_node_id
    &&& forall|i: int|
        0 <= i < routes.len() ==> route_fits(#[trigger] routes[i], nodes, edges)
    &&& forall|i: int, j: int|
        0 <= i < j < routes.len() ==> (#[trigger] routes[i]).route_id != (
        #[trigger] routes[j]).route_id
}

proof fn lemma_listed_edge_is_kept(edges: Seq<MeshEdge>, i: int)
    requires
        0 <= i < edges.len(),
        forall|i: int, j: int|
            0 <= i < j < edges.len() ==> (#[trigger] edges[i]).key() != (#[trigger] edges[j]).key(),
    ensures
        edges_by_key(edges).contains_key(edges[i].key()),
        edges_by_key(edges)[edges[i].key()] == edges[i],
{
    let key = edges[i].key();
    lemma_edges_by_key(edges, key);
    let held = edges_by_key(edges)[key];
    let k = choose|k: int| 0 <= k < edges.len() && edges[k] == held;
    assert(edges[k].key() == key);
    if k < i {
        assert(edges[k].key() != edges[i].key());
    }
    if i < k {
        assert(edges[i].key() != edges[k].key());
    }
}

proof fn lemma_route_fits(
    route: ActiveRoute,
    nodes: Seq<MeshNode>,
    edges: Seq<MeshEdge>,
)
    requires
        forall|i: int, j: int|
            0 <= i < j < edges.len() ==> (#[trigger] edges[i]).key() != (#[trigger] edges[j]).key(),
    ensures
        route_fits(route, nodes, edges) <==> route_shape_fault(
            route,
            nodes_by_id(nodes),
            edges_by_key(edges),
        ) is None,
{
    let by_id = nodes_by_id(nodes);
    let by_key = edges_by_key(edges);
    let owner = route.owner_node_id;
    let terminal = route.terminal_node_id;
    lemma_nodes_by_id(nodes, owner);
    lemma_nodes_by_id(nodes, terminal);
    if by_id.contains_key(owner) && by_id.contains_key(terminal) && route.delivery is Direct {
        let key = EdgeKey { from_node_id: owner, to_node_id: terminal };
        let hops = seq![owner, terminal];
        let hop = |i: int| hop_fault(route, hops, by_id, i);
        let step = |i: int| step_fault(route, hops, by_key, i);
        assert forall|i: int| 0 <= i < 2 implies (#[trigger] hop(i)) is None by {
            assert(hops[i] == owner || hops[i] == terminal);
        }
        lemma_all_fine(hop, 2);
        assert(first_fault(step, 1) == step(0)) by {
            assert(first_fault(step, 0) is None);
            reveal_with_fuel(first_fault, 2);
        }
        assert(path_fault(route, hops, by_id, by_key) == step_fault(route, hops, by_key, 0));
        lemma_edges_by_key(edges, key);
        if by_key.contains_key(key) {
            let held = by_key[key];
            let k = choose|k: int| 0 <= k < edges.len() && edges[k] == held;
            assert(edges[k].from_node_id == owner && edges[k].to_node_id == terminal);
            assert forall|i: int|
                0 <= i < edges.len() && (#[trigger] edges[i]).from_node_id == owner
                    && edges[i].to_node_id == terminal implies edges[i] == held by {
                assert(edges[i].key() == key);
                lemma_listed_edge_is_kept(edges, i);
            }
        }
        if lists_edge(edges, owner, terminal) {
            let i = choose|i: int|
                0 <= i < edges.len() && (#[trigger] edges[i]).from_node_id == owner
                    && edges[i].to_node_id == terminal;
            assert(edges[i].key() == key);
        }
    }
}

/// A snapshot is built exactly if its parts fit together: nothing that fits is refused, whatever the
/// transports and the states of its edges, and nothing else is built.
pub proof fn law_everything_that_fits_is_built(
    local_node_id: NodeId,
    nodes: Seq<MeshNode>,
    edges: Seq<MeshEdge>,
    routes: Seq<ActiveRoute>,
)
    ensures
        parts_fit(local_node_id, nodes, edges, routes) <==> snapshot_fault(
            local_node_id,
            nodes,
            edges,
            routes,
        ) is None,
{
    let by_id = nodes_by_id(nodes);
    let by_key = edges_by_key(edges);
    let of_node = |i: int| node_fault(nodes, i);
    let of_edge = |i: int| edge_fault(edges, by_id, i);
    let of_route = |i: int| route_fault(routes, by_id, by_key, i);
    lemma_nodes_by_id(nodes, local_node_id);
    if parts_fit(local_node_id, nodes, edges, routes) {
        assert forall|i: int| 0 <= i < nodes.len() implies (#[trigger] of_node(i)) is None by {}
        lemma_all_fine(of_node, nodes.len());
        let k = choose|i: int|
            0 <= i < nodes.len() && (#[trigger] nodes[i]).node_id == local_node_id && nodes[i].role
                == MeshNodeRole::Local;
        lemma_listed_node_is_kept(nodes, k);
        assert forall|i: int, j: int| 0 <= i < j < edges.len() implies (
        #[trigger] edges[i]).key() != (#[trigger] edges[j]).key() by {}
        assert forall|i: int| 0 <= i < edges.len() implies (#[trigger] of_edge(i)) is None by {
            lemma_nodes_by_id(nodes, edges[i].from_node_id);
            lemma_nodes_by_id(nodes, edges[i].to_node_id);
        }
        lemma_all_fine(of_edge, edges.len());
        assert forall|i: int| 0 <= i < routes.len() implies (#[trigger] of_route(i)) is None by {
            lemma_route_fits(routes[i], nodes, edges);
        }
        lemma_all_fine(of_route, routes.len());
    }
    if snapshot_fault(local_node_id, nodes, edges, routes) is None {
        assert forall|i: int, j: int| 0 <= i < j < nodes.len() implies (
        #[trigger] nodes[i]).node_id != (#[trigger] nodes[j]).node_id by {
            lemma_no_fault(of_node, nodes.len(), j);
            assert(of_node(j) is None);
        }
        let j = choose|j: int| 0 <= j < nodes.len() && (#[trigger] nodes[j]).node_id
            == local_node_id;
        lemma_listed_node_is_kept(nodes, j);
        assert(nodes[j].role == MeshNodeRole::Local);
        assert forall|i: int| 0 <= i < edges.len() implies lists_node(
            nodes,
            (#[trigger] edges[i]).from_node_id,
        ) && lists_node(nodes, edges[i].to_node_id) by {
            lemma_no_fault(of_edge, edges.len(), i);
            assert(of_edge(i) is None);
            lemma_nodes_by_id(nodes, edges[i].from_node_id);
            lemma_nodes_by_id(nodes, edges[i].to_node_id);
        }
        assert forall|i: int, j: int| 0 <= i < j < edges.len() implies (
        #[trigger] edges[i]).key() != (#[trigger] edges[j]).key() by {
            lemma_no_fault(of_edge, edges.len(), j);
            assert(of_edge(j) is None);
        }
        assert forall|i: int, j: int| 0 <= i < j < edges.len() implies (
        #[trigger] edges[i]).from_node_id != (#[trigger] edges[j]).from_node_id
            || edges[i].to_node_id != edges[j].to_node_id by {
            assert(edges[i].key() != edges[j].key());
        }
        assert forall|i: int| 0 <= i < routes.len() implies route_fits(
            #[trigger] routes[i],
            nodes,
            edges,
        ) by {
            lemma_no_fault(of_route, routes.len(), i);
            assert(of_route(i) is None);
            lemma_route_fits(routes[i], nodes, edges);
        }
        assert forall|i: int, j: int| 0 <= i < j < routes.len() implies (
        #[trigger] routes[i]).route_id != (#[trigger] routes[j]).route_id by {
            lemma_no_fault(of_route, routes.len(), j);
            assert(of_route(j) is None);
        }
    }
}

proof fn lemma_listed_node_is_kept(nodes: Seq<MeshNode>, i: int)
    requires
        0 <= i < nodes.len(),
        forall|i: int, j: int|
            0 <= i < j < nodes.len() ==> (#[trigger] nodes[i]).node_id != (
            #[trigger] nodes[j]).node_id,
    ensures
        nodes_by_id(nodes).contains_key(nodes[i].node_id),
        nodes_by_id(nodes)[nodes[i].node_id] == nodes[i],
{
    let listed_nodes = nodes.map_values(|node: MeshNode| (node.node_id, node));
    lemma_nodes_are_listed(nodes);
    assert forall|i: int, j: int| 0 <= i < j < nodes.len() implies (
    #[trigger] listed_nodes[i]).0 != (#[trigger] listed_nodes[j]).0 by {
        assert(nodes[i].node_id != nodes[j].node_id);
    }
    lemma_listed_keeps(listed_nodes);
    assert(listed_nodes[i] == (nodes[i].node_id, nodes[i]));
}

/// What an error says of one route, and of the nodes and edges that it was judged by.
pub open spec fn error_is_true_of(
    error: MeshTopologyBuildError,
    route: ActiveRoute,
    nodes: Map<NodeId, MeshNode>,
    edges: Map<EdgeKey, MeshEdge>,
) -> bool {
    let owner = route.owner_node_id;
    let terminal = route.terminal_node_id;
    let key = EdgeKey { from_node_id: owner, to_node_id: terminal };
    match error {
        MeshTopologyBuildError::RouteOwnerMissing { route_id, owner_node_id } => route_id
            == route.route_id && owner_node_id == owner && !nodes.contains_key(owner),
        MeshTopologyBuildError::RouteTerminalMissing { route_id, terminal_node_id } => route_id
            == route.route_id && terminal_node_id == terminal && !nodes.contains_key(terminal)
            && nodes.contains_key(owner),
        MeshTopologyBuildError::LocalDeliveryTargetsRemote {
            route_id,
            owner_node_id,
            terminal_node_id,
        } => route_id == route.route_id && owner_node_id == owner && terminal_node_id == terminal
            && route.delivery is Local && owner != terminal,
        MeshTopologyBuildError::LocalDeliveryHasProtocolMix { route_id } => route_id
            == route.route_id && route.delivery is Local && owner == terminal
            && route.protocol_mix@.len() > 0,
        MeshTopologyBuildError::DirectDeliveryNextHopMismatch {
            route_id,
            next_hop_node_id,
            terminal_node_id,
        } => route_id == route.route_id && terminal_node_id == terminal && next_hop_node_id
            != terminal && route.delivery == (ActiveRouteDelivery::Direct { next_hop_node_id }),
        MeshTopologyBuildError::DirectDeliveryCollapsesToLocal { route_id } => route_id
            == route.route_id && owner == terminal && route.delivery == (
        ActiveRouteDelivery::Direct { next_hop_node_id: terminal }),
        MeshTopologyBuildError::RouteMissingEdge { route_id, from_node_id, to_node_id } => route_id
            == route.route_id && from_node_id == owner && to_node_id == terminal
            && route.delivery is Direct && !edges.contains_key(key),
        MeshTopologyBuildError::RouteProtocolMixMissingTransport {
            route_id,
            transport_kind,
        } => route_id == route.route_id && route.delivery is Direct && edges.contains_key(key)
            && transport_kind@ == edges[key].observation.value.endpoint.transport_kind@
            && !names_transport(route, edges[key]),
        MeshTopologyBuildError::ReachableDeliveryRequiresMultiHop { route_id } => route_id
            == route.route_id && route.delivery is Reachable
            && route.delivery->Reachable_hop_count_hint <= 1,
        MeshTopologyBuildError::ReachableDeliveryCollapsesToDirect { route_id } => route_id
            == route.route_id && route.delivery is Reachable && owner == terminal
            && route.delivery->Reachable_hop_count_hint >= 2,
        _ => false,
    }
}

/// What is said to be wrong with a route is wrong with it.
pub proof fn law_route_errors_are_true(
    route: ActiveRoute,
    nodes: Map<NodeId, MeshNode>,
    edges: Map<EdgeKey, MeshEdge>,
)
    ensures
        route_shape_fault(route, nodes, edges) matches Some(error) ==> error_is_true_of(
            error,
            route,
            nodes,
            edges,
        ),
{
    if route_shape_fault(route, nodes, edges) is Some && route.delivery is Direct
        && nodes.contains_key(route.owner_node_id) && nodes.contains_key(route.terminal_node_id)
        && route.delivery->next_hop_node_id == route.terminal_node_id && route.owner_node_id
        != route.terminal_node_id {
        let hops = seq![route.owner_node_id, route.terminal_node_id];
        let hop = |i: int| hop_fault(route, hops, nodes, i);
        let step = |i: int| step_fault(route, hops, edges, i);
        assert forall|i: int| 0 <= i < 2 implies (#[trigger] hop(i)) is None by {
            assert(hops[i] == route.owner_node_id || hops[i] == route.terminal_node_id);
        }
        lemma_all_fine(hop, 2);
        assert(first_fault(step, 1) == step(0)) by {
            assert(first_fault(step, 0) is None);
            reveal_with_fuel(first_fault, 2);
        }
    }
}

/// What is said to be wrong with the nodes and edges of a snapshot is wrong with them, and nodes are
/// judged before edges, edges before routes, and each list from its start.
pub proof fn law_part_errors_are_true(
    local_node_id: NodeId,
    nodes: Seq<MeshNode>,
    edges: Seq<MeshEdge>,
    routes: Seq<ActiveRoute>,
)
    ensures
        snapshot_fault(local_node_id, nodes, edges, routes) matches Some(error) ==> match error {
            MeshTopologyBuildError::DuplicateNode { node_id } => exists|i: int, j: int|
                0 <= i < j < nodes.len() && (#[trigger] nodes[i]).node_id == node_id && (
                #[trigger] nodes[j]).node_id == node_id,
            MeshTopologyBuildError::MissingLocalNode { node_id } => {
                &&& node_id == local_node_id
                &&& forall|i: int, j: int|
                    0 <= i < j < nodes.len() ==> (#[trigger] nodes[i]).node_id != (
                    #[trigger] nodes[j]).node_id
                &&& forall|i: int|
                    0 <= i < nodes.len() ==> (#[trigger] nodes[i]).node_id != local_node_id
                        || nodes[i].role != MeshNodeRole::Local
            },
            MeshTopologyBuildError::EdgeReferencesUnknownNode {
                from_node_id,
                to_node_id,
                missing_node_id,
            } => {
                &&& lists_edge(edges, from_node_id, to_node_id)
                &&& !lists_node(nodes, missing_node_id)
                &&& missing_node_id == from_node_id || missing_node_id == to_node_id && lists_node(
                    nodes,
                    from_node_id,
                )
            },
            MeshTopologyBuildError::DuplicateEdge { from_node_id, to_node_id } => exists|
                i: int,
                j: int,
            |
                0 <= i < j < edges.len() && (#[trigger] edges[i]).key() == (
                #[trigger] edges[j]).key() && edges[i].from_node_id == from_node_id
                    && edges[i].to_node_id == to_node_id,
            MeshTopologyBuildError::DuplicateRoute { route_id } => exists|i: int, j: int|
                0 <= i < j < routes.len() && (#[trigger] routes[i]).route_id == route_id && (
                #[trigger] routes[j]).route_id == route_id,
            _ => exists|i: int|
                0 <= i < routes.len() && error_is_true_of(
                    error,
                    #[trigger] routes[i],
                    nodes_by_id(nodes),
                    edges_by_key(edges),
                ),
        },
{
    let by_id = nodes_by_id(nodes);
    let by_key = edges_by_key(edges);
    let of_node = |i: int| node_fault(nodes, i);
    let of_edge = |i: int| edge_fault(edges, by_id, i);
    let of_route = |i: int| route_fault(routes, by_id, by_key, i);
    if first_fault(of_node, nodes.len()) is Some {
        let j = lemma_first_fault_is_found(of_node, nodes.len());
        assert(of_node(j) == node_fault(nodes, j));
        let i = choose|i: int| 0 <= i < j && (#[trigger] nodes[i]).node_id == nodes[j].node_id;
        assert(nodes[i].node_id == nodes[j].node_id);
    } else if nodes_fault(nodes, local_node_id) is Some {
        assert forall|i: int, j: int| 0 <= i < j < nodes.len() implies (
        #[trigger] nodes[i]).node_id != (#[trigger] nodes[j]).node_id by {
            lemma_no_fault(of_node, nodes.len(), j);
            assert(of_node(j) is None);
        }
        assert forall|i: int| 0 <= i < nodes.len() implies (#[trigger] nodes[i]).node_id
            != local_node_id || nodes[i].role != MeshNodeRole::Local by {
            lemma_listed_node_is_kept(nodes, i);
        }
    } else if edges_fault(edges, by_id) is Some {
        let j = lemma_first_fault_is_found(of_edge, edges.len());
        assert(of_edge(j) == edge_fault(edges, by_id, j));
        lemma_nodes_by_id(nodes, edges[j].from_node_id);
        lemma_nodes_by_id(nodes, edges[j].to_node_id);
        assert(lists_edge(edges, edges[j].from_node_id, edges[j].to_node_id));
        if edge_fault(edges, by_id, j)->0 is DuplicateEdge {
            let i = choose|i: int| 0 <= i < j && (#[trigger] edges[i]).key() == edges[j].key();
            assert(edges[i].key() == edges[j].key());
        }
    } else if routes_fault(routes, by_id, by_key) is Some {
        let j = lemma_first_fault_is_found(of_route, routes.len());
        assert(of_route(j) == route_fault(routes, by_id, by_key, j));
        law_route_errors_are_true(routes[j], by_id, by_key);
        if route_shape_fault(routes[j], by_id, by_key) is None {
            let i = choose|i: int|
                0 <= i < j && (#[trigger] routes[i]).route_id == routes[j].route_id;
            assert(routes[i].route_id == routes[j].route_id);
        } else {
            assert(error_is_true_of(
                route_shape_fault(routes[j], by_id, by_key)->0,
                routes[j],
                by_id,
                by_key,
            ));
        }
    }
}

/// Errors agree only if they are of the same kind and name the same things.
pub proof fn law_errors_that_agree_say_the_same(
    a: MeshTopologyBuildError,
    b: MeshTopologyBuildError,
)
    ensures
        error_agrees(a, b) <==> a == b || {
            &&& a is RouteProtocolMixMissingTransport
            &&& b is RouteProtocolMixMissingTransport
            &&& a->RouteProtocolMixMissingTransport_route_id
                == b->RouteProtocolMixMissingTransport_route_id
            &&& a->transport_kind@ == b->transport_kind@
        },
{
}

/// Where nothing else is said, a route between two nodes is direct and a route from a node to itself
/// is local.
pub proof fn law_inferred_delivery_is_the_shortest(owner_node_id: NodeId, terminal_node_id: NodeId)
    ensures
        inferred_delivery(owner_node_id, terminal_node_id) is Local <==> owner_node_id
            == terminal_node_id,
        owner_node_id != terminal_node_id ==> inferred_delivery(owner_node_id, terminal_node_id) == (
        ActiveRouteDelivery::Direct { next_hop_node_id: terminal_node_id }),
{
}

/// A snapshot is built exactly if its parts fit together, and then holds all of them, each under its own
/// key, as of the tick and for the node that it was started for.
pub proof fn law_fitting_parts_are_built(
    builder: MeshTopologyBuilder,
    result: Result<MeshTopology, MeshTopologyBuildError>,
)
    requires
        call_ensures(MeshTopologyBuilder::build, (builder,), result),
    ensures
        result is Ok <==> parts_fit(
            builder.local_node_id(),
            builder.nodes(),
            builder.edges(),
            builder.active_routes(),
        ),
        result matches Ok(built) ==> {
            &&& built.local_node_id == builder.local_node_id()
            &&& built.observed_at_tick == builder.observed_at_tick()
            &&& forall|i: int|
                0 <= i < builder.nodes().len() ==> built.nodes@.contains_key(
                    (#[trigger] builder.nodes()[i]).node_id,
                ) && built.nodes@[builder.nodes()[i].node_id] == builder.nodes()[i]
            &&& forall|i: int|
                0 <= i < builder.edges().len() ==> built.edges@.contains_key(
                    (#[trigger] builder.edges()[i]).key(),
                ) && built.edges@[builder.edges()[i].key()] == builder.edges()[i]
            &&& forall|i: int|
                0 <= i < builder.active_routes().len() ==> built.active_routes@.contains_key(
                    (#[trigger] builder.active_routes()[i]).route_id,
                ) && built.active_routes@[builder.active_routes()[i].route_id]
                    == builder.active_routes()[i]
        },
{
    law_everything_that_fits_is_built(
        builder.local_node_id(),
        builder.nodes(),
        builder.edges(),
        builder.active_routes(),
    );
    if result is Ok {
        law_build_keeps_every_part(
            builder.local_node_id(),
            builder.nodes(),
            builder.edges(),
            builder.active_routes(),
        );
    }
}

} // verus!
