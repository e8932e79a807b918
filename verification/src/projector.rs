//! The topology that a client shows: what the routing host observed, sharpened by what this node
//! observed of its own links.

use crate::bridge::{BleBridgeRoundReport, RouterRoundOutcome};
use crate::endpoint::{clone_kinds, kind_views, TransportKind, TransportKindView};
use crate::host::{
    capabilities_named, host_ingest_engine_capabilities, host_ingest_materialized_route,
    host_ingest_round_outcome, host_ingest_topology, host_observed, host_view, links_seen,
    materialized_named, mutation_named, new_host, HostView, MaterializedView, MutationView,
    ObservedLink, ObservedLinkView, ObservedRoute, ObservedRouteShape, ObservedRouteView,
    ObservedTopology, ObservedView,
};
use crate::identity::{later_tick, EdgeKey, NodeId, RouteId, Tick};
use crate::link::{
    link_observation_view, Belief, FactSourceClass, Link, LinkRuntimeState, LinkView, Observation,
    ObservationView, OriginAuthenticationClass, RoutingEvidenceClass, TransportObservation,
};
use crate::node_preset::clone_node;
use crate::ordered_map::{MapKey, OrderedMap};
use crate::routing::{
    ble_node, link_views, mesh_view, observed_alike, route_capable_node, Configuration,
    ConfigurationView,
};
use crate::topology::{
    edge_views, route_views, ActiveRoute, ActiveRouteDelivery, ActiveRouteView, DestinationId,
    DestinationView, MeshEdge, MeshEdgeView, MeshNode, MeshNodeRole, MeshTopology,
    MeshTopologyView, RouteShapeVisibility,
};
use crate::world::{core_mesh, mesh_named};
use jacquard_core::{
    Configuration as CoreConfiguration, MaterializedRoute, Node, Observation as CoreObservation,
    RoutingEngineCapabilities,
};
use jacquard_host_support::TopologyProjector as HostTopologyProjector;
use vstd::prelude::*;

verus! {

/// A node of the mesh, made of what the host observed.
pub open spec fn mesh_node(node_id: NodeId, local_node_id: NodeId, node: Node) -> MeshNode {
    MeshNode {
        node_id,
        role: if node_id == local_node_id {
            MeshNodeRole::Local
        } else {
            MeshNodeRole::Remote
        },
        node,
    }
}

fn mesh_node_from_observed(node_id: NodeId, local_node_id: NodeId, node: &Node) -> (mesh: MeshNode)
    ensures
        mesh == mesh_node(node_id, local_node_id, *node),
{
    let role = if node_id == local_node_id {
        MeshNodeRole::Local
    } else {
        MeshNodeRole::Remote
    };
    MeshNode { node_id, role, node: clone_node(node) }
}

/// The observation behind an edge: the one that this node made, or else what the host observed.
pub open spec fn edge_observation(
    own: Map<EdgeKey, Observation<LinkView>>,
    key: EdgeKey,
    observed: ObservedLinkView,
) -> Observation<LinkView> {
    if own.contains_key(key) {
        own[key]
    } else {
        Observation {
            value: observed.link,
            source_class: FactSourceClass::Local,
            evidence_class: RoutingEvidenceClass::DirectObservation,
            origin_authentication: OriginAuthenticationClass::Unauthenticated,
            observed_at_tick: observed.observed_at_tick,
        }
    }
}

fn edge_observation_from(
    edge_observations: &OrderedMap<EdgeKey, Observation<Link>>,
    key: EdgeKey,
    link: &ObservedLink,
) -> (observation: Observation<Link>)
    requires
        edge_observations.wf(),
    ensures
        link_observation_view(observation) == edge_observation(
            observation_views(edge_observations@),
            key,
            link@,
        ),
{
    match edge_observations.get(&key) {
        Some(observation) => observation.duplicate(),
        None => Observation {
            value: link.link.clone(),
            source_class: FactSourceClass::Local,
            evidence_class: RoutingEvidenceClass::DirectObservation,
            origin_authentication: OriginAuthenticationClass::Unauthenticated,
            observed_at_tick: link.observed_at_tick,
        },
    }
}

/// How much of a route is shown.
pub open spec fn shown_shape(route_shape: ObservedRouteShape) -> RouteShapeVisibility {
    match route_shape {
        ObservedRouteShape::ExplicitPath => RouteShapeVisibility::ExplicitPath,
        ObservedRouteShape::CorridorEnvelope => RouteShapeVisibility::CorridorEnvelope,
        ObservedRouteShape::NextHopOnly => RouteShapeVisibility::NextHopOnly,
        ObservedRouteShape::Opaque => RouteShapeVisibility::Opaque,
    }
}

fn route_shape_visibility(route_shape: ObservedRouteShape) -> (visibility: RouteShapeVisibility)
    ensures
        visibility == shown_shape(route_shape),
{
    match route_shape {
        ObservedRouteShape::ExplicitPath => RouteShapeVisibility::ExplicitPath,
        ObservedRouteShape::CorridorEnvelope => RouteShapeVisibility::CorridorEnvelope,
        ObservedRouteShape::NextHopOnly => RouteShapeVisibility::NextHopOnly,
        ObservedRouteShape::Opaque => RouteShapeVisibility::Opaque,
    }
}

/// Whether there is an edge that has not failed.
pub open spec fn edge_works(edges: Map<EdgeKey, MeshEdgeView>, from: NodeId, to: NodeId) -> bool {
    let key = EdgeKey { from_node_id: from, to_node_id: to };
    edges.contains_key(key) && edges[key].observation.value.state.state
        != LinkRuntimeState::Faulted
}

/// How a route delivers, as far as the topology shows. Direct delivery is claimed only for a route
/// of one hop over an edge that works; everything else is reachable at best.
pub open spec fn route_delivery(
    edges: Map<EdgeKey, MeshEdgeView>,
    owner_node_id: NodeId,
    terminal_node_id: NodeId,
    hop_count_hint: u8,
) -> ActiveRouteDelivery {
    if owner_node_id == terminal_node_id {
        ActiveRouteDelivery::Local
    } else if hop_count_hint <= 1 && edge_works(edges, owner_node_id, terminal_node_id) {
        ActiveRouteDelivery::Direct { next_hop_node_id: terminal_node_id }
    } else {
        ActiveRouteDelivery::Reachable {
            hop_count_hint: if hop_count_hint == 0 {
                1
            } else {
                hop_count_hint
            },
        }
    }
}

/// Derives how a route delivers.
pub fn derive_route_delivery(
    topology: &MeshTopology,
    owner_node_id: NodeId,
    terminal_node_id: NodeId,
    hop_count_hint: u8,
) -> (delivery: Option<ActiveRouteDelivery>)
    requires
        topology.wf(),
    ensures
        delivery == Some(
            route_delivery(
                edge_views(topology.edges@),
                owner_node_id,
                terminal_node_id,
                hop_count_hint,
            ),
        ),
{
    if owner_node_id == terminal_node_id {
        return Some(ActiveRouteDelivery::Local);
    }
    let direct = match topology.edge(owner_node_id, terminal_node_id) {
        Some(edge) => edge.observation.value.state.state != LinkRuntimeState::Faulted,
        None => false,
    };
    if direct && hop_count_hint <= 1 {
        return Some(ActiveRouteDelivery::Direct { next_hop_node_id: terminal_node_id });
    }
    Some(
        ActiveRouteDelivery::Reachable {
            hop_count_hint: if hop_count_hint == 0 {
                1
            } else {
                hop_count_hint
            },
        },
    )
}

/// The transports that a route uses, where the topology shows them: none for local delivery, that of
/// the edge for direct delivery.
pub open spec fn transport_mix(
    edges: Map<EdgeKey, MeshEdgeView>,
    delivery: ActiveRouteDelivery,
    owner_node_id: NodeId,
    terminal_node_id: NodeId,
) -> Option<Seq<TransportKindView>> {
    let key = EdgeKey { from_node_id: owner_node_id, to_node_id: terminal_node_id };
    match delivery {
        ActiveRouteDelivery::Local => Some(Seq::<TransportKindView>::empty()),
        ActiveRouteDelivery::Direct { .. } => if edges.contains_key(key) {
            Some(seq![edges[key].observation.value.endpoint.transport_kind])
        } else {
            None
        },
        ActiveRouteDelivery::Reachable { .. } => None,
    }
}

/// The transports that a route uses, where the topology shows them.
pub fn path_transport_mix(
    topology: &MeshTopology,
    delivery: &ActiveRouteDelivery,
    owner_node_id: NodeId,
    terminal_node_id: NodeId,
) -> (mix: Option<Vec<TransportKind>>)
    requires
        topology.wf(),
    ensures
        match (
            mix,
            transport_mix(
                edge_views(topology.edges@),
                *delivery,
                owner_node_id,
                terminal_node_id,
            ),
        ) {
            (Some(mix), Some(expected)) => kind_views(mix@) == expected,
            (None, None) => true,
            _ => false,
        },
{
    match delivery {
        ActiveRouteDelivery::Local => {
            let mix: Vec<TransportKind> = Vec::new();
            assert(kind_views(mix@) =~= Seq::<TransportKindView>::empty());
            Some(mix)
        },
        ActiveRouteDelivery::Direct { .. } => {
            match topology.edge(owner_node_id, terminal_node_id) {
                Some(edge) => {
                    let mut mix: Vec<TransportKind> = Vec::new();
                    mix.push(edge.transport_kind().clone());
                    assert(kind_views(mix@) =~= seq![
                        edge@.observation.value.endpoint.transport_kind,
                    ]);
                    Some(mix)
                },
                None => None,
            }
        },
        ActiveRouteDelivery::Reachable { .. } => None,
    }
}

/// The value that is believed, or another one where nothing is.
pub open spec fn believed_or(belief: Belief<u8>, otherwise: u8) -> u8 {
    match belief {
        Belief::Estimated(estimate) => estimate.value,
        Belief::Absent => otherwise,
    }
}

/// A route as it is shown: not at all unless it leads to a node and both of its ends are known.
pub open spec fn shown_route(
    nodes: Map<NodeId, MeshNode>,
    edges: Map<EdgeKey, MeshEdgeView>,
    route: ObservedRouteView,
) -> Option<ActiveRouteView> {
    match route.destination {
        DestinationView::Node(terminal_node_id) => if nodes.contains_key(terminal_node_id)
            && nodes.contains_key(route.owner_node_id) {
            let delivery = route_delivery(
                edges,
                route.owner_node_id,
                terminal_node_id,
                believed_or(route.hop_count_hint, 1),
            );
            Some(
                ActiveRouteView {
                    route_id: route.route_id,
                    owner_node_id: route.owner_node_id,
                    destination: route.destination,
                    terminal_node_id,
                    engine: route.engine_id,
                    shape_visibility: shown_shape(route.route_shape),
                    protocol_mix: match transport_mix(
                        edges,
                        delivery,
                        route.owner_node_id,
                        terminal_node_id,
                    ) {
                        Some(mix) => mix,
                        None => route.protocol_mix,
                    },
                    delivery,
                    observed_at_tick: later_tick(
                        route.last_validated_at_tick,
                        route.lifecycle_updated_at_tick,
                    ),
                },
            )
        } else {
            None
        },
        _ => None,
    }
}

/// Shows a route, if it can be shown.
pub fn project_observed_route(topology: &MeshTopology, route: &ObservedRoute) -> (shown: Option<
    ActiveRoute,
>)
    requires
        topology.wf(),
    ensures
        match (
            shown,
            shown_route(topology.nodes@, edge_views(topology.edges@), route@),
        ) {
            (Some(shown), Some(expected)) => shown@ == expected,
            (None, None) => true,
            _ => false,
        },
{
    let terminal_node_id = match &route.destination {
        DestinationId::Node(node_id) => *node_id,
        _ => return None,
    };
    let owner_node_id = route.owner_node_id;
    if topology.node(&terminal_node_id).is_none() || topology.node(&owner_node_id).is_none() {
        return None;
    }
    let hop_count_hint: u8 = match &route.hop_count_hint {
        Belief::Estimated(estimate) => estimate.value,
        Belief::Absent => 1,
    };
    let delivery = match derive_route_delivery(
        topology,
        owner_node_id,
        terminal_node_id,
        hop_count_hint,
    ) {
        Some(delivery) => delivery,
        None => return None,
    };
    let protocol_mix = match path_transport_mix(
        topology,
        &delivery,
        owner_node_id,
        terminal_node_id,
    ) {
        Some(mix) => mix,
        None => clone_kinds(&route.protocol_mix),
    };
    Some(
        ActiveRoute {
            route_id: route.route_id,
            owner_node_id,
            destination: route.destination.clone(),
            terminal_node_id,
            engine: route.engine_id,
            shape_visibility: route_shape_visibility(route.route_shape),
            protocol_mix,
            delivery,
            observed_at_tick: route.last_validated_at_tick.later(route.lifecycle_updated_at_tick),
        },
    )
}

/// The nodes that are shown.
pub open spec fn shown_nodes(observed: ObservedView) -> Map<NodeId, MeshNode> {
    Map::new(
        |id: NodeId| observed.nodes.contains_key(id),
        |id: NodeId| mesh_node(id, observed.local_node_id, observed.nodes[id]),
    )
}

/// The edges that are shown.
pub open spec fn shown_edges(
    own: Map<EdgeKey, Observation<LinkView>>,
    observed: ObservedView,
) -> Map<EdgeKey, MeshEdgeView> {
    Map::new(
        |key: EdgeKey| observed.links.contains_key(key),
        |key: EdgeKey|
            MeshEdgeView {
                from_node_id: key.from_node_id,
                to_node_id: key.to_node_id,
                observation: edge_observation(own, key, observed.links[key]),
            },
    )
}

/// The routes that are shown.
pub open spec fn shown_routes(
    own: Map<EdgeKey, Observation<LinkView>>,
    observed: ObservedView,
) -> Map<RouteId, ActiveRouteView> {
    Map::new(
        |id: RouteId|
            observed.active_routes.contains_key(id) && shown_route(
                shown_nodes(observed),
                shown_edges(own, observed),
                observed.active_routes[id],
            ) is Some,
        |id: RouteId|
            shown_route(
                shown_nodes(observed),
                shown_edges(own, observed),
                observed.active_routes[id],
            )->0,
    )
}

/// The topology that is shown: every node and every link that the host observed, and the routes that
/// can be shown on top of them.
pub open spec fn shown_topology(
    own: Map<EdgeKey, Observation<LinkView>>,
    observed: ObservedView,
) -> MeshTopologyView {
    MeshTopologyView {
        local_node_id: observed.local_node_id,
        observed_at_tick: observed.observed_at_tick,
        nodes: shown_nodes(observed),
        edges: shown_edges(own, observed),
        active_routes: shown_routes(own, observed),
    }
}

fn nodes_from(observed: &ObservedTopology) -> (nodes: OrderedMap<NodeId, MeshNode>)
    requires
        observed.wf(),
    ensures
        nodes.wf(),
        nodes@ == shown_nodes(observed@),
{
    let mut nodes: OrderedMap<NodeId, MeshNode> = OrderedMap::new();
    let mut i: usize = 0;
    while i < observed.nodes.len()
        invariant
            observed.wf(),
            nodes.wf(),
            i <= observed.nodes.keys().len(),
            forall|id: NodeId| #[trigger]
                nodes@.contains_key(id) ==> observed.nodes@.contains_key(id) && nodes@[id]
                    == mesh_node(id, observed.local_node_id, observed.nodes@[id]),
            forall|j: int| 0 <= j < i ==> nodes@.contains_key(#[trigger] observed.nodes.keys()[j]),
        decreases observed.nodes.keys().len() - i,
    {
        let node_id = observed.nodes.key_at(i);
        let node = mesh_node_from_observed(
            node_id,
            observed.local_node_id,
            observed.nodes.value_at(i),
        );
        let _ = nodes.insert(node_id, node);
        i = i + 1;
    }
    proof {
        assert forall|id: NodeId| observed.nodes@.contains_key(
            id,
        ) implies #[trigger] nodes@.contains_key(id) by {
            let at = observed.nodes.lemma_position(id);
            assert(observed.nodes.keys()[at] == id);
        }
        assert(nodes@ =~= shown_nodes(observed@));
    }
    nodes
}

fn edges_from(
    edge_observations: &OrderedMap<EdgeKey, Observation<Link>>,
    observed: &ObservedTopology,
) -> (edges: OrderedMap<EdgeKey, MeshEdge>)
    requires
        edge_observations.wf(),
        observed.wf(),
    ensures
        edges.wf(),
        edge_views(edges@) == shown_edges(observation_views(edge_observations@), observed@),
{
    let mut edges: OrderedMap<EdgeKey, MeshEdge> = OrderedMap::new();
    let mut i: usize = 0;
    while i < observed.links.len()
        invariant
            observed.wf(),
            edge_observations.wf(),
            edges.wf(),
            i <= observed.links.keys().len(),
            forall|key: EdgeKey| #[trigger]
                edges@.contains_key(key) ==> observed.links@.contains_key(key) && edges@[key]@
                    == shown_edges(observation_views(edge_observations@), observed@)[key],
            forall|j: int| 0 <= j < i ==> edges@.contains_key(#[trigger] observed.links.keys()[j]),
        decreases observed.links.keys().len() - i,
    {
        let key = observed.links.key_at(i);
        let observation = edge_observation_from(
            edge_observations,
            key,
            observed.links.value_at(i),
        );
        let edge = MeshEdge::new(key.from_node_id, key.to_node_id, observation);
        assert(edge@ == shown_edges(observation_views(edge_observations@), observed@)[key]);
        let _ = edges.insert(key, edge);
        i = i + 1;
    }
    proof {
        assert forall|key: EdgeKey| observed.links@.contains_key(
            key,
        ) implies #[trigger] edges@.contains_key(key) by {
            let at = observed.links.lemma_position(key);
            assert(observed.links.keys()[at] == key);
        }
        assert(edge_views(edges@) =~= shown_edges(observation_views(edge_observations@), observed@));
    }
    edges
}

/// Whether a route of the host has been dealt with: it is among the shown routes exactly if it can
/// be shown.
spec fn route_settled(
    routes: Map<RouteId, ActiveRoute>,
    nodes: Map<NodeId, MeshNode>,
    edges: Map<EdgeKey, MeshEdgeView>,
    route: ObservedRouteView,
) -> bool {
    match shown_route(nodes, edges, route) {
        Some(shown) => routes.contains_key(route.route_id) && routes[route.route_id]@ == shown,
        None => !routes.contains_key(route.route_id),
    }
}

/// Makes the topology that is shown of what this node and the host observed.
pub fn mesh_snapshot_from(
    edge_observations: &OrderedMap<EdgeKey, Observation<Link>>,
    observed: &ObservedTopology,
) -> (snapshot: MeshTopology)
    requires
        edge_observations.wf(),
        observed.wf(),
    ensures
        snapshot.wf(),
        snapshot@ == shown_topology(observation_views(edge_observations@), observed@),
{
    let nodes = nodes_from(observed);
    let edges = edges_from(edge_observations, observed);
    let mut snapshot = MeshTopology {
        local_node_id: observed.local_node_id,
        observed_at_tick: observed.observed_at_tick,
        nodes,
        edges,
        active_routes: OrderedMap::new(),
    };
    let ghost shown = shown_nodes(observed@);
    let ghost drawn = shown_edges(observation_views(edge_observations@), observed@);
    let mut active_routes: OrderedMap<RouteId, ActiveRoute> = OrderedMap::new();
    let mut i: usize = 0;
    while i < observed.active_routes.len()
        invariant
            observed.wf(),
            snapshot.wf(),
            snapshot.nodes@ == shown,
            edge_views(snapshot.edges@) == drawn,
            active_routes.wf(),
            i <= observed.active_routes.keys().len(),
            forall|j: int|
                0 <= j < i ==> route_settled(
                    active_routes@,
                    shown,
                    drawn,
                    observed.active_routes@[#[trigger] observed.active_routes.keys()[j]]@,
                ),
            forall|id: RouteId| #[trigger]
                active_routes@.contains_key(id) ==> exists|j: int|
                    0 <= j < i && #[trigger] observed.active_routes.keys()[j] == id,
        decreases observed.active_routes.keys().len() - i,
    {
        let ghost before = active_routes@;
        let route_id = observed.active_routes.key_at(i);
        let route = observed.active_routes.value_at(i);
        proof {
            observed.active_routes.lemma_at(i as int);
            assert(observed@.active_routes.contains_key(route_id));
            assert(observed@.active_routes[route_id] == route@);
            assert(route.route_id == route_id);
            assert forall|j: int| 0 <= j < i implies (
            #[trigger] observed.active_routes.keys()[j]) != route_id by {
                RouteId::lemma_irreflexive(route_id);
            }
            assert(!before.contains_key(route_id));
        }
        if let Some(shown_now) = project_observed_route(&snapshot, route) {
            let _ = active_routes.insert(shown_now.route_id, shown_now);
        }
        proof {
            assert forall|j: int| 0 <= j < i + 1 implies route_settled(
                active_routes@,
                shown,
                drawn,
                observed.active_routes@[#[trigger] observed.active_routes.keys()[j]]@,
            ) by {
                observed.active_routes.lemma_at(j);
                let id = observed.active_routes.keys()[j];
                assert(observed@.active_routes.contains_key(id));
                assert(observed@.active_routes[id] == observed.active_routes@[id]@);
                assert(observed.active_routes@[id].route_id == id);
                if j < i {
                    assert(route_settled(before, shown, drawn, observed.active_routes@[id]@));
                    assert(id != route_id);
                }
            }
            assert forall|id: RouteId| #[trigger] active_routes@.contains_key(
                id,
            ) implies exists|j: int|
                0 <= j < i + 1 && #[trigger] observed.active_routes.keys()[j] == id by {
                if before.contains_key(id) {
                    let j = choose|j: int|
                        0 <= j < i && #[trigger] observed.active_routes.keys()[j] == id;
                    assert(observed.active_routes.keys()[j] == id);
                } else {
                    assert(observed.active_routes.keys()[i as int] == id);
                }
            }
        }
        i = i + 1;
    }
    proof {
        let expected = shown_routes(observation_views(edge_observations@), observed@);
        assert forall|id: RouteId| #[trigger] expected.contains_key(
            id,
        ) implies active_routes@.contains_key(id) && active_routes@[id]@ == expected[id] by {
            let j = observed.active_routes.lemma_position(id);
            assert(observed.active_routes.keys()[j] == id);
            assert(route_settled(active_routes@, shown, drawn, observed.active_routes@[id]@));
        }
        assert forall|id: RouteId| #[trigger] active_routes@.contains_key(
            id,
        ) implies expected.contains_key(id) by {
            let j = choose|j: int|
                0 <= j < observed.active_routes.keys().len()
                    && #[trigger] observed.active_routes.keys()[j] == id;
            observed.active_routes.lemma_at(j);
            assert(route_settled(active_routes@, shown, drawn, observed.active_routes@[id]@));
        }
        assert(route_views(active_routes@) =~= expected);
    }
    snapshot.active_routes = active_routes;
    snapshot
}

/// What some observations of links say.
pub open spec fn observation_views(observations: Map<EdgeKey, Observation<Link>>) -> Map<
    EdgeKey,
    Observation<LinkView>,
> {
    Map::new(
        |key: EdgeKey| observations.contains_key(key),
        |key: EdgeKey| link_observation_view(observations[key]),
    )
}

/// What a projector has learnt.
#[verifier::ext_equal]
pub ghost struct LearntTopology {
    pub observed_at_tick: Tick,
    pub nodes: Map<NodeId, Node>,
    pub links: Map<EdgeKey, LinkView>,
    pub edge_observations: Map<EdgeKey, Observation<LinkView>>,
}

/// Whether something can be learnt of an observation: a node that is heard of for the first time at
/// the very last tick cannot be described any more.
pub open spec fn can_learn(learnt: LearntTopology, observation: ObservationView) -> bool {
    observation matches ObservationView::LinkObserved { remote_node_id, observation }
        ==> learnt.nodes.contains_key(remote_node_id) || observation.observed_at_tick.0 < u64::MAX
}

/// What is learnt of an observation. Time moves on, a node that is heard of for the first time is
/// taken in, and the link to it replaces what was known of that link.
pub open spec fn learn(
    learnt: LearntTopology,
    local_node_id: NodeId,
    observation: ObservationView,
) -> LearntTopology {
    match observation {
        ObservationView::PayloadReceived { observed_at_tick, .. } => LearntTopology {
            observed_at_tick: later_tick(learnt.observed_at_tick, observed_at_tick),
            ..learnt
        },
        ObservationView::LinkObserved {
            remote_node_id,
            observation,
        } => {
            let key = EdgeKey { from_node_id: local_node_id, to_node_id: remote_node_id };
            LearntTopology {
                observed_at_tick: later_tick(
                    learnt.observed_at_tick,
                    observation.observed_at_tick,
                ),
                nodes: if learnt.nodes.contains_key(remote_node_id) {
                    learnt.nodes
                } else {
                    learnt.nodes.insert(
                        remote_node_id,
                        route_capable_node(
                            remote_node_id,
                            observation.value.endpoint,
                            observation.observed_at_tick,
                        ),
                    )
                },
                links: learnt.links.insert(key, observation.value),
                edge_observations: learnt.edge_observations.insert(key, observation),
            }
        },
    }
}

/// What a [`TopologyProjector`] holds.
#[verifier::ext_equal]
pub ghost struct ProjectorView {
    pub mesh: Observation<ConfigurationView>,
    pub edge_observations: Map<EdgeKey, Observation<LinkView>>,
    pub host: HostView,
}

impl ProjectorView {
    /// What was learnt.
    pub open spec fn learnt(self) -> LearntTopology {
        LearntTopology {
            observed_at_tick: self.mesh.observed_at_tick,
            nodes: self.mesh.value.nodes,
            links: self.mesh.value.links,
            edge_observations: self.edge_observations,
        }
    }

    /// What there is to show.
    pub open spec fn shown(self) -> MeshTopologyView {
        shown_topology(self.edge_observations, self.host.observed)
    }

    /// The state once an observation was heard. The host is told if anything was learnt.
    pub open spec fn heard(self, observation: ObservationView) -> ProjectorView {
        let learnt = learn(self.learnt(), self.host.observed.local_node_id, observation);
        let mesh = Observation {
            value: ConfigurationView {
                nodes: learnt.nodes,
                links: learnt.links,
                ..self.mesh.value
            },
            observed_at_tick: learnt.observed_at_tick,
            ..self.mesh
        };
        ProjectorView {
            mesh,
            edge_observations: learnt.edge_observations,
            host: if learnt == self.learnt() {
                self.host
            } else {
                self.host.told_mesh(mesh)
            },
        }
    }

    /// The state once some observations were heard, one after the other.
    pub open spec fn heard_all(self, observations: Seq<ObservationView>) -> ProjectorView
        decreases observations.len(),
    {
        if observations.len() == 0 {
            self
        } else {
            self.heard_all(observations.drop_last()).heard(observations.last())
        }
    }

    /// Whether some observations can be heard, one after the other.
    pub open spec fn can_hear(self, observations: Seq<ObservationView>) -> bool {
        forall|i: int|
            0 <= i < observations.len() ==> can_learn(
                self.heard_all(observations.take(i)).learnt(),
                #[trigger] observations[i],
            )
    }

    /// Whether one of some observations changes what is shown.
    pub open spec fn shows_change(self, observations: Seq<ObservationView>) -> bool {
        exists|i: int|
            0 <= i < observations.len() && #[trigger] self.heard_all(
                observations.take(i),
            ).shown() != self.heard_all(observations.take(i + 1)).shown()
    }
}

/// What some observations say.
pub open spec fn heard_views(observations: Seq<TransportObservation>) -> Seq<ObservationView> {
    observations.map_values(|observation: TransportObservation| observation@)
}

/// What follows of the report on a round.
#[derive(Clone, Copy, Debug, PartialEq, Eq, Structural)]
pub struct ReportEffect {
    /// The router is to be told of the mesh and of the inputs of routing policy.
    pub tell_router: bool,
    /// The topology that is shown is to be published.
    pub publish_topology: bool,
}

/// A projector's state: the mesh as the router is told of it, this node's observations of its own
/// links, the host's projector, and the topology that is shown.
pub struct TopologyProjector {
    pub topology: Observation<Configuration>,
    pub edge_observations: OrderedMap<EdgeKey, Observation<Link>>,
    pub host: HostTopologyProjector,
    pub snapshot: MeshTopology,
}

impl View for TopologyProjector {
    type V = ProjectorView;

    open spec fn view(&self) -> ProjectorView {
        ProjectorView {
            mesh: mesh_view(self.topology),
            edge_observations: observation_views(self.edge_observations@),
            host: host_view(self.host),
        }
    }
}

impl TopologyProjector {
    /// The host was told of the mesh as it is known now.
    pub open spec fn host_follows(&self) -> bool {
        &&& self.topology.value.wf()
        &&& self.edge_observations.wf()
        &&& self.snapshot.wf()
        &&& self.observed().wf()
        &&& self.observed().nodes == self.topology.value.nodes@
        &&& self.observed().links == links_seen(mesh_view(self.topology))
    }

    /// The host follows, and what is shown is what this node and the host observed.
    pub open spec fn wf(&self) -> bool {
        &&& self.host_follows()
        &&& self.snapshot@ == self@.shown()
    }

    /// What the host observes.
    pub open spec fn observed(&self) -> ObservedView {
        self@.host.observed
    }

    /// What the projector has learnt.
    pub open spec fn learnt(&self) -> LearntTopology {
        self@.learnt()
    }

    /// What no observation changes.
    pub open spec fn keeps_context_of(&self, before: &Self) -> bool {
        &&& self.topology.value.epoch == before.topology.value.epoch
        &&& self.topology.value.environment == before.topology.value.environment
        &&& self.topology.source_class == before.topology.source_class
        &&& self.topology.evidence_class == before.topology.evidence_class
        &&& self.topology.origin_authentication == before.topology.origin_authentication
    }

    /// A projector for a mesh that is known already. The links of the mesh count as observed in the
    /// way in which the mesh was.
    pub fn new(local_node_id: NodeId, initial_topology: Observation<Configuration>) -> (projector:
        Self)
        requires
            initial_topology.value.wf(),
        ensures
            projector.wf(),
            projector@ == (ProjectorView {
                mesh: mesh_view(initial_topology),
                edge_observations: Map::new(
                    |key: EdgeKey| initial_topology.value.links@.contains_key(key),
                    |key: EdgeKey|
                        observed_alike(initial_topology, initial_topology.value.links@[key]@),
                ),
                host: HostView::fresh(local_node_id, mesh_view(initial_topology)),
            }),
    {
        let links = &initial_topology.value.links;
        let mut edge_observations: OrderedMap<EdgeKey, Observation<Link>> = OrderedMap::new();
        let mut i: usize = 0;
        while i < links.len()
            invariant
                links.wf(),
                *links == initial_topology.value.links,
                edge_observations.wf(),
                i <= links.keys().len(),
                forall|key: EdgeKey| #[trigger]
                    edge_observations@.contains_key(key) ==> links@.contains_key(key)
                        && link_observation_view(edge_observations@[key]) == observed_alike(
                        initial_topology,
                        links@[key]@,
                    ),
                forall|j: int|
                    0 <= j < i ==> edge_observations@.contains_key(#[trigger] links.keys()[j]),
            decreases links.keys().len() - i,
        {
            let observation = Observation {
                value: links.value_at(i).clone(),
                source_class: initial_topology.source_class,
                evidence_class: initial_topology.evidence_class,
                origin_authentication: initial_topology.origin_authentication,
                observed_at_tick: initial_topology.observed_at_tick,
            };
            let _ = edge_observations.insert(links.key_at(i), observation);
            i = i + 1;
        }
        proof {
            assert forall|key: EdgeKey| links@.contains_key(
                key,
            ) implies #[trigger] edge_observations@.contains_key(key) by {
                let at = links.lemma_position(key);
                assert(links.keys()[at] == key);
            }
            assert(observation_views(edge_observations@) =~= Map::new(
                |key: EdgeKey| initial_topology.value.links@.contains_key(key),
                |key: EdgeKey|
                    observed_alike(initial_topology, initial_topology.value.links@[key]@),
            ));
        }
        let host = new_host(local_node_id, core_mesh(&initial_topology));
        let snapshot = mesh_snapshot_from(&edge_observations, &host_observed(&host));
        TopologyProjector { topology: initial_topology, edge_observations, host, snapshot }
    }

    /// A copy of the topology that is shown.
    pub fn snapshot(&self) -> (snapshot: MeshTopology)
        requires
            self.wf(),
        ensures
            snapshot.wf(),
            snapshot@ == self.snapshot@,
    {
        self.snapshot.duplicate()
    }

    /// The mesh as the router is told of it, in the router's own type.
    pub fn topology_observation(&self) -> (mesh: CoreObservation<CoreConfiguration>)
        requires
            self.wf(),
        ensures
            mesh_named(mesh) == self@.mesh,
    {
        core_mesh(&self.topology)
    }

    fn bump_topology_tick(&mut self, observed_at_tick: Tick) -> (changed: bool)
        ensures
            final(self).topology.observed_at_tick == later_tick(
                old(self).topology.observed_at_tick,
                observed_at_tick,
            ),
            changed == (final(self).topology.observed_at_tick != old(
                self,
            ).topology.observed_at_tick),
            final(self).topology.value == old(self).topology.value,
            final(self).edge_observations == old(self).edge_observations,
            final(self).host == old(self).host,
            final(self).snapshot == old(self).snapshot,
            final(self).keeps_context_of(old(self)),
    {
        if observed_at_tick.0 > self.topology.observed_at_tick.0 {
            self.topology.observed_at_tick = observed_at_tick;
            true
        } else {
            false
        }
    }

    /// Learns of an observation, and says whether anything was learnt. The host is told elsewhere.
    fn learn_of(&mut self, observation: &TransportObservation) -> (taught: bool)
        requires
            old(self).wf(),
            can_learn(old(self).learnt(), observation@),
        ensures
            final(self).topology.value.wf(),
            final(self).edge_observations.wf(),
            final(self).host == old(self).host,
            final(self).snapshot == old(self).snapshot,
            final(self).keeps_context_of(old(self)),
            final(self).learnt() == learn(
                old(self).learnt(),
                old(self).snapshot.local_node_id,
                observation@,
            ),
            taught == (final(self).learnt() != old(self).learnt()),
    {
        let ghost before = self.learnt();
        match observation {
            TransportObservation::PayloadReceived { observed_at_tick, .. } => {
                let changed = self.bump_topology_tick(*observed_at_tick);
                assert(self.learnt() =~= learn(
                    before,
                    self.snapshot.local_node_id,
                    observation@,
                ));
                changed
            },
            TransportObservation::LinkObserved { remote_node_id, observation: seen } => {
                let mut changed = self.bump_topology_tick(seen.observed_at_tick);
                if !self.topology.value.nodes.contains_key(remote_node_id) {
                    let _ = self.topology.value.nodes.insert(
                        *remote_node_id,
                        ble_node(
                            *remote_node_id,
                            seen.value.endpoint.clone(),
                            seen.observed_at_tick,
                        ),
                    );
                    changed = true;
                }
                let ghost known = self.topology.value.nodes@;
                assert(changed == (self.topology.observed_at_tick != before.observed_at_tick
                    || known != before.nodes)) by {
                    if !before.nodes.contains_key(*remote_node_id) {
                        assert(known.contains_key(*remote_node_id));
                    }
                }
                let key = EdgeKey {
                    from_node_id: self.snapshot.local_node_id,
                    to_node_id: *remote_node_id,
                };
                let ghost linked = self.topology.value.links@;
                let ghost own = self.edge_observations@;
                let link_changed = match self.topology.value.links.insert(key, seen.value.clone()) {
                    Some(previous) => previous != seen.value,
                    None => true,
                };
                let observation_changed = match self.edge_observations.insert(
                    key,
                    seen.duplicate(),
                ) {
                    Some(previous) => !previous.same(seen),
                    None => true,
                };
                proof {
                    let after = self.learnt();
                    assert(after.links =~= before.links.insert(key, seen.value@));
                    assert(after.edge_observations =~= before.edge_observations.insert(
                        key,
                        link_observation_view(*seen),
                    ));
                    assert(link_changed == (after.links != before.links)) by {
                        assert(before.links.contains_key(key) == linked.contains_key(key));
                        if linked.contains_key(key) {
                            assert(before.links[key] == linked[key]@);
                        }
                        assert(after.links.contains_key(key));
                        assert(after.links[key] == seen.value@);
                        if !link_changed {
                            assert(after.links =~= before.links);
                        }
                    }
                    assert(observation_changed == (after.edge_observations
                        != before.edge_observations)) by {
                        assert(before.edge_observations.contains_key(key) == own.contains_key(key));
                        if own.contains_key(key) {
                            assert(before.edge_observations[key] == link_observation_view(
                                own[key],
                            ));
                        }
                        assert(after.edge_observations.contains_key(key));
                        assert(after.edge_observations[key] == link_observation_view(*seen));
                        if !observation_changed {
                            assert(after.edge_observations =~= before.edge_observations);
                        }
                    }
                    assert(after =~= learn(before, self.snapshot.local_node_id, observation@));
                }
                changed || link_changed || observation_changed
            },
        }
    }

    /// Takes an observation of this node into account, and says whether the topology that is shown
    /// changed. The host is told of what was learnt; a link is then shown as it was observed,
    /// together with the node at its other end.
    pub fn ingest_transport_observation(&mut self, observation: &TransportObservation) -> (changed:
        bool)
        requires
            old(self).wf(),
            can_learn(old(self).learnt(), observation@),
        ensures
            final(self).wf(),
            final(self)@ == old(self)@.heard(observation@),
            changed == (final(self).snapshot@ != old(self).snapshot@),
            observation@ matches ObservationView::LinkObserved { remote_node_id, observation: seen }
                ==> shows_link(final(self).snapshot@, remote_node_id, seen),
    {
        let ghost before = self.learnt();
        let taught = self.learn_of(observation);
        proof {
            if let ObservationView::LinkObserved { remote_node_id, observation: seen } = observation@ {
                lemma_link_is_learnt(before, self.snapshot.local_node_id, remote_node_id, seen);
            }
        }
        if !taught {
            assert(self.host_follows());
            proof {
                if let ObservationView::LinkObserved { remote_node_id, observation: seen } =
                    observation@ {
                    self.lemma_learnt_link_is_shown(remote_node_id, seen);
                }
            }
            return false;
        }
        let mesh = core_mesh(&self.topology);
        host_ingest_topology(&mut self.host, mesh);
        let changed = self.refresh_snapshot();
        proof {
            if let ObservationView::LinkObserved { remote_node_id, observation: seen } = observation@ {
                self.lemma_learnt_link_is_shown(remote_node_id, seen);
            }
        }
        changed
    }

    /// Takes note of what an engine shows of its routes, and says whether the topology that is shown
    /// changed.
    pub fn ingest_engine_capabilities(&mut self, capabilities: RoutingEngineCapabilities) -> (changed:
        bool)
        requires
            old(self).wf(),
        ensures
            final(self).wf(),
            final(self)@ == (ProjectorView {
                host: old(self)@.host.told_engine(
                    capabilities_named(capabilities).0,
                    capabilities_named(capabilities).1,
                ),
                ..old(self)@
            }),
            changed == (final(self).snapshot@ != old(self).snapshot@),
    {
        host_ingest_engine_capabilities(&mut self.host, capabilities);
        self.refresh_snapshot()
    }

    /// Takes note of a route that was taken into use, and says whether the topology that is shown
    /// changed.
    pub fn ingest_materialized_route(&mut self, route: &MaterializedRoute) -> (changed: bool)
        requires
            old(self).wf(),
        ensures
            final(self).wf(),
            final(self)@ == (ProjectorView {
                host: old(self)@.host.told_route(materialized_named(*route)),
                ..old(self)@
            }),
            changed == (final(self).snapshot@ != old(self).snapshot@),
    {
        host_ingest_materialized_route(&mut self.host, route);
        self.refresh_snapshot()
    }

    /// Takes note of what a round of the router did to the routes, and says whether the topology that
    /// is shown changed.
    pub fn ingest_round_outcome(&mut self, outcome: &RouterRoundOutcome) -> (changed: bool)
        requires
            old(self).wf(),
        ensures
            final(self).wf(),
            final(self)@ == (ProjectorView {
                host: old(self)@.host.told_mutation(mutation_named(outcome.canonical_mutation)),
                ..old(self)@
            }),
            changed == (final(self).snapshot@ != old(self).snapshot@),
    {
        host_ingest_round_outcome(&mut self.host, outcome);
        self.refresh_snapshot()
    }

    /// Takes the report on a round into account: first what was observed, in order, then what the
    /// round did to the routes. The router is told of the mesh again if an observation changed what
    /// is shown; the topology is published if anything did.
    pub fn ingest_report(&mut self, report: &BleBridgeRoundReport) -> (effect: ReportEffect)
        requires
            old(self).wf(),
            old(self)@.can_hear(heard_views(report.ingested_transport_observations@)),
        ensures
            final(self).wf(),
            ({
                let observations = heard_views(report.ingested_transport_observations@);
                let heard = old(self)@.heard_all(observations);
                &&& final(self)@ == (ProjectorView {
                    host: heard.host.told_mutation(
                        mutation_named(report.router_outcome.canonical_mutation),
                    ),
                    ..heard
                })
                &&& effect.tell_router == old(self)@.shows_change(observations)
                &&& effect.publish_topology == (effect.tell_router || final(self)@.shown()
                    != heard.shown())
            }),
    {
        let ghost before = self@;
        let ghost observations = heard_views(report.ingested_transport_observations@);
        let mut tell_router = false;
        let mut i: usize = 0;
        assert(observations.take(0) =~= Seq::<ObservationView>::empty());
        while i < report.ingested_transport_observations.len()
            invariant
                self.wf(),
                observations == heard_views(report.ingested_transport_observations@),
                before.can_hear(observations),
                i <= observations.len(),
                self@ == before.heard_all(observations.take(i as int)),
                tell_router == before.shows_change(observations.take(i as int)),
            decreases observations.len() - i,
        {
            let observation = &report.ingested_transport_observations[i];
            assert(observations[i as int] == observation@);
            let changed = self.ingest_transport_observation(observation);
            proof {
                let done = observations.take(i as int);
                let more = observations.take(i + 1);
                assert(more.drop_last() =~= done);
                assert(more.last() == observation@);
                before.lemma_shows_change_step(observations, i as int);
            }
            tell_router = tell_router || changed;
            i = i + 1;
        }
        assert(observations.take(i as int) =~= observations);
        let moved = self.ingest_round_outcome(&report.router_outcome);
        ReportEffect { tell_router, publish_topology: tell_router || moved }
    }

    /// Shows what there is to show now, and says whether that is anything new.
    fn refresh_snapshot(&mut self) -> (changed: bool)
        requires
            old(self).host_follows(),
        ensures
            final(self).wf(),
            final(self).topology == old(self).topology,
            final(self).edge_observations == old(self).edge_observations,
            final(self).host == old(self).host,
            changed == (final(self).snapshot@ != old(self).snapshot@),
    {
        let observed = host_observed(&self.host);
        let next_snapshot = mesh_snapshot_from(&self.edge_observations, &observed);
        if next_snapshot.same(&self.snapshot) {
            return false;
        }
        self.snapshot = next_snapshot;
        true
    }

    /// A link that was learnt of is shown as it was observed, once the host follows.
    proof fn lemma_learnt_link_is_shown(
        &self,
        remote_node_id: NodeId,
        observation: Observation<LinkView>,
    )
        requires
            self.wf(),
            knows_link(
                self.learnt(),
                self.snapshot.local_node_id,
                remote_node_id,
                observation,
            ),
        ensures
            shows_link(self.snapshot@, remote_node_id, observation),
    {
        let key = EdgeKey {
            from_node_id: self.snapshot.local_node_id,
            to_node_id: remote_node_id,
        };
        assert(link_views(self.topology.value.links@).contains_key(key));
        assert(self.observed().links.contains_key(key));
        assert(self@.shown().edges.contains_key(key));
        assert(self@.shown().nodes.contains_key(remote_node_id));
    }
}

impl ProjectorView {
    /// One more observation changes what is shown, or an earlier one did.
    proof fn lemma_shows_change_step(self, observations: Seq<ObservationView>, done: int)
        requires
            0 <= done < observations.len(),
        ensures
            self.shows_change(observations.take(done + 1)) == (self.shows_change(
                observations.take(done),
            ) || self.heard_all(observations.take(done)).shown() != self.heard_all(
                observations.take(done + 1),
            ).shown()),
    {
        let fewer = observations.take(done);
        let more = observations.take(done + 1);
        assert(more.take(done) =~= fewer);
        assert(more.take(done + 1) =~= more);
        assert forall|i: int| 0 <= i < done implies #[trigger] fewer.take(i) == more.take(i) by {
            assert(fewer.take(i) =~= more.take(i));
        }
        if self.shows_change(fewer) {
            let i = choose|i: int|
                0 <= i < fewer.len() && #[trigger] self.heard_all(fewer.take(i)).shown()
                    != self.heard_all(fewer.take(i + 1)).shown();
            assert(fewer.take(i) =~= more.take(i));
            assert(fewer.take(i + 1) =~= more.take(i + 1));
            assert(self.heard_all(more.take(i)).shown() != self.heard_all(more.take(i + 1)).shown());
        }
        if self.shows_change(more) {
            let i = choose|i: int|
                0 <= i < more.len() && #[trigger] self.heard_all(more.take(i)).shown()
                    != self.heard_all(more.take(i + 1)).shown();
            if i < done {
                assert(fewer.take(i) =~= more.take(i));
                assert(fewer.take(i + 1) =~= more.take(i + 1));
                assert(self.heard_all(fewer.take(i)).shown() != self.heard_all(
                    fewer.take(i + 1),
                ).shown());
            }
        }
        if self.heard_all(fewer).shown() != self.heard_all(more).shown() {
            assert(self.heard_all(more.take(done)).shown() != self.heard_all(
                more.take(done + 1),
            ).shown());
        }
    }
}

/// Whether a link from this node and the node at its other end are known, the link as it was
/// observed.
pub open spec fn knows_link(
    learnt: LearntTopology,
    local_node_id: NodeId,
    remote_node_id: NodeId,
    observation: Observation<LinkView>,
) -> bool {
    let key = EdgeKey { from_node_id: local_node_id, to_node_id: remote_node_id };
    &&& learnt.nodes.contains_key(remote_node_id)
    &&& learnt.links.contains_key(key)
    &&& learnt.links[key] == observation.value
    &&& learnt.edge_observations.contains_key(key)
    &&& learnt.edge_observations[key] == observation
}

/// Whether a topology shows a link from its own node, as it was observed, and the node at its other
/// end.
pub open spec fn shows_link(
    shown: MeshTopologyView,
    remote_node_id: NodeId,
    observation: Observation<LinkView>,
) -> bool {
    let from_node_id = shown.local_node_id;
    let key = EdgeKey { from_node_id, to_node_id: remote_node_id };
    &&& shown.edges.contains_key(key)
    &&& shown.edges[key] == (MeshEdgeView { from_node_id, to_node_id: remote_node_id, observation })
    &&& shown.nodes.contains_key(remote_node_id)
}

/// A link that is heard of is known from then on.
proof fn lemma_link_is_learnt(
    learnt: LearntTopology,
    local_node_id: NodeId,
    remote_node_id: NodeId,
    observation: Observation<LinkView>,
)
    ensures
        knows_link(
            learn(
                learnt,
                local_node_id,
                ObservationView::LinkObserved { remote_node_id, observation },
            ),
            local_node_id,
            remote_node_id,
            observation,
        ),
{
}

/// Hearing the same thing again teaches nothing.
pub proof fn law_repeated_observation_teaches_nothing(
    learnt: LearntTopology,
    local_node_id: NodeId,
    observation: ObservationView,
)
    ensures
        learn(learn(learnt, local_node_id, observation), local_node_id, observation) == learn(
            learnt,
            local_node_id,
            observation,
        ),
{
    assert(learn(learn(learnt, local_node_id, observation), local_node_id, observation) =~= learn(
        learnt,
        local_node_id,
        observation,
    ));
}

/// Learning forgets nothing: time does not run backwards, and no node, link or observation that is
/// known is lost.
pub proof fn law_learning_forgets_nothing(
    learnt: LearntTopology,
    local_node_id: NodeId,
    observation: ObservationView,
)
    ensures
        ({
            let after = learn(learnt, local_node_id, observation);
            &&& after.observed_at_tick.0 >= learnt.observed_at_tick.0
            &&& forall|id: NodeId| #[trigger]
                learnt.nodes.contains_key(id) ==> after.nodes.contains_key(id) && after.nodes[id]
                    == learnt.nodes[id]
            &&& forall|key: EdgeKey| #[trigger]
                learnt.links.contains_key(key) ==> after.links.contains_key(key)
            &&& forall|key: EdgeKey| #[trigger]
                learnt.edge_observations.contains_key(key) ==> after.edge_observations.contains_key(
                    key,
                )
        }),
{
}

/// The topology that is shown does not claim too much of a route: both ends are known nodes, direct
/// delivery goes over an edge that is shown and works, with the transport of that edge and no
/// other, and a route of more than one hop is never called direct.
pub proof fn law_routes_are_not_overclaimed(
    nodes: Map<NodeId, MeshNode>,
    edges: Map<EdgeKey, MeshEdgeView>,
    route: ObservedRouteView,
)
    ensures
        shown_route(nodes, edges, route) matches Some(shown) ==> {
            &&& nodes.contains_key(shown.owner_node_id)
            &&& nodes.contains_key(shown.terminal_node_id)
            &&& shown.delivery is Local <==> shown.owner_node_id == shown.terminal_node_id
            &&& shown.delivery matches ActiveRouteDelivery::Direct { next_hop_node_id } ==> {
                &&& next_hop_node_id == shown.terminal_node_id
                &&& edge_works(edges, shown.owner_node_id, shown.terminal_node_id)
                &&& believed_or(route.hop_count_hint, 1) <= 1
                &&& shown.protocol_mix == seq![
                    edges[EdgeKey {
                        from_node_id: shown.owner_node_id,
                        to_node_id: shown.terminal_node_id,
                    }].observation.value.endpoint.transport_kind,
                ]
            }
            &&& shown.delivery matches ActiveRouteDelivery::Reachable { hop_count_hint }
                ==> hop_count_hint >= 1
        },
{
}

/// What this node observed of its own links is what is shown of them, whatever the host made of it.
pub proof fn law_own_observation_is_shown(
    own: Map<EdgeKey, Observation<LinkView>>,
    observed: ObservedView,
    key: EdgeKey,
)
    requires
        own.contains_key(key),
        observed.links.contains_key(key),
    ensures
        shown_edges(own, observed).contains_key(key),
        shown_edges(own, observed)[key].observation == own[key],
{
}

/// A link that this node hears of is shown as it was observed, together with the node at its other
/// end. A node that was not known before is shown as one that can carry routes; what was known of a
/// node before stays.
pub proof fn law_heard_link_is_shown(
    before: TopologyProjector,
    after: TopologyProjector,
    remote_node_id: NodeId,
    observation: Observation<LinkView>,
)
    requires
        before.wf(),
        after.wf(),
        after@ == before@.heard(ObservationView::LinkObserved { remote_node_id, observation }),
    ensures
        shows_link(after.snapshot@, remote_node_id, observation),
        after.snapshot@.nodes[remote_node_id].node == if before.snapshot@.nodes.contains_key(
            remote_node_id,
        ) {
            before.snapshot@.nodes[remote_node_id].node
        } else {
            route_capable_node(
                remote_node_id,
                observation.value.endpoint,
                observation.observed_at_tick,
            )
        },
{
    lemma_link_is_learnt(
        before.learnt(),
        before.snapshot.local_node_id,
        remote_node_id,
        observation,
    );
    assert(after.snapshot@.local_node_id == before.snapshot@.local_node_id);
    after.lemma_learnt_link_is_shown(remote_node_id, observation);
}

/// Nothing that is shown changes unnoticed: where no observation shows a change, the observations
/// together change nothing that is shown.
pub proof fn law_no_change_goes_unnoticed(
    projector: ProjectorView,
    observations: Seq<ObservationView>,
)
    requires
        !projector.shows_change(observations),
    ensures
        projector.heard_all(observations).shown() == projector.shown(),
    decreases observations.len(),
{
    if observations.len() > 0 {
        let last = observations.len() - 1;
        assert(observations.take(last + 1) =~= observations);
        assert(observations.take(last) =~= observations.drop_last());
        projector.lemma_shows_change_step(observations, last);
        law_no_change_goes_unnoticed(projector, observations.drop_last());
    }
}

/// A route that is taken into use is shown exactly if it leads from a node that is known to a node
/// that is known, and is gone once it expired.
pub proof fn law_route_in_use_is_shown(
    own: Map<EdgeKey, Observation<LinkView>>,
    host: HostView,
    route: MaterializedView,
)
    ensures
        ({
            let told = host.told_route(route);
            let shown = shown_topology(own, told.observed);
            &&& shown.active_routes.contains_key(route.route_id) <==> match route.destination {
                DestinationView::Node(terminal_node_id) => {
                    &&& host.observed.nodes.contains_key(terminal_node_id)
                    &&& host.observed.nodes.contains_key(route.owner_node_id)
                },
                _ => false,
            }
            &&& shown.active_routes.contains_key(route.route_id)
                ==> shown.active_routes[route.route_id].owner_node_id == route.owner_node_id
            &&& !shown_topology(
                own,
                told.told_mutation(MutationView::RouteExpired { route_id: route.route_id }).observed,
            ).active_routes.contains_key(route.route_id)
        }),
{
}

/// How many hops a route is said to take; one where nothing is said.
pub open spec fn hops_said(hop_count_hint: Belief<u8>) -> u8 {
    match hop_count_hint {
        Belief::Estimated(estimate) => estimate.value,
        Belief::Absent => 1,
    }
}

/// A route of at most one hop whose edge from its owner to its end is shown in any state but failed
/// delivers directly, whatever the transport of the edge; one that ends at its owner delivers
/// locally. Everything else is reachable only, over at least one hop and as many as are said.
pub proof fn law_one_hop_over_a_working_edge_is_direct(
    edges: Map<EdgeKey, MeshEdgeView>,
    owner_node_id: NodeId,
    terminal_node_id: NodeId,
    hop_count_hint: u8,
)
    ensures
        ({
            let delivery = route_delivery(edges, owner_node_id, terminal_node_id, hop_count_hint);
            let mix = transport_mix(edges, delivery, owner_node_id, terminal_node_id);
            let key = EdgeKey { from_node_id: owner_node_id, to_node_id: terminal_node_id };
            let failed = edges[key].observation.value.state.state is Faulted;
            &&& owner_node_id == terminal_node_id ==> {
                &&& delivery is Local
                &&& mix matches Some(kinds) && kinds.len() == 0
            }
            &&& owner_node_id != terminal_node_id && hop_count_hint <= 1 && edges.contains_key(key)
                && !failed ==> {
                &&& delivery matches ActiveRouteDelivery::Direct { next_hop_node_id }
                &&& next_hop_node_id == terminal_node_id
                &&& mix matches Some(kinds) && kinds.len() == 1 && kinds[0]
                    == edges[key].observation.value.endpoint.transport_kind
            }
            &&& owner_node_id != terminal_node_id && (hop_count_hint > 1 || !edges.contains_key(key)
                || failed) ==> {
                &&& delivery matches ActiveRouteDelivery::Reachable { hop_count_hint: hops }
                &&& hops >= 1
                &&& hops == hop_count_hint || hop_count_hint == 0 && hops == 1
                &&& mix is None
            }
        }),
{
}

/// A route is shown exactly if it leads to a node and both of its ends are known. It is shown for
/// what it is: with its own identity, ends and engine, as late as it was last heard of, and with the
/// transports of the router wherever the edges do not show them.
pub proof fn law_route_between_known_nodes_is_shown(
    nodes: Map<NodeId, MeshNode>,
    edges: Map<EdgeKey, MeshEdgeView>,
    route: ObservedRouteView,
)
    ensures
        shown_route(nodes, edges, route) is Some <==> {
            &&& route.destination is Node
            &&& nodes.contains_key(route.destination->Node_0)
            &&& nodes.contains_key(route.owner_node_id)
        },
        shown_route(nodes, edges, route) matches Some(shown) ==> {
            let key = EdgeKey {
                from_node_id: route.owner_node_id,
                to_node_id: route.destination->Node_0,
            };
            &&& shown.route_id == route.route_id
            &&& shown.owner_node_id == route.owner_node_id
            &&& shown.destination == route.destination
            &&& shown.terminal_node_id == route.destination->Node_0
            &&& shown.engine == route.engine_id
            &&& shown.observed_at_tick.0 >= route.last_validated_at_tick.0
            &&& shown.observed_at_tick.0 >= route.lifecycle_updated_at_tick.0
            &&& shown.observed_at_tick == route.last_validated_at_tick || shown.observed_at_tick
                == route.lifecycle_updated_at_tick
            &&& shown.owner_node_id != shown.terminal_node_id && hops_said(route.hop_count_hint)
                <= 1 && edges.contains_key(key) && !(edges[key].observation.value.state.state
                is Faulted) ==> {
                &&& shown.delivery == ActiveRouteDelivery::Direct {
                    next_hop_node_id: shown.terminal_node_id,
                }
                &&& shown.protocol_mix == seq![
                    edges[key].observation.value.endpoint.transport_kind,
                ]
            }
            &&& shown.delivery is Local ==> shown.protocol_mix.len() == 0
            &&& shown.delivery is Reachable ==> {
                &&& shown.protocol_mix == route.protocol_mix
                &&& shown.delivery->Reachable_hop_count_hint == if hops_said(route.hop_count_hint)
                    == 0 {
                    1
                } else {
                    hops_said(route.hop_count_hint)
                }
            }
        },
{
}

/// As much of a route is shown as the host sees of it, no more and no less.
pub proof fn law_shape_is_shown_as_it_is_seen(seen: ObservedRouteShape)
    ensures
        shown_shape(seen) is ExplicitPath <==> seen is ExplicitPath,
        shown_shape(seen) is CorridorEnvelope <==> seen is CorridorEnvelope,
        shown_shape(seen) is NextHopOnly <==> seen is NextHopOnly,
        shown_shape(seen) is Opaque <==> seen is Opaque,
{
}

/// Everything that the host observed is shown and nothing else: each node, as this one or as another
/// one, each link between the two nodes that it is filed under, and each route that can be shown. A
/// link that this node did not observe itself is shown as the host has it.
pub proof fn law_everything_observed_is_shown(
    own: Map<EdgeKey, Observation<LinkView>>,
    observed: ObservedView,
)
    ensures
        ({
            let shown = shown_topology(own, observed);
            &&& shown.local_node_id == observed.local_node_id
            &&& shown.observed_at_tick == observed.observed_at_tick
            &&& forall|id: NodeId| #[trigger]
                shown.nodes.contains_key(id) <==> observed.nodes.contains_key(id)
            &&& forall|id: NodeId| #[trigger]
                shown.nodes.contains_key(id) ==> {
                    &&& shown.nodes[id].node_id == id
                    &&& shown.nodes[id].node == observed.nodes[id]
                    &&& shown.nodes[id].role is Local <==> id == observed.local_node_id
                }
            &&& forall|key: EdgeKey| #[trigger]
                shown.edges.contains_key(key) <==> observed.links.contains_key(key)
            &&& forall|key: EdgeKey| #[trigger]
                shown.edges.contains_key(key) ==> {
                    &&& shown.edges[key].from_node_id == key.from_node_id
                    &&& shown.edges[key].to_node_id == key.to_node_id
                    &&& own.contains_key(key) ==> shown.edges[key].observation == own[key]
                    &&& !own.contains_key(key) ==> {
                        &&& shown.edges[key].observation.value == observed.links[key].link
                        &&& shown.edges[key].observation.observed_at_tick
                            == observed.links[key].observed_at_tick
                        &&& shown.edges[key].observation.source_class is Local
                        &&& shown.edges[key].observation.evidence_class is DirectObservation
                        &&& shown.edges[key].observation.origin_authentication is Unauthenticated
                    }
                }
            &&& forall|id: RouteId| #[trigger]
                shown.active_routes.contains_key(id) <==> {
                    &&& observed.active_routes.contains_key(id)
                    &&& observed.active_routes[id].destination is Node
                    &&& observed.nodes.contains_key(
                        observed.active_routes[id].destination->Node_0,
                    )
                    &&& observed.nodes.contains_key(observed.active_routes[id].owner_node_id)
                }
        }),
{
    assert forall|id: RouteId| observed.active_routes.contains_key(id) implies (shown_route(
        shown_nodes(observed),
        shown_edges(own, observed),
        #[trigger] observed.active_routes[id],
    ) is Some <==> {
        &&& observed.active_routes[id].destination is Node
        &&& observed.nodes.contains_key(observed.active_routes[id].destination->Node_0)
        &&& observed.nodes.contains_key(observed.active_routes[id].owner_node_id)
    }) by {
        law_route_between_known_nodes_is_shown(
            shown_nodes(observed),
            shown_edges(own, observed),
            observed.active_routes[id],
        );
    }
}

/// What is heard of a link is learnt, whatever the link is like: the link is known as it was
/// observed, and so is the node at its other end. Of a payload only the time is learnt. Nothing is
/// learnt of any other link or node, and time moves on to what was heard, never back.
pub proof fn law_what_is_heard_is_learnt(
    learnt: LearntTopology,
    local_node_id: NodeId,
    observation: ObservationView,
)
    ensures
        ({
            let after = learn(learnt, local_node_id, observation);
            &&& observation matches ObservationView::LinkObserved {
                remote_node_id,
                observation: seen,
            } ==> {
                let key = EdgeKey { from_node_id: local_node_id, to_node_id: remote_node_id };
                &&& after.nodes.contains_key(remote_node_id)
                &&& after.links.contains_key(key) && after.links[key] == seen.value
                &&& after.edge_observations.contains_key(key) && after.edge_observations[key]
                    == seen
                &&& forall|other: EdgeKey|
                    other != key ==> (#[trigger] after.links.contains_key(other)
                        <==> learnt.links.contains_key(other)) && after.links[other]
                        == learnt.links[other]
                &&& forall|other: EdgeKey|
                    other != key ==> (#[trigger] after.edge_observations.contains_key(other)
                        <==> learnt.edge_observations.contains_key(other))
                        && after.edge_observations[other] == learnt.edge_observations[other]
                &&& forall|other: NodeId|
                    other != remote_node_id ==> (#[trigger] after.nodes.contains_key(other)
                        <==> learnt.nodes.contains_key(other)) && after.nodes[other]
                        == learnt.nodes[other]
                &&& after.observed_at_tick.0 >= seen.observed_at_tick.0
                &&& after.observed_at_tick == learnt.observed_at_tick || after.observed_at_tick
                    == seen.observed_at_tick
            }
            &&& observation matches ObservationView::PayloadReceived { observed_at_tick, .. } ==> {
                &&& after.nodes == learnt.nodes
                &&& after.links == learnt.links
                &&& after.edge_observations == learnt.edge_observations
                &&& after.observed_at_tick.0 >= observed_at_tick.0
                &&& after.observed_at_tick == learnt.observed_at_tick || after.observed_at_tick
                    == observed_at_tick
            }
        }),
{
}

/// Whatever was learnt is passed on: after an observation the host has the nodes, links and time of
/// the mesh if it had them before, its routes stay, and nothing else of the mesh changes. Where nothing
/// was learnt, nothing changes.
pub proof fn law_host_is_told_of_what_was_learnt(
    projector: ProjectorView,
    observation: ObservationView,
)
    requires
        projector.host.observed.nodes == projector.mesh.value.nodes,
        projector.host.observed.links == links_seen(projector.mesh),
    ensures
        ({
            let after = projector.heard(observation);
            &&& after.learnt() == learn(
                projector.learnt(),
                projector.host.observed.local_node_id,
                observation,
            )
            &&& after.host.observed.nodes == after.mesh.value.nodes
            &&& after.host.observed.links == links_seen(after.mesh)
            &&& after.learnt() != projector.learnt() ==> after.host.observed.observed_at_tick
                == after.mesh.observed_at_tick
            &&& after.learnt() == projector.learnt() ==> after == projector
            &&& after.host.observed.active_routes == projector.host.observed.active_routes
            &&& after.host.observed.local_node_id == projector.host.observed.local_node_id
            &&& after.host.engines == projector.host.engines
            &&& after.mesh == (Observation {
                value: ConfigurationView {
                    nodes: after.mesh.value.nodes,
                    links: after.mesh.value.links,
                    ..projector.mesh.value
                },
                observed_at_tick: after.mesh.observed_at_tick,
                ..projector.mesh
            })
        }),
{
    let after = projector.heard(observation);
    if after.learnt() == projector.learnt() {
        assert(after.mesh.value.nodes == after.learnt().nodes);
        assert(after.mesh.value.links == after.learnt().links);
        assert(after.mesh.observed_at_tick == after.learnt().observed_at_tick);
        assert(after.mesh == projector.mesh);
    }
}

/// Observations are heard one after the other, each on top of the earlier ones, and none is passed
/// over. A change is noticed exactly where an observation makes one: no observations show none, and
/// one more shows a change if an earlier one did or it does itself.
pub proof fn law_observations_are_heard_in_turn(
    projector: ProjectorView,
    observations: Seq<ObservationView>,
    next: ObservationView,
)
    ensures
        projector.heard_all(Seq::empty()) == projector,
        projector.heard_all(observations.push(next)) == projector.heard_all(observations).heard(
            next,
        ),
        !projector.shows_change(Seq::empty()),
        projector.shows_change(observations.push(next)) <==> {
            ||| projector.shows_change(observations)
            ||| projector.heard_all(observations).shown() != projector.heard_all(
                observations,
            ).heard(next).shown()
        },
{
    let more = observations.push(next);
    let done = observations.len() as int;
    assert(more.drop_last() =~= observations);
    assert(more.take(done) =~= observations);
    assert(more.take(done + 1) =~= more);
    projector.lemma_shows_change_step(more, done);
}

/// What is shown is made of the observations of this node and of what the host observed, of nothing
/// else.
pub proof fn law_snapshot_is_what_was_observed(projector: ProjectorView)
    ensures
        projector.shown() == shown_topology(projector.edge_observations, projector.host.observed),
        projector.learnt().nodes == projector.mesh.value.nodes,
        projector.learnt().links == projector.mesh.value.links,
        projector.learnt().observed_at_tick == projector.mesh.observed_at_tick,
        projector.learnt().edge_observations == projector.edge_observations,
{
}

/// Only the very last tick can be too late: payloads, links to known nodes, and links that were
/// observed earlier can all be heard, however many there are.
pub proof fn law_observations_before_the_last_tick_can_be_heard(
    projector: ProjectorView,
    observations: Seq<ObservationView>,
    learnt: LearntTopology,
    observation: ObservationView,
)
    requires
        forall|i: int|
            0 <= i < observations.len() ==> (#[trigger] observations[i] is LinkObserved
                ==> observations[i]->LinkObserved_observation.observed_at_tick.0 < u64::MAX),
    ensures
        projector.can_hear(observations),
        can_learn(learnt, observation) <==> {
            ||| observation is PayloadReceived
            ||| learnt.nodes.contains_key(observation->LinkObserved_remote_node_id)
            ||| observation->LinkObserved_observation.observed_at_tick.0 < u64::MAX
        },
{
}

/// A route of at most one hop over an edge that is shown in any state but failed is delivered directly to
/// its end, whatever the transport of the edge; one that ends at its owner is local, and any other one
/// is reachable.
pub proof fn law_derived_delivery_is_as_direct_as_it_can_be(
    topology: MeshTopology,
    owner_node_id: NodeId,
    terminal_node_id: NodeId,
    hop_count_hint: u8,
    delivery: Option<ActiveRouteDelivery>,
)
    requires
        call_ensures(
            derive_route_delivery,
            (&topology, owner_node_id, terminal_node_id, hop_count_hint),
            delivery,
        ),
    ensures
        delivery is Some,
        ({
            let key = EdgeKey { from_node_id: owner_node_id, to_node_id: terminal_node_id };
            let works = topology.edges@.contains_key(key) && !(
            topology.edges@[key].observation.value.state.state is Faulted);
            &&& delivery->0 is Local <==> owner_node_id == terminal_node_id
            &&& delivery->0 is Direct <==> owner_node_id != terminal_node_id && hop_count_hint <= 1
                && works
            &&& delivery->0 is Direct ==> delivery->0->next_hop_node_id == terminal_node_id
            &&& delivery->0 is Reachable ==> delivery->0->hop_count_hint == if hop_count_hint == 0 {
                1
            } else {
                hop_count_hint
            }
        }),
{
}

/// Observations, routes and engines are taken into account as they come: a link that is heard of is
/// shown, whether what is shown changed is told truly, and a route in use between known nodes is shown.
pub proof fn law_projector_takes_everything_in()
    ensures
        forall|projector: &mut TopologyProjector, observation: TransportObservation, changed: bool|
            #[trigger] call_ensures(
                TopologyProjector::ingest_transport_observation,
                (projector, &observation),
                changed,
            ) ==> {
                &&& changed <==> final(projector).snapshot@ != (*projector).snapshot@
                &&& observation@ matches ObservationView::LinkObserved {
                    remote_node_id,
                    observation: seen,
                } ==> {
                    let shown = final(projector).snapshot@;
                    let key = EdgeKey {
                        from_node_id: shown.local_node_id,
                        to_node_id: remote_node_id,
                    };
                    &&& shown.edges.contains_key(key)
                    &&& shown.edges[key].observation == seen
                    &&& shown.nodes.contains_key(remote_node_id)
                }
                &&& final(projector)@.host.observed.active_routes
                    == (*projector)@.host.observed.active_routes
            },
        forall|projector: &mut TopologyProjector, route: MaterializedRoute, changed: bool|
            #[trigger] call_ensures(
                TopologyProjector::ingest_materialized_route,
                (projector, &route),
                changed,
            ) ==> {
                let named = materialized_named(route);
                &&& changed <==> final(projector).snapshot@ != (*projector).snapshot@
                &&& final(projector)@.mesh == (*projector)@.mesh
                &&& final(projector)@.edge_observations == (*projector)@.edge_observations
                &&& final(projector)@.host.observed.active_routes.contains_key(named.route_id)
                &&& final(projector).snapshot@.active_routes.contains_key(named.route_id) <==> {
                    &&& named.destination is Node
                    &&& (*projector)@.host.observed.nodes.contains_key(named.destination->Node_0)
                    &&& (*projector)@.host.observed.nodes.contains_key(named.owner_node_id)
                }
            },
{
    assert forall|projector: &mut TopologyProjector, route: MaterializedRoute, changed: bool|
        #[trigger] call_ensures(
            TopologyProjector::ingest_materialized_route,
            (projector, &route),
            changed,
        ) implies (final(projector).snapshot@.active_routes.contains_key(
        materialized_named(route).route_id,
    ) <==> {
        let named = materialized_named(route);
        &&& named.destination is Node
        &&& (*projector)@.host.observed.nodes.contains_key(named.destination->Node_0)
        &&& (*projector)@.host.observed.nodes.contains_key(named.owner_node_id)
    }) by {
        law_route_in_use_is_shown(
            (*projector)@.edge_observations,
            (*projector)@.host,
            materialized_named(route),
        );
    }
}

/// The views of a projector tell everything that it holds, item by item.
pub proof fn law_projector_views_tell_every_item(
    observations: Map<EdgeKey, Observation<Link>>,
    heard: Seq<TransportObservation>,
    key: EdgeKey,
    i: int,
)
    requires
        0 <= i < heard.len(),
    ensures
        observation_views(observations).contains_key(key) <==> observations.contains_key(key),
        observations.contains_key(key) ==> observation_views(observations)[key].value
            == observations[key].value@,
        observations.contains_key(key) ==> observation_views(observations)[key].observed_at_tick
            == observations[key].observed_at_tick,
        heard_views(heard).len() == heard.len(),
        heard_views(heard)[i] == heard[i]@,
{
}

} // verus!
