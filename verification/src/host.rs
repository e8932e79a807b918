//! The host's projector: what it is told of the mesh and of routes, and what it observes then.

use crate::bridge::{RouterRoundOutcome, RoutingTickChange, RoutingTickHint};
use crate::endpoint::TransportKind::{
    BleGatt, BleL2cap, Custom, LoraP2p, Quic, TcpRelay, WifiAware, WifiLan,
};
use crate::endpoint::{kind_views, TransportKind, TransportKindView};
use crate::identity::{later_tick, EdgeKey, NodeId, RouteId, RoutingEngineId, Tick};
use crate::link::Belief::{Absent, Estimated};
use crate::link::{Belief, Estimate, Link, LinkView, Observation, RatioPermille};
use crate::node_preset::clone_node;
use crate::ordered_map::{lemma_listed_step, listed, OrderedMap};
use crate::routing::ConfigurationView;
use crate::topology::{DestinationId, DestinationView, RouteShapeVisibility};
use crate::world::{link_named, mesh_named, plain_link};
use jacquard_core::{
    Belief as CoreBelief, Configuration as CoreConfiguration, DestinationId as CoreDestination,
    Link as CoreLink, MaterializedRoute, Node, NodeId as CoreNodeId,
    Observation as CoreObservation, RouteEpoch as CoreEpoch, RouterCanonicalMutation,
    RouterRoundOutcome as CoreOutcome, RoutingEngineCapabilities, RoutingTickChange as CoreChange,
    RoutingTickHint as CoreHint, Tick as CoreTick, TransportKind as CoreKind,
};
use jacquard_host_support::{
    ObservedRoute as HostRoute, ObservedRouteShape as HostShape,
    TopologyProjector as HostTopologyProjector,
};
use vstd::prelude::*;

verus! {

/// A link as the host observed it.
#[derive(Debug)]
pub struct ObservedLink {
    pub link: Link,
    pub observed_at_tick: Tick,
}

/// What an [`ObservedLink`] says.
pub ghost struct ObservedLinkView {
    pub link: LinkView,
    pub observed_at_tick: Tick,
}

impl View for ObservedLink {
    type V = ObservedLinkView;

    open spec fn view(&self) -> ObservedLinkView {
        ObservedLinkView { link: self.link@, observed_at_tick: self.observed_at_tick }
    }
}

/// How much of a route the host sees.
#[derive(Clone, Copy, Debug, PartialEq, Eq, Structural)]
pub enum ObservedRouteShape {
    ExplicitPath,
    CorridorEnvelope,
    NextHopOnly,
    Opaque,
}

/// A route as the host observed it.
#[derive(Debug)]
pub struct ObservedRoute {
    pub route_id: RouteId,
    pub destination: DestinationId,
    pub engine_id: RoutingEngineId,
    pub route_shape: ObservedRouteShape,
    pub hop_count_hint: Belief<u8>,
    /// The node that holds the lease of the route.
    pub owner_node_id: NodeId,
    pub protocol_mix: Vec<TransportKind>,
    pub lifecycle_updated_at_tick: Tick,
    pub last_validated_at_tick: Tick,
}

/// What an [`ObservedRoute`] says.
pub ghost struct ObservedRouteView {
    pub route_id: RouteId,
    pub destination: DestinationView,
    pub engine_id: RoutingEngineId,
    pub route_shape: ObservedRouteShape,
    pub hop_count_hint: Belief<u8>,
    pub owner_node_id: NodeId,
    pub protocol_mix: Seq<TransportKindView>,
    pub lifecycle_updated_at_tick: Tick,
    pub last_validated_at_tick: Tick,
}

impl View for ObservedRoute {
    type V = ObservedRouteView;

    open spec fn view(&self) -> ObservedRouteView {
        ObservedRouteView {
            route_id: self.route_id,
            destination: self.destination@,
            engine_id: self.engine_id,
            route_shape: self.route_shape,
            hop_count_hint: self.hop_count_hint,
            owner_node_id: self.owner_node_id,
            protocol_mix: kind_views(self.protocol_mix@),
            lifecycle_updated_at_tick: self.lifecycle_updated_at_tick,
            last_validated_at_tick: self.last_validated_at_tick,
        }
    }
}

/// What the host observed.
#[derive(Debug)]
pub struct ObservedTopology {
    pub local_node_id: NodeId,
    pub observed_at_tick: Tick,
    pub nodes: OrderedMap<NodeId, Node>,
    pub links: OrderedMap<EdgeKey, ObservedLink>,
    pub active_routes: OrderedMap<RouteId, ObservedRoute>,
}

/// What an [`ObservedTopology`] says.
#[verifier::ext_equal]
pub ghost struct ObservedView {
    pub local_node_id: NodeId,
    pub observed_at_tick: Tick,
    pub nodes: Map<NodeId, Node>,
    pub links: Map<EdgeKey, ObservedLinkView>,
    pub active_routes: Map<RouteId, ObservedRouteView>,
}

impl ObservedView {
    /// Routes are filed under their own identity.
    pub open spec fn wf(self) -> bool {
        forall|id: RouteId| #[trigger]
            self.active_routes.contains_key(id) ==> self.active_routes[id].route_id == id
    }
}

/// What some links that the host observed say.
pub open spec fn observed_link_views(links: Map<EdgeKey, ObservedLink>) -> Map<
    EdgeKey,
    ObservedLinkView,
> {
    links.map_values(|link: ObservedLink| link@)
}

/// What some routes that the host observed say.
pub open spec fn observed_route_views(routes: Map<RouteId, ObservedRoute>) -> Map<
    RouteId,
    ObservedRouteView,
> {
    routes.map_values(|route: ObservedRoute| route@)
}

impl View for ObservedTopology {
    type V = ObservedView;

    open spec fn view(&self) -> ObservedView {
        ObservedView {
            local_node_id: self.local_node_id,
            observed_at_tick: self.observed_at_tick,
            nodes: self.nodes@,
            links: observed_link_views(self.links@),
            active_routes: observed_route_views(self.active_routes@),
        }
    }
}

impl ObservedTopology {
    /// The maps are proper maps, and routes are filed under their own identity.
    pub open spec fn wf(&self) -> bool {
        &&& self.nodes.wf()
        &&& self.links.wf()
        &&& self.active_routes.wf()
        &&& self@.wf()
    }
}

/// `jacquard_host_support::TopologyProjector`.
#[verifier::external_type_specification]
#[verifier::external_body]
pub struct ExHostTopologyProjector(HostTopologyProjector);

/// `jacquard_host_support::ObservedRoute`.
#[verifier::external_type_specification]
#[verifier::external_body]
pub struct ExObservedRoute(HostRoute);

/// `jacquard_core::MaterializedRoute`.
#[verifier::external_type_specification]
#[verifier::external_body]
pub struct ExMaterializedRoute(MaterializedRoute);

/// `jacquard_core::RoutingEngineCapabilities`.
#[verifier::external_type_specification]
#[verifier::external_body]
pub struct ExRoutingEngineCapabilities(RoutingEngineCapabilities);

/// What the host's projector holds: what it observed, and how much of a route each engine that it
/// knows shows.
#[verifier::ext_equal]
pub ghost struct HostView {
    pub observed: ObservedView,
    pub engines: Map<RoutingEngineId, RouteShapeVisibility>,
}

/// A route that was taken into use.
pub ghost struct MaterializedView {
    pub route_id: RouteId,
    pub destination: DestinationView,
    pub engine_id: RoutingEngineId,
    pub hop_count_hint: Belief<u8>,
    pub owner_node_id: NodeId,
    pub protocol_mix: Seq<TransportKindView>,
    pub last_validated_at_tick: Tick,
    pub materialized_at_tick: Tick,
}

/// What a round did to the routes.
pub ghost enum MutationView {
    Nothing,
    RouteReplaced { previous_route_id: RouteId, route: MaterializedView },
    LeaseTransferred { route_id: RouteId, owner_node_id: NodeId },
    RouteExpired { route_id: RouteId },
}

/// What a `jacquard_host_support::TopologyProjector` holds: its snapshot, and the route shape
/// visibility of the engine capabilities that it was told of.
pub uninterp spec fn host_view(host: HostTopologyProjector) -> HostView;

/// What a `jacquard_host_support::ObservedRoute` holds of what is read here: identity, destination,
/// engine, shape, hop count, the owner of its lease, transports, and the times at which its lifecycle
/// changed and its health was validated.
pub uninterp spec fn route_named(route: HostRoute) -> ObservedRouteView;

/// What a `jacquard_core::MaterializedRoute` holds of what the host's projector shows of it: the
/// identity and time of its stamp, the owner of its lease, the destination of its objective, the
/// engine, hop count and transports of its summary, and the time at which its health was validated.
pub uninterp spec fn materialized_named(route: MaterializedRoute) -> MaterializedView;

/// The engine of `jacquard_core::RoutingEngineCapabilities`, and how much of a route it shows.
pub uninterp spec fn capabilities_named(capabilities: RoutingEngineCapabilities) -> (
    RoutingEngineId,
    RouteShapeVisibility,
);

/// What a `jacquard_core::RouterCanonicalMutation` says.
pub uninterp spec fn mutation_named(mutation: RouterCanonicalMutation) -> MutationView;

/// How much of a route the host sees of an engine that shows this much.
pub open spec fn shape_seen(visibility: RouteShapeVisibility) -> ObservedRouteShape {
    match visibility {
        RouteShapeVisibility::ExplicitPath => ObservedRouteShape::ExplicitPath,
        RouteShapeVisibility::CorridorEnvelope => ObservedRouteShape::CorridorEnvelope,
        RouteShapeVisibility::NextHopOnly => ObservedRouteShape::NextHopOnly,
        RouteShapeVisibility::Opaque => ObservedRouteShape::Opaque,
    }
}

/// The links of a mesh, each as observed when the mesh was.
pub open spec fn links_seen(mesh: Observation<ConfigurationView>) -> Map<
    EdgeKey,
    ObservedLinkView,
> {
    mesh.value.links.map_values(
        |link: LinkView| ObservedLinkView { link, observed_at_tick: mesh.observed_at_tick },
    )
}

impl HostView {
    /// A host that was told of a mesh and of nothing else.
    pub open spec fn fresh(
        local_node_id: NodeId,
        mesh: Observation<ConfigurationView>,
    ) -> HostView {
        HostView {
            observed: ObservedView {
                local_node_id,
                observed_at_tick: mesh.observed_at_tick,
                nodes: mesh.value.nodes,
                links: links_seen(mesh),
                active_routes: Map::empty(),
            },
            engines: Map::empty(),
        }
    }

    /// The host once it was told of a mesh: its nodes and links are those of the mesh, at the time
    /// of the mesh, and its routes stay.
    pub open spec fn told_mesh(self, mesh: Observation<ConfigurationView>) -> HostView {
        HostView {
            observed: ObservedView {
                observed_at_tick: mesh.observed_at_tick,
                nodes: mesh.value.nodes,
                links: links_seen(mesh),
                ..self.observed
            },
            ..self
        }
    }

    /// The host once it was told how much an engine shows: the routes of the engine take that shape.
    pub open spec fn told_engine(
        self,
        engine_id: RoutingEngineId,
        visibility: RouteShapeVisibility,
    ) -> HostView {
        HostView {
            observed: ObservedView {
                active_routes: self.observed.active_routes.map_values(
                    |route: ObservedRouteView|
                        if route.engine_id == engine_id {
                            ObservedRouteView { route_shape: shape_seen(visibility), ..route }
                        } else {
                            route
                        },
                ),
                ..self.observed
            },
            engines: self.engines.insert(engine_id, visibility),
        }
    }

    /// A route as the host observes it: of an engine that is not known it sees nothing.
    pub open spec fn projected(self, route: MaterializedView) -> ObservedRouteView {
        ObservedRouteView {
            route_id: route.route_id,
            destination: route.destination,
            engine_id: route.engine_id,
            route_shape: if self.engines.contains_key(route.engine_id) {
                shape_seen(self.engines[route.engine_id])
            } else {
                ObservedRouteShape::Opaque
            },
            hop_count_hint: route.hop_count_hint,
            owner_node_id: route.owner_node_id,
            protocol_mix: route.protocol_mix,
            lifecycle_updated_at_tick: route.materialized_at_tick,
            last_validated_at_tick: route.last_validated_at_tick,
        }
    }

    /// The host once it was told of a route that was taken into use. Time does not run backwards.
    pub open spec fn told_route(self, route: MaterializedView) -> HostView {
        HostView {
            observed: ObservedView {
                observed_at_tick: later_tick(
                    self.observed.observed_at_tick,
                    route.materialized_at_tick,
                ),
                active_routes: self.observed.active_routes.insert(
                    route.route_id,
                    self.projected(route),
                ),
                ..self.observed
            },
            ..self
        }
    }

    /// The host without a route.
    pub open spec fn without_route(self, route_id: RouteId) -> HostView {
        HostView {
            observed: ObservedView {
                active_routes: self.observed.active_routes.remove(route_id),
                ..self.observed
            },
            ..self
        }
    }

    /// The host once it was told what a round did to the routes.
    pub open spec fn told_mutation(self, mutation: MutationView) -> HostView {
        match mutation {
            MutationView::Nothing => self,
            MutationView::RouteReplaced { previous_route_id, route } => self.without_route(
                previous_route_id,
            ).told_route(route),
            MutationView::LeaseTransferred {
                route_id,
                owner_node_id,
            } => if self.observed.active_routes.contains_key(route_id) {
                HostView {
                    observed: ObservedView {
                        active_routes: self.observed.active_routes.insert(
                            route_id,
                            ObservedRouteView {
                                owner_node_id,
                                ..self.observed.active_routes[route_id]
                            },
                        ),
                        ..self.observed
                    },
                    ..self
                }
            } else {
                self
            },
            MutationView::RouteExpired { route_id } => self.without_route(route_id),
        }
    }
}

/// `TopologyProjector::new` of `jacquard_host_support`: a projector that was told of a mesh, and of no
/// engine and no route.
#[verifier::external_body]
pub(crate) fn new_host(
    local_node_id: NodeId,
    mesh: CoreObservation<CoreConfiguration>,
) -> (host: HostTopologyProjector)
    ensures
        host_view(host) == HostView::fresh(local_node_id, mesh_named(mesh)),
{
    HostTopologyProjector::new(CoreNodeId(local_node_id.0), mesh)
}

/// `TopologyProjector::ingest_topology` of `jacquard_host_support`: time, nodes and links become those
/// of the mesh; routes and engines stay.
#[verifier::external_body]
pub(crate) fn host_ingest_topology(
    host: &mut HostTopologyProjector,
    mesh: CoreObservation<CoreConfiguration>,
)
    ensures
        host_view(*final(host)) == host_view(*old(host)).told_mesh(mesh_named(mesh)),
{
    host.ingest_topology(mesh);
}

/// `TopologyProjector::ingest_engine_capabilities` of `jacquard_host_support`: the engine is known from
/// now on, and its routes take the shape that it shows.
#[verifier::external_body]
pub(crate) fn host_ingest_engine_capabilities(
    host: &mut HostTopologyProjector,
    capabilities: RoutingEngineCapabilities,
)
    ensures
        host_view(*final(host)) == host_view(*old(host)).told_engine(
            capabilities_named(capabilities).0,
            capabilities_named(capabilities).1,
        ),
{
    host.ingest_engine_capabilities(capabilities);
}

/// `TopologyProjector::ingest_materialized_route` of `jacquard_host_support`: the route is filed under
/// its identity, in the shape that its engine shows, and time moves on to when it was materialized.
#[verifier::external_body]
pub(crate) fn host_ingest_materialized_route(
    host: &mut HostTopologyProjector,
    route: &MaterializedRoute,
)
    ensures
        host_view(*final(host)) == host_view(*old(host)).told_route(materialized_named(*route)),
{
    host.ingest_materialized_route(route);
}

/// `TopologyProjector::ingest_round_outcome` of `jacquard_host_support`: a route is replaced, changes
/// its owner or goes, as the mutation says; nothing else of the outcome counts.
#[verifier::external_body]
pub(crate) fn host_ingest_round_outcome(
    host: &mut HostTopologyProjector,
    outcome: &RouterRoundOutcome,
)
    ensures
        host_view(*final(host)) == host_view(*old(host)).told_mutation(
            mutation_named(outcome.canonical_mutation),
        ),
{
    let engine_change = match outcome.engine_change {
        RoutingTickChange::NoChange => CoreChange::NoChange,
        RoutingTickChange::PrivateStateUpdated => CoreChange::PrivateStateUpdated,
    };
    let next_round_hint = match outcome.next_round_hint {
        RoutingTickHint::HostDefault => CoreHint::HostDefault,
        RoutingTickHint::Immediate => CoreHint::Immediate,
        RoutingTickHint::WithinTicks(ticks) => CoreHint::WithinTicks(CoreTick(ticks.0)),
    };
    let topology_epoch = CoreEpoch(outcome.topology_epoch);
    let canonical_mutation = outcome.canonical_mutation.clone();
    host.ingest_round_outcome(&CoreOutcome { topology_epoch, engine_change, next_round_hint, canonical_mutation });
}

/// `TopologyProjector::snapshot` of `jacquard_host_support`: the local node and the time.
#[verifier::external_body]
fn host_position(host: &HostTopologyProjector) -> (position: (NodeId, Tick))
    ensures
        position.0 == host_view(*host).observed.local_node_id,
        position.1 == host_view(*host).observed.observed_at_tick,
{
    let snapshot = host.snapshot();
    (NodeId(snapshot.local_node_id.0), Tick(snapshot.observed_at_tick.0))
}

/// `TopologyProjector::snapshot` of `jacquard_host_support`: the nodes, each once.
#[verifier::external_body]
fn host_nodes(host: &HostTopologyProjector) -> (nodes: Vec<(NodeId, Node)>)
    ensures
        listed(nodes@) == host_view(*host).observed.nodes,
{
    let nodes = host.snapshot().nodes.clone().into_iter();
    nodes
        .map(|(id, node)| {
            let (controller_id, profile, state) = (node.controller_id, node.profile, node.state);
            (NodeId(id.0), Node { controller_id, profile, state })
        })
        .collect()
}

/// What some links hold that came out of the host's projector.
pub open spec fn named_observed_links(links: Map<EdgeKey, (CoreLink, Tick)>) -> Map<
    EdgeKey,
    ObservedLinkView,
> {
    links.map_values(
        |link: (CoreLink, Tick)|
            ObservedLinkView { link: link_named(link.0), observed_at_tick: link.1 },
    )
}

/// `TopologyProjector::snapshot` of `jacquard_host_support`: the links, each once, with the time at which
/// each was observed.
#[verifier::external_body]
fn host_links(host: &HostTopologyProjector) -> (links: Vec<(EdgeKey, (CoreLink, Tick))>)
    ensures
        named_observed_links(listed(links@)) == host_view(*host).observed.links,
{
    let links = host.snapshot().links.clone().into_iter();
    links
        .map(|((from, to), link)| {
            let key = EdgeKey { from_node_id: NodeId(from.0), to_node_id: NodeId(to.0) };
            let (endpoint, profile, state) = (link.endpoint, link.profile, link.state);
            (key, (CoreLink { endpoint, profile, state }, Tick(link.observed_at_tick.0)))
        })
        .collect()
}

/// What some routes hold that came out of the host's projector.
pub open spec fn named_routes(routes: Map<RouteId, HostRoute>) -> Map<RouteId, ObservedRouteView> {
    routes.map_values(|route: HostRoute| route_named(route))
}

/// `TopologyProjector::snapshot` of `jacquard_host_support`: the routes, each once.
#[verifier::external_body]
fn host_routes(host: &HostTopologyProjector) -> (routes: Vec<(RouteId, HostRoute)>)
    ensures
        named_routes(listed(routes@)) == host_view(*host).observed.active_routes,
{
    let routes = host.snapshot().active_routes.clone().into_iter();
    routes.map(|(id, route)| (RouteId(id.0), route)).collect()
}

/// The identity, engine and owner of a `jacquard_host_support::ObservedRoute`, and its two times.
#[verifier::external_body]
fn route_stamp(route: &HostRoute) -> (stamp: (RouteId, RoutingEngineId, NodeId, Tick, Tick))
    ensures
        stamp.0 == route_named(*route).route_id,
        stamp.1 == route_named(*route).engine_id,
        stamp.2 == route_named(*route).owner_node_id,
        stamp.3 == route_named(*route).lifecycle_updated_at_tick,
        stamp.4 == route_named(*route).last_validated_at_tick,
{
    (
        RouteId(route.route_id.0),
        RoutingEngineId(route.engine_id.contract_id.0),
        NodeId(route.lease.owner_node_id.0),
        Tick(route.lifecycle_updated_at_tick.0),
        Tick(route.health.last_validated_at_tick.0),
    )
}

/// The shape of a `jacquard_host_support::ObservedRoute` and its hop count.
#[verifier::external_body]
fn route_form(route: &HostRoute) -> (form: (ObservedRouteShape, Belief<u8>))
    ensures
        form.0 == route_named(*route).route_shape,
        form.1 == route_named(*route).hop_count_hint,
{
    let shape = match route.route_shape {
        HostShape::ExplicitPath => ObservedRouteShape::ExplicitPath,
        HostShape::CorridorEnvelope => ObservedRouteShape::CorridorEnvelope,
        HostShape::NextHopOnly => ObservedRouteShape::NextHopOnly,
        HostShape::Opaque => ObservedRouteShape::Opaque,
    };
    let hint = match route.hop_count_hint {
        CoreBelief::Absent => Absent,
        CoreBelief::Estimated(e) => Estimated(Estimate { value: e.value, confidence_permille: RatioPermille(e.confidence_permille.0), updated_at_tick: Tick(e.updated_at_tick.0) }),
    };
    (shape, hint)
}

/// The destination of a `jacquard_host_support::ObservedRoute` and its transports.
#[verifier::external_body]
fn route_reach(route: &HostRoute) -> (reach: (DestinationId, Vec<TransportKind>))
    ensures
        reach.0@ == route_named(*route).destination,
        kind_views(reach.1@) == route_named(*route).protocol_mix,
{
    let destination = match route.destination.clone() {
        CoreDestination::Node(id) => DestinationId::Node(NodeId(id.0)),
        CoreDestination::Service(id) => DestinationId::Service(id.0),
        CoreDestination::Gateway(id) => DestinationId::Gateway(id.0),
    };
    let kinds = route.protocol_mix.iter().map(|kind| match kind {
        CoreKind::BleGatt => BleGatt, CoreKind::BleL2cap => BleL2cap, CoreKind::Quic => Quic,
        CoreKind::WifiAware => WifiAware, CoreKind::WifiLan => WifiLan, CoreKind::LoraP2p => LoraP2p,
        CoreKind::TcpRelay => TcpRelay, CoreKind::Custom(name) => Custom(name.clone()),
    });
    (destination, kinds.collect())
}

/// A route out of the host's own type.
fn plain_route(route: &HostRoute) -> (plain: ObservedRoute)
    ensures
        plain@ == route_named(*route),
{
    let stamp = route_stamp(route);
    let (route_shape, hop_count_hint) = route_form(route);
    let (destination, protocol_mix) = route_reach(route);
    ObservedRoute {
        route_id: stamp.0,
        destination,
        engine_id: stamp.1,
        route_shape,
        hop_count_hint,
        owner_node_id: stamp.2,
        protocol_mix,
        lifecycle_updated_at_tick: stamp.3,
        last_validated_at_tick: stamp.4,
    }
}

/// What the host's projector observed, in plain values.
pub(crate) fn host_observed(host: &HostTopologyProjector) -> (observed: ObservedTopology)
    requires
        host_view(*host).observed.wf(),
    ensures
        observed.wf(),
        observed@ == host_view(*host).observed,
{
    let (local_node_id, observed_at_tick) = host_position(host);
    let told_nodes = host_nodes(host);
    let mut nodes: OrderedMap<NodeId, Node> = OrderedMap::new();
    let mut i: usize = 0;
    assert(nodes@ =~= listed(told_nodes@.take(0)));
    while i < told_nodes.len()
        invariant
            nodes.wf(),
            i <= told_nodes@.len(),
            nodes@ == listed(told_nodes@.take(i as int)),
        decreases told_nodes@.len() - i,
    {
        proof {
            lemma_listed_step(told_nodes@, i as int);
        }
        let _ = nodes.insert(told_nodes[i].0, clone_node(&told_nodes[i].1));
        i = i + 1;
    }
    assert(told_nodes@.take(i as int) =~= told_nodes@);
    let told_links = host_links(host);
    let mut links: OrderedMap<EdgeKey, ObservedLink> = OrderedMap::new();
    let mut j: usize = 0;
    assert(observed_link_views(links@) =~= named_observed_links(listed(told_links@.take(0))));
    while j < told_links.len()
        invariant
            links.wf(),
            j <= told_links@.len(),
            observed_link_views(links@) == named_observed_links(
                listed(told_links@.take(j as int)),
            ),
        decreases told_links@.len() - j,
    {
        let ghost before = links@;
        let key = told_links[j].0;
        let link = ObservedLink {
            link: plain_link(&told_links[j].1.0),
            observed_at_tick: told_links[j].1.1,
        };
        let ghost seen = link;
        let _ = links.insert(key, link);
        proof {
            lemma_listed_step(told_links@, j as int);
            let listed_before = listed(told_links@.take(j as int));
            assert(observed_link_views(links@) =~= observed_link_views(before).insert(key, seen@));
            assert(named_observed_links(listed_before.insert(key, told_links@[j as int].1))
                =~= named_observed_links(listed_before).insert(key, seen@));
        }
        j = j + 1;
    }
    assert(told_links@.take(j as int) =~= told_links@);
    let told_routes = host_routes(host);
    let mut active_routes: OrderedMap<RouteId, ObservedRoute> = OrderedMap::new();
    let mut k: usize = 0;
    assert(observed_route_views(active_routes@) =~= named_routes(listed(told_routes@.take(0))));
    while k < told_routes.len()
        invariant
            active_routes.wf(),
            k <= told_routes@.len(),
            observed_route_views(active_routes@) == named_routes(
                listed(told_routes@.take(k as int)),
            ),
        decreases told_routes@.len() - k,
    {
        let ghost before = active_routes@;
        let id = told_routes[k].0;
        let route = plain_route(&told_routes[k].1);
        let ghost seen = route;
        let _ = active_routes.insert(id, route);
        proof {
            lemma_listed_step(told_routes@, k as int);
            let listed_before = listed(told_routes@.take(k as int));
            assert(observed_route_views(active_routes@) =~= observed_route_views(before).insert(
                id,
                seen@,
            ));
            assert(named_routes(listed_before.insert(id, told_routes@[k as int].1))
                =~= named_routes(listed_before).insert(id, seen@));
        }
        k = k + 1;
    }
    assert(told_routes@.take(k as int) =~= told_routes@);
    ObservedTopology { local_node_id, observed_at_tick, nodes, links, active_routes }
}

/// A host that is told of a mesh has the nodes, the links and the time of that mesh, every link as of
/// that time, and keeps its routes and what it knows of engines.
pub proof fn law_told_mesh_replaces_nodes_and_links(
    host: HostView,
    mesh: Observation<ConfigurationView>,
)
    ensures
        ({
            let after = host.told_mesh(mesh);
            &&& after.observed.nodes == mesh.value.nodes
            &&& forall|key: EdgeKey| #[trigger]
                after.observed.links.contains_key(key) <==> mesh.value.links.contains_key(key)
            &&& forall|key: EdgeKey| #[trigger]
                after.observed.links.contains_key(key) ==> after.observed.links[key].link
                    == mesh.value.links[key] && after.observed.links[key].observed_at_tick
                    == mesh.observed_at_tick
            &&& after.observed.observed_at_tick == mesh.observed_at_tick
            &&& after.observed.active_routes == host.observed.active_routes
            &&& after.observed.local_node_id == host.observed.local_node_id
            &&& after.engines == host.engines
        }),
{
}

/// What an engine shows decides the shape of its routes, of those that are known and of those to come,
/// and of no others; the routes of an engine that was not heard of are opaque.
pub proof fn law_engines_decide_the_shape_of_their_routes(
    host: HostView,
    engine_id: RoutingEngineId,
    visibility: RouteShapeVisibility,
    route: MaterializedView,
    id: RouteId,
)
    ensures
        ({
            let after = host.told_engine(engine_id, visibility);
            &&& after.observed.active_routes.contains_key(id)
                <==> host.observed.active_routes.contains_key(id)
            &&& host.observed.active_routes.contains_key(id) ==> after.observed.active_routes[id]
                == (ObservedRouteView {
                route_shape: if host.observed.active_routes[id].engine_id == engine_id {
                    shape_seen(visibility)
                } else {
                    host.observed.active_routes[id].route_shape
                },
                ..host.observed.active_routes[id]
            })
            &&& route.engine_id == engine_id ==> after.projected(route).route_shape == shape_seen(
                visibility,
            )
            &&& !host.engines.contains_key(route.engine_id) ==> host.projected(route).route_shape
                is Opaque
            &&& shape_seen(visibility) is ExplicitPath <==> visibility is ExplicitPath
            &&& shape_seen(visibility) is CorridorEnvelope <==> visibility is CorridorEnvelope
            &&& shape_seen(visibility) is NextHopOnly <==> visibility is NextHopOnly
            &&& shape_seen(visibility) is Opaque <==> visibility is Opaque
        }),
{
}

/// A route that is taken into use is filed under its identity with what was told of it; a replaced or
/// expired route is gone, a transferred lease changes the owner of its route alone, and no other route
/// is touched by any of these.
pub proof fn law_mutations_touch_their_route_alone(
    host: HostView,
    route: MaterializedView,
    route_id: RouteId,
    owner_node_id: NodeId,
    other: RouteId,
)
    requires
        other != route_id,
        other != route.route_id,
    ensures
        ({
            let routes = host.observed.active_routes;
            let used = host.told_route(route).observed.active_routes;
            let replaced = host.told_mutation(
                MutationView::RouteReplaced { previous_route_id: route_id, route },
            ).observed.active_routes;
            let transferred = host.told_mutation(
                MutationView::LeaseTransferred { route_id, owner_node_id },
            ).observed.active_routes;
            let expired = host.told_mutation(
                MutationView::RouteExpired { route_id },
            ).observed.active_routes;
            &&& host.told_mutation(MutationView::Nothing) == host
            &&& used.contains_key(route.route_id)
            &&& used[route.route_id].destination == route.destination
            &&& used[route.route_id].owner_node_id == route.owner_node_id
            &&& used[route.route_id].hop_count_hint == route.hop_count_hint
            &&& used[route.route_id].protocol_mix == route.protocol_mix
            &&& replaced.contains_key(route.route_id)
            &&& route_id != route.route_id ==> !replaced.contains_key(route_id)
            &&& transferred.contains_key(route_id) <==> routes.contains_key(route_id)
            &&& routes.contains_key(route_id) ==> transferred[route_id] == (ObservedRouteView {
                owner_node_id,
                ..routes[route_id]
            })
            &&& !expired.contains_key(route_id)
            &&& used.contains_key(other) <==> routes.contains_key(other)
            &&& replaced.contains_key(other) <==> routes.contains_key(other)
            &&& transferred.contains_key(other) <==> routes.contains_key(other)
            &&& expired.contains_key(other) <==> routes.contains_key(other)
            &&& routes.contains_key(other) ==> used[other] == routes[other] && replaced[other]
                == routes[other] && transferred[other] == routes[other] && expired[other]
                == routes[other]
        }),
{
}

} // verus!
