//! What the router of a BLE client starts from, and what is asked of it.

use crate::endpoint::{
    ByteCount, EndpointLocator, EndpointLocatorView, LinkEndpoint, LinkEndpointView, TransportKind,
    TransportKindView,
};
use crate::gatt::GATT_MTU_BYTES;
use crate::identity::{bytes_to_vec, ControllerId, EdgeKey, NodeId, Tick};
use crate::link::{
    DurationMs, FactSourceClass, Link, LinkView, Observation, OriginAuthenticationClass, RatioPermille,
    RoutingEvidenceClass,
};
use crate::node_preset::{clone_node, preset_node, preset_node_of};
use crate::ordered_map::OrderedMap;
use crate::world::core_endpoint;
use jacquard_core::Node;
use vstd::prelude::*;

verus! {

/// What surrounds a node.
#[derive(Clone, Copy, Debug, PartialEq, Eq, Structural)]
pub struct Environment {
    pub reachable_neighbor_count: u32,
    pub churn_permille: RatioPermille,
    pub contention_permille: RatioPermille,
}

/// What the router knows of the mesh.
#[derive(Debug)]
pub struct Configuration {
    pub epoch: u64,
    pub nodes: OrderedMap<NodeId, Node>,
    pub links: OrderedMap<EdgeKey, Link>,
    pub environment: Environment,
}

impl Configuration {
    pub open spec fn wf(&self) -> bool {
        self.nodes.wf() && self.links.wf()
    }
}

/// What some links say.
pub open spec fn link_views(links: Map<EdgeKey, Link>) -> Map<EdgeKey, LinkView> {
    Map::new(|key: EdgeKey| links.contains_key(key), |key: EdgeKey| links[key]@)
}

/// What a [`Configuration`] says.
#[verifier::ext_equal]
pub ghost struct ConfigurationView {
    pub epoch: u64,
    pub nodes: Map<NodeId, Node>,
    pub links: Map<EdgeKey, LinkView>,
    pub environment: Environment,
}

impl View for Configuration {
    type V = ConfigurationView;

    open spec fn view(&self) -> ConfigurationView {
        ConfigurationView {
            epoch: self.epoch,
            nodes: self.nodes@,
            links: link_views(self.links@),
            environment: self.environment,
        }
    }
}

/// What an observation of a mesh says.
pub open spec fn mesh_view(topology: Observation<Configuration>) -> Observation<ConfigurationView> {
    observed_alike(topology, topology.value@)
}

/// A BLE node that can carry routes. It is its own controller.
pub open spec fn route_capable_node(
    node_id: NodeId,
    endpoint: LinkEndpointView,
    observed_at_tick: Tick,
) -> Node {
    preset_node_of(node_id, ControllerId(node_id.0), endpoint, observed_at_tick)
}

/// Describes a BLE node that can carry routes, as of a time that is not the last one.
pub fn ble_node(node_id: NodeId, endpoint: LinkEndpoint, observed_at_tick: Tick) -> (node: Node)
    requires
        observed_at_tick.0 < u64::MAX,
    ensures
        node == route_capable_node(node_id, endpoint@, observed_at_tick),
{
    preset_node(node_id, ControllerId(node_id.0), core_endpoint(endpoint), observed_at_tick)
}

/// The place at which a node offers its services to the router.
pub open spec fn service_place(node_id: NodeId) -> LinkEndpointView {
    LinkEndpointView {
        transport_kind: TransportKindView::BleGatt,
        locator: EndpointLocatorView::Opaque(node_id.0@),
        mtu_bytes: ByteCount(GATT_MTU_BYTES),
    }
}

/// The endpoint under which a node offers its services to the router.
pub fn service_endpoint(node_id: NodeId) -> (endpoint: LinkEndpoint)
    ensures
        endpoint@ == service_place(node_id),
{
    LinkEndpoint::new(
        TransportKind::BleGatt,
        EndpointLocator::Opaque(bytes_to_vec(node_id.0.as_slice())),
        ByteCount(GATT_MTU_BYTES),
    )
}

/// The mesh before anything was heard: the local node alone.
pub fn initial_topology(local_node_id: NodeId, observed_at_tick: Tick) -> (topology: Observation<
    Configuration,
>)
    requires
        observed_at_tick.0 < u64::MAX,
    ensures
        topology.value.wf(),
        topology.value.epoch == 1,
        topology.value.nodes@ == Map::<NodeId, Node>::empty().insert(
            local_node_id,
            route_capable_node(local_node_id, service_place(local_node_id), observed_at_tick),
        ),
        topology.value.links@ == Map::<EdgeKey, Link>::empty(),
        topology.value.environment == (Environment {
            reachable_neighbor_count: 0,
            churn_permille: RatioPermille(0),
            contention_permille: RatioPermille(0),
        }),
        topology.source_class == FactSourceClass::Local,
        topology.evidence_class == RoutingEvidenceClass::DirectObservation,
        topology.origin_authentication == OriginAuthenticationClass::Controlled,
        topology.observed_at_tick == observed_at_tick,
{
    let mut nodes: OrderedMap<NodeId, Node> = OrderedMap::new();
    let node = ble_node(local_node_id, service_endpoint(local_node_id), observed_at_tick);
    let _ = nodes.insert(local_node_id, node);
    Observation {
        value: Configuration {
            epoch: 1,
            nodes,
            links: OrderedMap::new(),
            environment: Environment {
                reachable_neighbor_count: 0,
                churn_permille: RatioPermille(0),
                contention_permille: RatioPermille(0),
            },
        },
        source_class: FactSourceClass::Local,
        evidence_class: RoutingEvidenceClass::DirectObservation,
        origin_authentication: OriginAuthenticationClass::Controlled,
        observed_at_tick,
    }
}

/// How sure a router may be of identities.
#[derive(Clone, Copy, Debug, PartialEq, Eq, Structural)]
pub enum IdentityAssuranceClass {
    WeakObserved,
    ControllerBound,
    Sponsored,
    ExternallyAttested,
}

/// What routing policy is computed from.
#[derive(Debug)]
pub struct RoutingPolicyInputs {
    pub local_node: Observation<Node>,
    pub local_environment: Observation<Environment>,
    pub routing_engine_count: u32,
    pub median_rtt_ms: DurationMs,
    pub loss_permille: RatioPermille,
    pub partition_risk_permille: RatioPermille,
    pub adversary_pressure_permille: RatioPermille,
    pub identity_assurance: IdentityAssuranceClass,
    pub direct_reachability_score: u32,
}

/// Something else that was observed in the same way at the same time.
pub open spec fn observed_alike<T, U>(seen: Observation<T>, value: U) -> Observation<U> {
    Observation {
        value,
        source_class: seen.source_class,
        evidence_class: seen.evidence_class,
        origin_authentication: seen.origin_authentication,
        observed_at_tick: seen.observed_at_tick,
    }
}

/// The inputs of routing policy for a node of a topology.
pub fn policy_inputs_for(topology: &Observation<Configuration>, local_node_id: NodeId) -> (inputs:
    RoutingPolicyInputs)
    requires
        topology.value.wf(),
        topology.value.nodes@.contains_key(local_node_id),
    ensures
        inputs.local_node == observed_alike(*topology, topology.value.nodes@[local_node_id]),
        inputs.local_environment == observed_alike(*topology, topology.value.environment),
        inputs.routing_engine_count == 1,
        inputs.median_rtt_ms.0 == 40,
        inputs.loss_permille.0 == 50,
        inputs.partition_risk_permille.0 == 150,
        inputs.adversary_pressure_permille.0 == 25,
        inputs.identity_assurance == IdentityAssuranceClass::ControllerBound,
        inputs.direct_reachability_score == 900,
{
    let node = clone_node(topology.value.nodes.get(&local_node_id).unwrap());
    RoutingPolicyInputs {
        local_node: Observation {
            value: node,
            source_class: topology.source_class,
            evidence_class: topology.evidence_class,
            origin_authentication: topology.origin_authentication,
            observed_at_tick: topology.observed_at_tick,
        },
        local_environment: Observation {
            value: topology.value.environment,
            source_class: topology.source_class,
            evidence_class: topology.evidence_class,
            origin_authentication: topology.origin_authentication,
            observed_at_tick: topology.observed_at_tick,
        },
        routing_engine_count: 1,
        median_rtt_ms: DurationMs(40),
        loss_permille: RatioPermille(50),
        partition_risk_permille: RatioPermille(150),
        adversary_pressure_permille: RatioPermille(25),
        identity_assurance: IdentityAssuranceClass::ControllerBound,
        direct_reachability_score: 900,
    }
}

/// What a route protects.
#[derive(Clone, Copy, Debug, PartialEq, Eq, Structural)]
pub enum RouteProtectionClass {
    Unprotected,
    LinkProtected,
    TopologyProtected,
}

/// Whether a route is repaired.
#[derive(Clone, Copy, Debug, PartialEq, Eq, Structural)]
pub enum RouteRepairClass {
    BestEffort,
    Repairable,
}

/// Whether a route outlives a partition.
#[derive(Clone, Copy, Debug, PartialEq, Eq, Structural)]
pub enum RoutePartitionClass {
    ConnectedOnly,
    PartitionTolerant,
}

/// What a route is to withstand.
#[derive(Clone, Copy, Debug, PartialEq, Eq, Structural)]
pub struct ConnectivityPosture {
    pub repair: RouteRepairClass,
    pub partition: RoutePartitionClass,
}

/// The kind of deployment.
#[derive(Clone, Copy, Debug, PartialEq, Eq, Structural)]
pub enum OperatingMode {
    SparseLowPower,
    DenseInteractive,
    FieldPartitionTolerant,
    RelayAdversarial,
}

/// The parameters under which every engine routes.
#[derive(Clone, Copy, Debug, PartialEq, Eq, Structural)]
pub struct SelectedRoutingParameters {
    pub selected_protection: RouteProtectionClass,
    pub selected_connectivity: ConnectivityPosture,
    pub deployment_profile: OperatingMode,
    pub diversity_floor: u8,
    pub engine_fallback_allowed: bool,
    pub route_replacement_allowed: bool,
}

/// Links are protected and routes are repaired, as long as the mesh is connected.
pub open spec fn ble_connectivity() -> ConnectivityPosture {
    ConnectivityPosture {
        repair: RouteRepairClass::Repairable,
        partition: RoutePartitionClass::ConnectedOnly,
    }
}

/// The parameters of a BLE client.
pub fn default_profile() -> (profile: SelectedRoutingParameters)
    ensures
        profile == (SelectedRoutingParameters {
            selected_protection: RouteProtectionClass::LinkProtected,
            selected_connectivity: ble_connectivity(),
            deployment_profile: OperatingMode::DenseInteractive,
            diversity_floor: 1,
            engine_fallback_allowed: false,
            route_replacement_allowed: true,
        }),
{
    SelectedRoutingParameters {
        selected_protection: RouteProtectionClass::LinkProtected,
        selected_connectivity: ConnectivityPosture {
            repair: RouteRepairClass::Repairable,
            partition: RoutePartitionClass::ConnectedOnly,
        },
        deployment_profile: OperatingMode::DenseInteractive,
        diversity_floor: 1,
        engine_fallback_allowed: false,
        route_replacement_allowed: true,
    }
}

/// What a route is for.
#[derive(Clone, Copy, Debug, PartialEq, Eq, Structural)]
pub enum RouteServiceKind {
    Discover,
    Activate,
    Move,
    Repair,
    Hold,
}

/// What a client asks of the router.
#[derive(Clone, Copy, Debug)]
pub struct RoutingObjective {
    pub destination: NodeId,
    pub service_kind: RouteServiceKind,
    pub target_protection: RouteProtectionClass,
    pub protection_floor: RouteProtectionClass,
    pub target_connectivity: ConnectivityPosture,
    pub hold_fallback_allowed: bool,
    pub latency_budget_ms: Option<DurationMs>,
    pub protection_priority: u32,
    pub connectivity_priority: u32,
}

/// What a BLE client asks of the router to reach a node.
pub fn default_objective(destination: NodeId) -> (objective: RoutingObjective)
    ensures
        objective == (RoutingObjective {
            destination,
            service_kind: RouteServiceKind::Move,
            target_protection: RouteProtectionClass::LinkProtected,
            protection_floor: RouteProtectionClass::LinkProtected,
            target_connectivity: ble_connectivity(),
            hold_fallback_allowed: false,
            latency_budget_ms: Some(DurationMs(250)),
            protection_priority: 10,
            connectivity_priority: 20,
        }),
{
    RoutingObjective {
        destination,
        service_kind: RouteServiceKind::Move,
        target_protection: RouteProtectionClass::LinkProtected,
        protection_floor: RouteProtectionClass::LinkProtected,
        target_connectivity: ConnectivityPosture {
            repair: RouteRepairClass::Repairable,
            partition: RoutePartitionClass::ConnectedOnly,
        },
        hold_fallback_allowed: false,
        latency_budget_ms: Some(DurationMs(250)),
        protection_priority: 10,
        connectivity_priority: 20,
    }
}

/// What was observed in the same way at the same time keeps everything but the value.
pub proof fn law_alike_observation_keeps_its_provenance<T, U>(seen: Observation<T>, value: U)
    ensures
        observed_alike(seen, value).value == value,
        observed_alike(seen, value).source_class == seen.source_class,
        observed_alike(seen, value).evidence_class == seen.evidence_class,
        observed_alike(seen, value).origin_authentication == seen.origin_authentication,
        observed_alike(seen, value).observed_at_tick == seen.observed_at_tick,
{
}

/// The place of a node's services is told apart by the identity of the node, and is no address of a
/// device: nothing is ever sent there.
pub proof fn law_service_place_is_no_device(node_id: NodeId, other: NodeId)
    ensures
        crate::gatt::endpoint_device(service_place(node_id)) is None,
        service_place(node_id) == service_place(other) <==> node_id.0@ == other.0@,
        service_place(node_id).transport_kind is BleGatt,
        service_place(node_id).mtu_bytes.0 == GATT_MTU_BYTES,
{
    if service_place(node_id) == service_place(other) {
        assert(service_place(node_id).locator->Opaque_0 == node_id.0@);
        assert(service_place(other).locator->Opaque_0 == other.0@);
    }
}

} // verus!
