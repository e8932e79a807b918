//! The routing world in the router's own types: endpoints, links and meshes, taken over from the
//! library's plain values and back.

use crate::endpoint::EndpointLocator::{Opaque, ScopedBytes, Socket};
use crate::endpoint::TransportKind::{
    BleGatt, BleL2cap, Custom, LoraP2p, Quic, TcpRelay, WifiAware, WifiLan,
};
use crate::endpoint::{ByteCount, LinkEndpoint, LinkEndpointView};
use crate::identity::{EdgeKey, NodeId, Tick};
use crate::link::Belief::{Absent, Estimated};
use crate::link::LinkRuntimeState::{Active, Degraded, Faulted, Suspended};
use crate::link::PartitionRecoveryClass::{EndToEndRecoverable, LocalReconnect, NoRecovery};
use crate::link::RepairCapability::{ApplicationRetransmit, NoRepair, TransportRetransmit};
use crate::link::{
    Belief, DurationMs, Estimate, FactSourceClass, Link, LinkProfile, LinkRuntimeState, LinkState,
    LinkView, Observation, OriginAuthenticationClass, RatioPermille, RoutingEvidenceClass,
};
use crate::node_preset::clone_node;
use crate::ordered_map::{lemma_listed_push, listed};
use crate::routing::{link_views, mesh_view, Configuration, ConfigurationView, Environment};
use jacquard_core::{
    Belief as CoreBelief, ByteCount as CoreCount, Configuration as CoreConfiguration,
    DurationMs as CoreMs, EndpointLocator as CoreLocator, Environment as CoreEnvironment,
    FactSourceClass as CoreSource, Link as CoreLink, LinkEndpoint as CoreEndpoint,
    LinkProfile as CoreProfile, LinkRuntimeState as CoreRun, LinkState as CoreState, Node,
    NodeId as CoreNodeId, Observation as CoreObservation, OriginAuthenticationClass as CoreOrigin,
    PartitionRecoveryClass as CoreRecovery, RatioPermille as CorePermille,
    RepairCapability as CoreRepair, RouteEpoch as CoreEpoch, RoutingEvidenceClass as CoreEvidence,
    Tick as CoreTick, TransportKind as CoreKind,
};
use vstd::prelude::*;

verus! {

/// `jacquard_core::LinkEndpoint`.
#[verifier::external_type_specification]
#[verifier::external_body]
pub struct ExLinkEndpoint(CoreEndpoint);

/// `jacquard_core::Link`.
#[verifier::external_type_specification]
#[verifier::external_body]
pub struct ExLink(CoreLink);

/// `jacquard_core::Configuration`.
#[verifier::external_type_specification]
#[verifier::external_body]
pub struct ExConfiguration(CoreConfiguration);

/// `jacquard_core::Observation`.
#[verifier::external_type_specification]
#[verifier::external_body]
#[verifier::reject_recursive_types(T)]
pub struct ExObservation<T>(CoreObservation<T>);

/// What a `jacquard_core::LinkEndpoint` holds: its three fields.
pub uninterp spec fn endpoint_named(endpoint: CoreEndpoint) -> LinkEndpointView;

/// What a `jacquard_core::Link` holds: its endpoint, its profile and its state.
pub uninterp spec fn link_named(link: CoreLink) -> LinkView;

/// What a `jacquard_core::Configuration` holds: its epoch, its two maps and its environment.
pub uninterp spec fn configuration_named(configuration: CoreConfiguration) -> ConfigurationView;

/// What a `jacquard_core::Observation` of a `Configuration` holds: its five fields.
pub uninterp spec fn mesh_named(mesh: CoreObservation<CoreConfiguration>) -> Observation<
    ConfigurationView,
>;

/// `LinkEndpoint::new` of `jacquard_core`: the endpoint with these three fields.
#[verifier::external_body]
pub(crate) fn core_endpoint(endpoint: LinkEndpoint) -> (core: CoreEndpoint)
    ensures
        endpoint_named(core) == endpoint@,
{
    let kind = match endpoint.transport_kind {
        BleGatt => CoreKind::BleGatt, BleL2cap => CoreKind::BleL2cap, Quic => CoreKind::Quic,
        WifiAware => CoreKind::WifiAware, WifiLan => CoreKind::WifiLan, LoraP2p => CoreKind::LoraP2p,
        TcpRelay => CoreKind::TcpRelay, Custom(name) => CoreKind::Custom(name),
    };
    let locator = match endpoint.locator {
        Socket { host, port } => CoreLocator::Socket { host, port },
        ScopedBytes { scope, bytes } => CoreLocator::ScopedBytes { scope, bytes },
        Opaque(bytes) => CoreLocator::Opaque(bytes),
    };
    CoreEndpoint::new(kind, locator, CoreCount(endpoint.mtu_bytes.0))
}

/// A `jacquard_core::Link` with an endpoint, a profile, a runtime state and a loss. Nothing is
/// believed of it yet.
#[verifier::external_body]
fn new_core_link(
    endpoint: CoreEndpoint,
    profile: LinkProfile,
    state: LinkRuntimeState,
    loss: RatioPermille,
) -> (link: CoreLink)
    ensures
        link_named(link) == (LinkView {
            endpoint: endpoint_named(endpoint),
            profile,
            state: LinkState {
                state,
                median_rtt_ms: Belief::Absent,
                transfer_rate_bytes_per_sec: Belief::Absent,
                stability_horizon_ms: Belief::Absent,
                loss_permille: loss,
                delivery_confidence_permille: Belief::Absent,
                symmetry_permille: Belief::Absent,
            },
        }),
{
    let repair_capability = match profile.repair_capability {
        NoRepair => CoreRepair::None, TransportRetransmit => CoreRepair::TransportRetransmit,
        ApplicationRetransmit => CoreRepair::ApplicationRetransmit,
    };
    let partition_recovery = match profile.partition_recovery {
        NoRecovery => CoreRecovery::None, LocalReconnect => CoreRecovery::LocalReconnect,
        EndToEndRecoverable => CoreRecovery::EndToEndRecoverable,
    };
    let state = match state {
        Active => CoreRun::Active, Degraded => CoreRun::Degraded,
        Suspended => CoreRun::Suspended, Faulted => CoreRun::Faulted,
    };
    let profile = CoreProfile { latency_floor_ms: CoreMs(profile.latency_floor_ms.0), repair_capability, partition_recovery };
    CoreLink { endpoint, profile, state: CoreState { state, median_rtt_ms: CoreBelief::Absent, transfer_rate_bytes_per_sec: CoreBelief::Absent, stability_horizon_ms: CoreBelief::Absent, loss_permille: CorePermille(loss.0), delivery_confidence_permille: CoreBelief::Absent, symmetry_permille: CoreBelief::Absent } }
}

/// Sets the three beliefs of a `jacquard_core::Link` that speak of time.
#[verifier::external_body]
fn set_timing(
    link: &mut CoreLink,
    rtt: Belief<DurationMs>,
    rate: Belief<u32>,
    horizon: Belief<DurationMs>,
)
    ensures
        link_named(*final(link)) == (LinkView {
            state: LinkState {
                median_rtt_ms: rtt,
                transfer_rate_bytes_per_sec: rate,
                stability_horizon_ms: horizon,
                ..link_named(*old(link)).state
            },
            ..link_named(*old(link))
        }),
{
    link.state.median_rtt_ms = match rtt {
        Absent => CoreBelief::Absent,
        Estimated(e) => CoreBelief::estimated(CoreMs(e.value.0), CorePermille(e.confidence_permille.0), CoreTick(e.updated_at_tick.0)),
    };
    link.state.transfer_rate_bytes_per_sec = match rate {
        Absent => CoreBelief::Absent,
        Estimated(e) => CoreBelief::estimated(e.value, CorePermille(e.confidence_permille.0), CoreTick(e.updated_at_tick.0)),
    };
    link.state.stability_horizon_ms = match horizon {
        Absent => CoreBelief::Absent,
        Estimated(e) => CoreBelief::estimated(CoreMs(e.value.0), CorePermille(e.confidence_permille.0), CoreTick(e.updated_at_tick.0)),
    };
}

/// Sets the two beliefs of a `jacquard_core::Link` that speak of delivery.
#[verifier::external_body]
fn set_delivery(
    link: &mut CoreLink,
    confidence: Belief<RatioPermille>,
    symmetry: Belief<RatioPermille>,
)
    ensures
        link_named(*final(link)) == (LinkView {
            state: LinkState {
                delivery_confidence_permille: confidence,
                symmetry_permille: symmetry,
                ..link_named(*old(link)).state
            },
            ..link_named(*old(link))
        }),
{
    link.state.delivery_confidence_permille = match confidence {
        Absent => CoreBelief::Absent,
        Estimated(e) => CoreBelief::estimated(CorePermille(e.value.0), CorePermille(e.confidence_permille.0), CoreTick(e.updated_at_tick.0)),
    };
    link.state.symmetry_permille = match symmetry {
        Absent => CoreBelief::Absent,
        Estimated(e) => CoreBelief::estimated(CorePermille(e.value.0), CorePermille(e.confidence_permille.0), CoreTick(e.updated_at_tick.0)),
    };
}

/// A link in the router's own type.
pub fn core_link(link: &Link) -> (core: CoreLink)
    ensures
        link_named(core) == link@,
{
    let endpoint = core_endpoint(link.endpoint.clone());
    let mut core = new_core_link(
        endpoint,
        link.profile,
        link.state.state,
        link.state.loss_permille,
    );
    set_timing(
        &mut core,
        link.state.median_rtt_ms,
        link.state.transfer_rate_bytes_per_sec,
        link.state.stability_horizon_ms,
    );
    set_delivery(
        &mut core,
        link.state.delivery_confidence_permille,
        link.state.symmetry_permille,
    );
    core
}

/// The endpoint of a `jacquard_core::Link`.
#[verifier::external_body]
fn link_endpoint(link: &CoreLink) -> (endpoint: LinkEndpoint)
    ensures
        endpoint@ == link_named(*link).endpoint,
{
    let transport_kind = match &link.endpoint.transport_kind {
        CoreKind::BleGatt => BleGatt, CoreKind::BleL2cap => BleL2cap, CoreKind::Quic => Quic,
        CoreKind::WifiAware => WifiAware, CoreKind::WifiLan => WifiLan, CoreKind::LoraP2p => LoraP2p,
        CoreKind::TcpRelay => TcpRelay, CoreKind::Custom(name) => Custom(name.clone()),
    };
    let locator = match link.endpoint.locator.clone() {
        CoreLocator::Socket { host, port } => Socket { host, port },
        CoreLocator::ScopedBytes { scope, bytes } => ScopedBytes { scope, bytes },
        CoreLocator::Opaque(bytes) => Opaque(bytes),
    };
    LinkEndpoint { transport_kind, locator, mtu_bytes: ByteCount(link.endpoint.mtu_bytes.0) }
}

/// The profile, the runtime state and the loss of a `jacquard_core::Link`.
#[verifier::external_body]
fn link_condition(link: &CoreLink) -> (condition: (LinkProfile, LinkRuntimeState, RatioPermille))
    ensures
        condition.0 == link_named(*link).profile,
        condition.1 == link_named(*link).state.state,
        condition.2 == link_named(*link).state.loss_permille,
{
    let repair_capability = match link.profile.repair_capability {
        CoreRepair::None => NoRepair, CoreRepair::TransportRetransmit => TransportRetransmit,
        CoreRepair::ApplicationRetransmit => ApplicationRetransmit,
    };
    let partition_recovery = match link.profile.partition_recovery {
        CoreRecovery::None => NoRecovery, CoreRecovery::LocalReconnect => LocalReconnect,
        CoreRecovery::EndToEndRecoverable => EndToEndRecoverable,
    };
    let state = match link.state.state {
        CoreRun::Active => Active, CoreRun::Degraded => Degraded,
        CoreRun::Suspended => Suspended, CoreRun::Faulted => Faulted,
    };
    let latency_floor_ms = DurationMs(link.profile.latency_floor_ms.0);
    (LinkProfile { latency_floor_ms, repair_capability, partition_recovery }, state, RatioPermille(link.state.loss_permille.0))
}

/// The three beliefs of a `jacquard_core::Link` that speak of time.
#[verifier::external_body]
fn link_timing(link: &CoreLink) -> (timing: (Belief<DurationMs>, Belief<u32>, Belief<DurationMs>))
    ensures
        timing.0 == link_named(*link).state.median_rtt_ms,
        timing.1 == link_named(*link).state.transfer_rate_bytes_per_sec,
        timing.2 == link_named(*link).state.stability_horizon_ms,
{
    let rtt = match link.state.median_rtt_ms {
        CoreBelief::Absent => Absent,
        CoreBelief::Estimated(e) => Estimated(Estimate { value: DurationMs(e.value.0), confidence_permille: RatioPermille(e.confidence_permille.0), updated_at_tick: Tick(e.updated_at_tick.0) }),
    };
    let rate = match link.state.transfer_rate_bytes_per_sec {
        CoreBelief::Absent => Absent,
        CoreBelief::Estimated(e) => Estimated(Estimate { value: e.value, confidence_permille: RatioPermille(e.confidence_permille.0), updated_at_tick: Tick(e.updated_at_tick.0) }),
    };
    let horizon = match link.state.stability_horizon_ms {
        CoreBelief::Absent => Absent,
        CoreBelief::Estimated(e) => Estimated(Estimate { value: DurationMs(e.value.0), confidence_permille: RatioPermille(e.confidence_permille.0), updated_at_tick: Tick(e.updated_at_tick.0) }),
    };
    (rtt, rate, horizon)
}

/// The two beliefs of a `jacquard_core::Link` that speak of delivery.
#[verifier::external_body]
fn link_delivery(link: &CoreLink) -> (delivery: (Belief<RatioPermille>, Belief<RatioPermille>))
    ensures
        delivery.0 == link_named(*link).state.delivery_confidence_permille,
        delivery.1 == link_named(*link).state.symmetry_permille,
{
    let confidence = match link.state.delivery_confidence_permille {
        CoreBelief::Absent => Absent,
        CoreBelief::Estimated(e) => Estimated(Estimate { value: RatioPermille(e.value.0), confidence_permille: RatioPermille(e.confidence_permille.0), updated_at_tick: Tick(e.updated_at_tick.0) }),
    };
    let symmetry = match link.state.symmetry_permille {
        CoreBelief::Absent => Absent,
        CoreBelief::Estimated(e) => Estimated(Estimate { value: RatioPermille(e.value.0), confidence_permille: RatioPermille(e.confidence_permille.0), updated_at_tick: Tick(e.updated_at_tick.0) }),
    };
    (confidence, symmetry)
}

/// A link out of the router's own type.
pub fn plain_link(core: &CoreLink) -> (link: Link)
    ensures
        link@ == link_named(*core),
{
    let (profile, state, loss_permille) = link_condition(core);
    let (median_rtt_ms, transfer_rate_bytes_per_sec, stability_horizon_ms) = link_timing(core);
    let (delivery_confidence_permille, symmetry_permille) = link_delivery(core);
    Link {
        endpoint: link_endpoint(core),
        profile,
        state: LinkState {
            state,
            median_rtt_ms,
            transfer_rate_bytes_per_sec,
            stability_horizon_ms,
            loss_permille,
            delivery_confidence_permille,
            symmetry_permille,
        },
    }
}

/// What some links in the router's own type hold.
pub open spec fn named_links(links: Map<EdgeKey, CoreLink>) -> Map<EdgeKey, LinkView> {
    links.map_values(|link: CoreLink| link_named(link))
}

/// A `jacquard_core::Configuration` with an epoch, an environment, and the nodes and links of two
/// lists, gathered into its maps by `FromIterator`, where the last entry of a key counts.
#[verifier::external_body]
fn core_configuration(
    epoch: u64,
    nodes: Vec<(NodeId, Node)>,
    links: Vec<(EdgeKey, CoreLink)>,
    environment: Environment,
) -> (configuration: CoreConfiguration)
    ensures
        configuration_named(configuration) == (ConfigurationView {
            epoch,
            nodes: listed(nodes@),
            links: named_links(listed(links@)),
            environment,
        }),
{
    CoreConfiguration {
        epoch: CoreEpoch(epoch),
        nodes: nodes.into_iter().map(|(id, node)| (CoreNodeId(id.0), node)).collect(),
        links: links
            .into_iter()
            .map(|(at, link)| ((CoreNodeId(at.from_node_id.0), CoreNodeId(at.to_node_id.0)), link))
            .collect(),
        environment: CoreEnvironment {
            reachable_neighbor_count: environment.reachable_neighbor_count,
            churn_permille: CorePermille(environment.churn_permille.0),
            contention_permille: CorePermille(environment.contention_permille.0),
        },
    }
}

/// A `jacquard_core::Observation` of a mesh, with these five fields.
#[verifier::external_body]
fn core_observation(
    value: CoreConfiguration,
    source_class: FactSourceClass,
    evidence_class: RoutingEvidenceClass,
    origin_authentication: OriginAuthenticationClass,
    observed_at_tick: Tick,
) -> (mesh: CoreObservation<CoreConfiguration>)
    ensures
        mesh_named(mesh) == (Observation {
            value: configuration_named(value),
            source_class,
            evidence_class,
            origin_authentication,
            observed_at_tick,
        }),
{
    let source_class = match source_class {
        FactSourceClass::Local => CoreSource::Local, FactSourceClass::Remote => CoreSource::Remote,
    };
    let evidence_class = match evidence_class {
        RoutingEvidenceClass::DirectObservation => CoreEvidence::DirectObservation,
        RoutingEvidenceClass::PeerClaim => CoreEvidence::PeerClaim,
        RoutingEvidenceClass::AdmissionWitnessed => CoreEvidence::AdmissionWitnessed,
    };
    let origin_authentication = match origin_authentication {
        OriginAuthenticationClass::Controlled => CoreOrigin::Controlled,
        OriginAuthenticationClass::Authenticated => CoreOrigin::Authenticated,
        OriginAuthenticationClass::Unauthenticated => CoreOrigin::Unauthenticated,
    };
    CoreObservation { value, source_class, evidence_class, origin_authentication, observed_at_tick: CoreTick(observed_at_tick.0) }
}

/// A mesh in the router's own type.
pub fn core_mesh(topology: &Observation<Configuration>) -> (mesh: CoreObservation<
    CoreConfiguration,
>)
    requires
        topology.value.wf(),
    ensures
        mesh_named(mesh) == mesh_view(*topology),
{
    let configuration = &topology.value;
    let mut nodes: Vec<(NodeId, Node)> = Vec::new();
    let mut i: usize = 0;
    while i < configuration.nodes.len()
        invariant
            configuration.wf(),
            i <= configuration.nodes.keys().len(),
            forall|id: NodeId| #[trigger]
                listed(nodes@).contains_key(id) ==> configuration.nodes@.contains_key(id) && listed(
                    nodes@,
                )[id] == configuration.nodes@[id],
            forall|j: int|
                0 <= j < i ==> listed(nodes@).contains_key(
                    #[trigger] configuration.nodes.keys()[j],
                ),
        decreases configuration.nodes.keys().len() - i,
    {
        let id = configuration.nodes.key_at(i);
        let node = clone_node(configuration.nodes.value_at(i));
        proof {
            lemma_listed_push(nodes@, id, node);
        }
        nodes.push((id, node));
        i = i + 1;
    }
    let mut links: Vec<(EdgeKey, CoreLink)> = Vec::new();
    let mut j: usize = 0;
    while j < configuration.links.len()
        invariant
            configuration.wf(),
            j <= configuration.links.keys().len(),
            forall|key: EdgeKey| #[trigger]
                listed(links@).contains_key(key) ==> configuration.links@.contains_key(key)
                    && link_named(listed(links@)[key]) == configuration.links@[key]@,
            forall|k: int|
                0 <= k < j ==> listed(links@).contains_key(
                    #[trigger] configuration.links.keys()[k],
                ),
        decreases configuration.links.keys().len() - j,
    {
        let key = configuration.links.key_at(j);
        let link = core_link(configuration.links.value_at(j));
        proof {
            lemma_listed_push(links@, key, link);
        }
        links.push((key, link));
        j = j + 1;
    }
    proof {
        assert forall|id: NodeId| configuration.nodes@.contains_key(id) implies #[trigger] listed(
            nodes@,
        ).contains_key(id) by {
            let at = configuration.nodes.lemma_position(id);
            assert(configuration.nodes.keys()[at] == id);
        }
        assert(listed(nodes@) =~= configuration.nodes@);
        assert forall|key: EdgeKey| configuration.links@.contains_key(
            key,
        ) implies #[trigger] listed(links@).contains_key(key) by {
            let at = configuration.links.lemma_position(key);
            assert(configuration.links.keys()[at] == key);
        }
        assert(named_links(listed(links@)) =~= link_views(configuration.links@));
    }
    core_observation(
        core_configuration(configuration.epoch, nodes, links, configuration.environment),
        topology.source_class,
        topology.evidence_class,
        topology.origin_authentication,
        topology.observed_at_tick,
    )
}

} // verus!
