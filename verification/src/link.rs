//! Links, observations of them, and the events that a transport raises.

use crate::endpoint::{LinkEndpoint, LinkEndpointView};
use crate::identity::{NodeId, Tick};
use vstd::prelude::*;

verus! {

/// A span of wall-clock time in milliseconds.
#[derive(Clone, Copy, Debug, PartialEq, Eq, PartialOrd, Ord, Structural)]
pub struct DurationMs(pub u32);

/// A ratio in thousandths.
#[derive(Clone, Copy, Debug, PartialEq, Eq, PartialOrd, Ord, Structural)]
pub struct RatioPermille(pub u16);

/// A value with the confidence and the time of its last update.
#[derive(Clone, Copy, Debug, PartialEq, Eq, Structural)]
pub struct Estimate<T> {
    pub value: T,
    pub confidence_permille: RatioPermille,
    pub updated_at_tick: Tick,
}

/// What is believed of a quantity: nothing, or an estimate.
#[derive(Clone, Copy, Debug, PartialEq, Eq, Structural)]
pub enum Belief<T> {
    Absent,
    Estimated(Estimate<T>),
}

/// A value believed without doubt.
pub open spec fn certain_belief<T>(value: T, updated_at_tick: Tick) -> Belief<T> {
    Belief::Estimated(
        Estimate { value, confidence_permille: RatioPermille(1_000), updated_at_tick },
    )
}

impl<T> Belief<T> {
    /// A value believed without doubt.
    pub fn certain(value: T, updated_at_tick: Tick) -> (belief: Belief<T>)
        ensures
            belief == certain_belief(value, updated_at_tick),
    {
        Belief::Estimated(
            Estimate { value, confidence_permille: RatioPermille(1_000), updated_at_tick },
        )
    }
}

/// How a link runs at present.
#[derive(Clone, Copy, Debug, PartialEq, Eq, PartialOrd, Ord, Structural)]
pub enum LinkRuntimeState {
    Active,
    Degraded,
    Suspended,
    Faulted,
}

/// How a link repairs lost frames.
#[derive(Clone, Copy, Debug, PartialEq, Eq, PartialOrd, Ord, Structural)]
pub enum RepairCapability {
    NoRepair,
    TransportRetransmit,
    ApplicationRetransmit,
}

/// How a link recovers after a disruption.
#[derive(Clone, Copy, Debug, PartialEq, Eq, PartialOrd, Ord, Structural)]
pub enum PartitionRecoveryClass {
    NoRecovery,
    LocalReconnect,
    EndToEndRecoverable,
}

/// The stable side of a link.
#[derive(Clone, Copy, Debug, PartialEq, Eq, Structural)]
pub struct LinkProfile {
    pub latency_floor_ms: DurationMs,
    pub repair_capability: RepairCapability,
    pub partition_recovery: PartitionRecoveryClass,
}

/// The observed side of a link.
#[derive(Clone, Copy, Debug, PartialEq, Eq, Structural)]
pub struct LinkState {
    pub state: LinkRuntimeState,
    pub median_rtt_ms: Belief<DurationMs>,
    pub transfer_rate_bytes_per_sec: Belief<u32>,
    pub stability_horizon_ms: Belief<DurationMs>,
    pub loss_permille: RatioPermille,
    pub delivery_confidence_permille: Belief<RatioPermille>,
    pub symmetry_permille: Belief<RatioPermille>,
}

/// A directed link.
#[derive(Debug, Eq)]
pub struct Link {
    pub endpoint: LinkEndpoint,
    pub profile: LinkProfile,
    pub state: LinkState,
}

/// What a [`Link`] says.
pub ghost struct LinkView {
    pub endpoint: LinkEndpointView,
    pub profile: LinkProfile,
    pub state: LinkState,
}

impl View for Link {
    type V = LinkView;

    open spec fn view(&self) -> LinkView {
        LinkView { endpoint: self.endpoint@, profile: self.profile, state: self.state }
    }
}

impl Clone for Link {
    fn clone(&self) -> (copy: Self)
        ensures
            copy@ == self@,
    {
        Link { endpoint: self.endpoint.clone(), profile: self.profile, state: self.state }
    }
}

impl PartialEq for Link {
    fn eq(&self, other: &Self) -> (r: bool) {
        self.endpoint == other.endpoint && self.profile == other.profile && self.state
            == other.state
    }
}

impl vstd::std_specs::cmp::PartialEqSpecImpl for Link {
    open spec fn obeys_eq_spec() -> bool {
        true
    }

    open spec fn eq_spec(&self, other: &Self) -> bool {
        self@ == other@
    }
}

/// Where a fact comes from.
#[derive(Clone, Copy, Debug, PartialEq, Eq, PartialOrd, Ord, Structural)]
pub enum FactSourceClass {
    Local,
    Remote,
}

/// What a fact rests on.
#[derive(Clone, Copy, Debug, PartialEq, Eq, PartialOrd, Ord, Structural)]
pub enum RoutingEvidenceClass {
    DirectObservation,
    PeerClaim,
    AdmissionWitnessed,
}

/// How the origin of a fact is authenticated.
#[derive(Clone, Copy, Debug, PartialEq, Eq, PartialOrd, Ord, Structural)]
pub enum OriginAuthenticationClass {
    Controlled,
    Authenticated,
    Unauthenticated,
}

/// A value as it was seen at one point in logical time.
#[derive(Debug)]
pub struct Observation<T> {
    pub value: T,
    pub source_class: FactSourceClass,
    pub evidence_class: RoutingEvidenceClass,
    pub origin_authentication: OriginAuthenticationClass,
    pub observed_at_tick: Tick,
}

/// What an observation of a link says.
pub open spec fn link_observation_view(observation: Observation<Link>) -> Observation<LinkView> {
    Observation {
        value: observation.value@,
        source_class: observation.source_class,
        evidence_class: observation.evidence_class,
        origin_authentication: observation.origin_authentication,
        observed_at_tick: observation.observed_at_tick,
    }
}

impl Observation<Link> {
    /// Copies an observation of a link.
    pub fn duplicate(&self) -> (copy: Observation<Link>)
        ensures
            link_observation_view(copy) == link_observation_view(*self),
    {
        Observation {
            value: self.value.clone(),
            source_class: self.source_class,
            evidence_class: self.evidence_class,
            origin_authentication: self.origin_authentication,
            observed_at_tick: self.observed_at_tick,
        }
    }

    /// Compares two observations of links.
    pub fn same(&self, other: &Observation<Link>) -> (equal: bool)
        ensures
            equal == (link_observation_view(*self) == link_observation_view(*other)),
    {
        self.value == other.value && self.source_class == other.source_class && self.evidence_class
            == other.evidence_class && self.origin_authentication == other.origin_authentication
            && self.observed_at_tick == other.observed_at_tick
    }
}

/// An event that the transport raises, before it has a place in logical time.
#[derive(Debug)]
pub enum TransportIngressEvent {
    PayloadReceived { from_node_id: NodeId, endpoint: LinkEndpoint, payload: Vec<u8> },
    LinkObserved {
        remote_node_id: NodeId,
        link: Link,
        source_class: FactSourceClass,
        evidence_class: RoutingEvidenceClass,
        origin_authentication: OriginAuthenticationClass,
    },
}

/// What a [`TransportIngressEvent`] says.
pub ghost enum IngressEventView {
    PayloadReceived { from_node_id: NodeId, endpoint: LinkEndpointView, payload: Seq<u8> },
    LinkObserved {
        remote_node_id: NodeId,
        link: LinkView,
        source_class: FactSourceClass,
        evidence_class: RoutingEvidenceClass,
        origin_authentication: OriginAuthenticationClass,
    },
}

impl View for TransportIngressEvent {
    type V = IngressEventView;

    open spec fn view(&self) -> IngressEventView {
        match self {
            TransportIngressEvent::PayloadReceived {
                from_node_id,
                endpoint,
                payload,
            } => IngressEventView::PayloadReceived {
                from_node_id: *from_node_id,
                endpoint: endpoint@,
                payload: payload@,
            },
            TransportIngressEvent::LinkObserved {
                remote_node_id,
                link,
                source_class,
                evidence_class,
                origin_authentication,
            } => IngressEventView::LinkObserved {
                remote_node_id: *remote_node_id,
                link: link@,
                source_class: *source_class,
                evidence_class: *evidence_class,
                origin_authentication: *origin_authentication,
            },
        }
    }
}

/// An event of the transport with its place in logical time.
#[derive(Debug)]
pub enum TransportObservation {
    PayloadReceived {
        from_node_id: NodeId,
        endpoint: LinkEndpoint,
        payload: Vec<u8>,
        observed_at_tick: Tick,
    },
    LinkObserved { remote_node_id: NodeId, observation: Observation<Link> },
}

/// What a [`TransportObservation`] says.
pub ghost enum ObservationView {
    PayloadReceived {
        from_node_id: NodeId,
        endpoint: LinkEndpointView,
        payload: Seq<u8>,
        observed_at_tick: Tick,
    },
    LinkObserved { remote_node_id: NodeId, observation: Observation<LinkView> },
}

impl View for TransportObservation {
    type V = ObservationView;

    open spec fn view(&self) -> ObservationView {
        match self {
            TransportObservation::PayloadReceived {
                from_node_id,
                endpoint,
                payload,
                observed_at_tick,
            } => ObservationView::PayloadReceived {
                from_node_id: *from_node_id,
                endpoint: endpoint@,
                payload: payload@,
                observed_at_tick: *observed_at_tick,
            },
            TransportObservation::LinkObserved {
                remote_node_id,
                observation,
            } => ObservationView::LinkObserved {
                remote_node_id: *remote_node_id,
                observation: link_observation_view(*observation),
            },
        }
    }
}

/// A transport event seen at a point in logical time.
pub open spec fn observed_at(event: TransportIngressEvent, tick: Tick) -> TransportObservation {
    match event {
        TransportIngressEvent::PayloadReceived {
            from_node_id,
            endpoint,
            payload,
        } => TransportObservation::PayloadReceived {
            from_node_id,
            endpoint,
            payload,
            observed_at_tick: tick,
        },
        TransportIngressEvent::LinkObserved {
            remote_node_id,
            link,
            source_class,
            evidence_class,
            origin_authentication,
        } => TransportObservation::LinkObserved {
            remote_node_id,
            observation: Observation {
                value: link,
                source_class,
                evidence_class,
                origin_authentication,
                observed_at_tick: tick,
            },
        },
    }
}

impl TransportIngressEvent {
    /// Gives the event its place in logical time.
    pub fn observe_at(self, observed_at_tick: Tick) -> (observation: TransportObservation)
        ensures
            observation == observed_at(self, observed_at_tick),
    {
        match self {
            TransportIngressEvent::PayloadReceived {
                from_node_id,
                endpoint,
                payload,
            } => TransportObservation::PayloadReceived {
                from_node_id,
                endpoint,
                payload,
                observed_at_tick,
            },
            TransportIngressEvent::LinkObserved {
                remote_node_id,
                link,
                source_class,
                evidence_class,
                origin_authentication,
            } => TransportObservation::LinkObserved {
                remote_node_id,
                observation: Observation {
                    value: link,
                    source_class,
                    evidence_class,
                    origin_authentication,
                    observed_at_tick,
                },
            },
        }
    }
}

/// Giving an event its place in logical time adds the tick and changes nothing: a payload stays a
/// payload of the same node, endpoint and bytes, and a link stays the link that was observed, with
/// the same provenance.
pub proof fn law_stamping_changes_nothing(event: TransportIngressEvent, tick: Tick)
    ensures
        match event@ {
            IngressEventView::PayloadReceived { from_node_id, endpoint, payload } => {
                &&& observed_at(event, tick)@ matches ObservationView::PayloadReceived {
                    from_node_id: from,
                    endpoint: at,
                    payload: bytes,
                    observed_at_tick,
                }
                &&& from == from_node_id
                &&& at == endpoint
                &&& bytes == payload
                &&& observed_at_tick == tick
            },
            IngressEventView::LinkObserved {
                remote_node_id,
                link,
                source_class,
                evidence_class,
                origin_authentication,
            } => {
                &&& observed_at(event, tick)@ matches ObservationView::LinkObserved {
                    remote_node_id: to,
                    observation,
                }
                &&& to == remote_node_id
                &&& observation.value == link
                &&& observation.source_class == source_class
                &&& observation.evidence_class == evidence_class
                &&& observation.origin_authentication == origin_authentication
                &&& observation.observed_at_tick == tick
            },
        },
{
}

/// What is believed without doubt is the value itself, as of its tick, at full confidence.
pub proof fn law_certain_belief_is_certain<T>(value: T, tick: Tick)
    ensures
        certain_belief(value, tick) matches Belief::Estimated(estimate) && estimate.value == value
            && estimate.updated_at_tick == tick && estimate.confidence_permille.0 == 1000,
{
}

} // verus!
