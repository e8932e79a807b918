//! What a BLE path is worth to the router: delivery support and the links made of it.

use crate::endpoint::{ByteCount, LinkEndpoint, LinkEndpointView, TransportKind};
use crate::cast_support::{bidirectional_confidence, shape_evidence, shape_support};
use crate::identity::{NodeId, OrderStamp, Tick};
use crate::link::{
    Belief, DurationMs, FactSourceClass, IngressEventView, Link, LinkProfile, LinkRuntimeState,
    LinkState, LinkView, Observation, OriginAuthenticationClass, PartitionRecoveryClass,
    RatioPermille, RepairCapability, RoutingEvidenceClass, TransportIngressEvent,
    TransportObservation, certain_belief, observed_at,
};
use vstd::prelude::*;

verus! {

/// Round trip that is expected of a BLE link.
pub const BLE_LINK_RTT_ESTIMATE_MS: u32 = 150;

/// How long an observation of a BLE link holds.
pub const BLE_LINK_VALID_FOR_MS: u32 = 30_000;

/// Confidence in delivery over GATT.
pub const BLE_GATT_CONFIDENCE: u16 = 700;

/// Confidence in delivery over L2CAP, in both directions.
pub const BLE_L2CAP_CONFIDENCE: u16 = 900;

/// When a piece of evidence was taken and how long it holds.
#[derive(Clone, Copy, Debug, PartialEq, Eq, Structural)]
pub struct CastEvidenceMeta {
    pub observed_at_tick: Tick,
    pub evidence_age_ms: DurationMs,
    pub valid_for_ms: DurationMs,
    pub order: OrderStamp,
}

/// What evidence must show to count.
#[derive(Clone, Copy, Debug, PartialEq, Eq, Structural)]
pub struct CastEvidencePolicy {
    pub receiver_count_max: u32,
    pub evidence_age_ms_max: DurationMs,
    pub confidence_floor: RatioPermille,
    pub payload_bytes_required: ByteCount,
}

/// What delivery must offer to be used.
#[derive(Clone, Copy, Debug, PartialEq, Eq, Structural)]
pub struct CastDeliveryPolicy {
    pub evidence: CastEvidencePolicy,
    pub require_bidirectional: bool,
}

/// The policy that applies where none is given.
pub open spec fn default_policy() -> CastDeliveryPolicy {
    CastDeliveryPolicy {
        evidence: CastEvidencePolicy {
            receiver_count_max: 32,
            evidence_age_ms_max: DurationMs(30_000),
            confidence_floor: RatioPermille(1),
            payload_bytes_required: ByteCount(0),
        },
        require_bidirectional: false,
    }
}

impl Default for CastDeliveryPolicy {
    fn default() -> (policy: Self)
        ensures
            policy == default_policy(),
    {
        CastDeliveryPolicy {
            evidence: CastEvidencePolicy {
                receiver_count_max: 32,
                evidence_age_ms_max: DurationMs(30_000),
                confidence_floor: RatioPermille(1),
                payload_bytes_required: ByteCount(0),
            },
            require_bidirectional: false,
        }
    }
}

/// A path to one receiver, as the transport sees it.
#[derive(Clone, Copy, Debug, PartialEq, Eq)]
pub struct UnicastObservation {
    pub from: NodeId,
    pub to: NodeId,
    pub directional_confidence_permille: RatioPermille,
    pub reverse_confirmation_permille: Option<RatioPermille>,
    pub payload_bytes_max: ByteCount,
    pub meta: CastEvidenceMeta,
}

/// Support for delivery to one receiver.
#[derive(Clone, Copy, Debug, PartialEq, Eq)]
pub struct UnicastDeliverySupport {
    pub sender: NodeId,
    pub receiver: NodeId,
    pub confidence_permille: RatioPermille,
    pub bidirectional_confidence_permille: RatioPermille,
    pub payload_bytes_max: ByteCount,
    pub meta: CastEvidenceMeta,
}

/// The support that an observation gives under a policy: the observation must be fresh, and its
/// confidence and size must be enough.
pub open spec fn unicast_support(
    observation: UnicastObservation,
    policy: CastDeliveryPolicy,
) -> Option<UnicastDeliverySupport> {
    let directional = observation.directional_confidence_permille.0;
    let reverse = match observation.reverse_confirmation_permille {
        Some(ratio) => Some(ratio.0),
        None => None,
    };
    let both = bidirectional_confidence(directional, reverse);
    let counted = if policy.require_bidirectional {
        both
    } else {
        directional
    };
    let meta = observation.meta;
    let limits = policy.evidence;
    if meta.evidence_age_ms.0 <= limits.evidence_age_ms_max.0 && meta.evidence_age_ms.0
        <= meta.valid_for_ms.0 && directional >= limits.confidence_floor.0
        && observation.payload_bytes_max.0 >= limits.payload_bytes_required.0
        && limits.receiver_count_max >= 1 && (policy.require_bidirectional ==> both > 0) && counted
        >= limits.confidence_floor.0 {
        Some(
            UnicastDeliverySupport {
                sender: observation.from,
                receiver: observation.to,
                confidence_permille: RatioPermille(counted),
                bidirectional_confidence_permille: RatioPermille(both),
                payload_bytes_max: observation.payload_bytes_max,
                meta,
            },
        )
    } else {
        None
    }
}

/// Evidence of a BLE link at the moment it is seen.
pub fn cast_evidence_meta(observed_at_tick: Tick, order: OrderStamp) -> (meta: CastEvidenceMeta)
    ensures
        meta == fresh_meta(observed_at_tick, order),
{
    CastEvidenceMeta {
        observed_at_tick,
        evidence_age_ms: DurationMs(0),
        valid_for_ms: DurationMs(BLE_LINK_VALID_FOR_MS),
        order,
    }
}

/// Evidence of a BLE link at the moment it is seen.
pub open spec fn fresh_meta(observed_at_tick: Tick, order: OrderStamp) -> CastEvidenceMeta {
    CastEvidenceMeta {
        observed_at_tick,
        evidence_age_ms: DurationMs(0),
        valid_for_ms: DurationMs(BLE_LINK_VALID_FOR_MS),
        order,
    }
}

/// What an endpoint says of the path to a peer: L2CAP is confirmed in both directions, everything
/// else counts as GATT and is confirmed in none.
pub open spec fn path_observation(
    local_node_id: NodeId,
    remote_node_id: NodeId,
    endpoint: LinkEndpointView,
    meta: CastEvidenceMeta,
) -> UnicastObservation {
    let by_l2cap = endpoint.transport_kind is BleL2cap;
    UnicastObservation {
        from: local_node_id,
        to: remote_node_id,
        directional_confidence_permille: RatioPermille(
            if by_l2cap {
                BLE_L2CAP_CONFIDENCE
            } else {
                BLE_GATT_CONFIDENCE
            },
        ),
        reverse_confirmation_permille: if by_l2cap {
            Some(RatioPermille(BLE_L2CAP_CONFIDENCE))
        } else {
            None
        },
        payload_bytes_max: endpoint.mtu_bytes,
        meta,
    }
}

fn unicast_observation(
    local_node_id: NodeId,
    remote_node_id: NodeId,
    endpoint: &LinkEndpoint,
    meta: CastEvidenceMeta,
) -> (observation: UnicastObservation)
    ensures
        observation == path_observation(local_node_id, remote_node_id, endpoint@, meta),
{
    let by_l2cap = match endpoint.transport_kind {
        TransportKind::BleL2cap => true,
        _ => false,
    };
    let directional: u16 = if by_l2cap {
        BLE_L2CAP_CONFIDENCE
    } else {
        BLE_GATT_CONFIDENCE
    };
    UnicastObservation {
        from: local_node_id,
        to: remote_node_id,
        directional_confidence_permille: RatioPermille(directional),
        reverse_confirmation_permille: if by_l2cap {
            Some(RatioPermille(BLE_L2CAP_CONFIDENCE))
        } else {
            None
        },
        payload_bytes_max: endpoint.mtu_bytes,
        meta,
    }
}

/// The support that a BLE endpoint gives for delivery to a peer.
pub fn shape_ble_unicast_delivery_support(
    local_node_id: NodeId,
    remote_node_id: NodeId,
    endpoint: &LinkEndpoint,
    meta: CastEvidenceMeta,
    policy: CastDeliveryPolicy,
) -> (support: Option<UnicastDeliverySupport>)
    ensures
        support == unicast_support(
            path_observation(local_node_id, remote_node_id, endpoint@, meta),
            policy,
        ),
{
    let observation = unicast_observation(local_node_id, remote_node_id, endpoint, meta);
    let directional: u16 = observation.directional_confidence_permille.0;
    let reverse = match observation.reverse_confirmation_permille {
        Some(ratio) => Some(ratio.0),
        None => None,
    };
    let payload: u64 = observation.payload_bytes_max.0;
    let limits = policy.evidence;
    let both: u16 = match shape_evidence(
        (local_node_id.0, remote_node_id.0),
        (directional, reverse),
        payload,
        (meta.observed_at_tick.0, meta.evidence_age_ms.0, meta.valid_for_ms.0, meta.order.0),
        (
            limits.receiver_count_max,
            limits.evidence_age_ms_max.0,
            limits.confidence_floor.0,
            limits.payload_bytes_required.0,
        ),
    ) {
        Some(both) => both,
        None => return None,
    };
    match shape_support(
        (local_node_id.0, remote_node_id.0),
        both > 0,
        (directional, both),
        payload,
        (
            policy.require_bidirectional,
            limits.confidence_floor.0,
            limits.payload_bytes_required.0,
        ),
    ) {
        Some(counted) => Some(
            UnicastDeliverySupport {
                sender: local_node_id,
                receiver: remote_node_id,
                confidence_permille: RatioPermille(counted),
                bidirectional_confidence_permille: RatioPermille(both),
                payload_bytes_max: observation.payload_bytes_max,
                meta,
            },
        ),
        None => None,
    }
}

/// The stable side of every BLE link.
pub open spec fn ble_link_profile() -> LinkProfile {
    LinkProfile {
        latency_floor_ms: DurationMs(BLE_LINK_RTT_ESTIMATE_MS),
        repair_capability: RepairCapability::TransportRetransmit,
        partition_recovery: PartitionRecoveryClass::LocalReconnect,
    }
}

fn make_ble_link_profile() -> (profile: LinkProfile)
    ensures
        profile == ble_link_profile(),
{
    LinkProfile {
        latency_floor_ms: DurationMs(BLE_LINK_RTT_ESTIMATE_MS),
        repair_capability: RepairCapability::TransportRetransmit,
        partition_recovery: PartitionRecoveryClass::LocalReconnect,
    }
}

/// The link that supported delivery makes, as it is observed at a point in logical time.
pub open spec fn supported_link(
    endpoint: LinkEndpointView,
    support: UnicastDeliverySupport,
    tick: Tick,
) -> LinkView {
    LinkView {
        endpoint: LinkEndpointView { mtu_bytes: support.payload_bytes_max, ..endpoint },
        profile: ble_link_profile(),
        state: LinkState {
            state: LinkRuntimeState::Active,
            median_rtt_ms: certain_belief(DurationMs(BLE_LINK_RTT_ESTIMATE_MS), tick),
            transfer_rate_bytes_per_sec: certain_belief(0u32, tick),
            stability_horizon_ms: certain_belief(DurationMs(BLE_LINK_VALID_FOR_MS), tick),
            loss_permille: RatioPermille(0),
            delivery_confidence_permille: certain_belief(support.confidence_permille, tick),
            symmetry_permille: certain_belief(support.bidirectional_confidence_permille, tick),
        },
    }
}

fn link_from_unicast_delivery_support(
    endpoint: LinkEndpoint,
    support: UnicastDeliverySupport,
    observed_at_tick: Tick,
) -> (link: Link)
    ensures
        link@ == supported_link(endpoint@, support, observed_at_tick),
{
    Link {
        endpoint: LinkEndpoint {
            transport_kind: endpoint.transport_kind,
            locator: endpoint.locator,
            mtu_bytes: support.payload_bytes_max,
        },
        profile: make_ble_link_profile(),
        state: LinkState {
            state: LinkRuntimeState::Active,
            median_rtt_ms: Belief::certain(
                DurationMs(BLE_LINK_RTT_ESTIMATE_MS),
                observed_at_tick,
            ),
            transfer_rate_bytes_per_sec: Belief::certain(0, observed_at_tick),
            stability_horizon_ms: Belief::certain(
                DurationMs(BLE_LINK_VALID_FOR_MS),
                observed_at_tick,
            ),
            loss_permille: RatioPermille(0),
            delivery_confidence_permille: Belief::certain(
                support.confidence_permille,
                observed_at_tick,
            ),
            symmetry_permille: Belief::certain(
                support.bidirectional_confidence_permille,
                observed_at_tick,
            ),
        },
    }
}

/// The link that an observed BLE endpoint amounts to: supported with the confidence of its
/// transport, which the default policy always accepts.
pub open spec fn observed_ble_link(endpoint: LinkEndpointView, tick: Tick) -> LinkView {
    let by_l2cap = endpoint.transport_kind is BleL2cap;
    let confidence = RatioPermille(
        if by_l2cap {
            BLE_L2CAP_CONFIDENCE
        } else {
            BLE_GATT_CONFIDENCE
        },
    );
    let both = RatioPermille(
        if by_l2cap {
            BLE_L2CAP_CONFIDENCE
        } else {
            0
        },
    );
    LinkView {
        endpoint,
        profile: ble_link_profile(),
        state: LinkState {
            state: LinkRuntimeState::Active,
            median_rtt_ms: certain_belief(DurationMs(BLE_LINK_RTT_ESTIMATE_MS), tick),
            transfer_rate_bytes_per_sec: certain_belief(0u32, tick),
            stability_horizon_ms: certain_belief(DurationMs(BLE_LINK_VALID_FOR_MS), tick),
            loss_permille: RatioPermille(0),
            delivery_confidence_permille: certain_belief(confidence, tick),
            symmetry_permille: certain_belief(both, tick),
        },
    }
}

/// Gives a BLE event its place in logical time. A link observation is filled in with what its
/// endpoint supports; a payload is only stamped.
pub fn link_observation_from_ble_event(
    local_node_id: NodeId,
    event: TransportIngressEvent,
    observed_at_tick: Tick,
    order: OrderStamp,
) -> (observation: TransportObservation)
    ensures
        match event {
            TransportIngressEvent::LinkObserved {
                remote_node_id,
                link,
                source_class,
                evidence_class,
                origin_authentication,
            } => {
                &&& observation matches TransportObservation::LinkObserved {
                    remote_node_id: to,
                    observation: seen,
                }
                &&& to == remote_node_id
                &&& seen.value@ == observed_ble_link(link.endpoint@, observed_at_tick)
                &&& seen.source_class == source_class
                &&& seen.evidence_class == evidence_class
                &&& seen.origin_authentication == origin_authentication
                &&& seen.observed_at_tick == observed_at_tick
            },
            TransportIngressEvent::PayloadReceived { .. } => observation == observed_at(
                event,
                observed_at_tick,
            ),
        },
{
    match event {
        TransportIngressEvent::LinkObserved {
            remote_node_id,
            link,
            source_class,
            evidence_class,
            origin_authentication,
        } => {
            let meta = cast_evidence_meta(observed_at_tick, order);
            let endpoint = link.endpoint;
            let support = shape_ble_unicast_delivery_support(
                local_node_id,
                remote_node_id,
                &endpoint,
                meta,
                CastDeliveryPolicy::default(),
            ).unwrap();
            let value = link_from_unicast_delivery_support(endpoint, support, observed_at_tick);
            assert(value@ == observed_ble_link(endpoint@, observed_at_tick));
            TransportObservation::LinkObserved {
                remote_node_id,
                observation: Observation {
                    value,
                    source_class,
                    evidence_class,
                    origin_authentication,
                    observed_at_tick,
                },
            }
        },
        payload => payload.observe_at(observed_at_tick),
    }
}

/// A link of which only the endpoint is known, and whether it works.
pub open spec fn carrier_link(endpoint: LinkEndpointView, state: LinkRuntimeState) -> LinkView {
    LinkView {
        endpoint,
        profile: ble_link_profile(),
        state: LinkState {
            state,
            median_rtt_ms: Belief::Absent,
            transfer_rate_bytes_per_sec: Belief::Absent,
            stability_horizon_ms: Belief::Absent,
            loss_permille: RatioPermille(0),
            delivery_confidence_permille: Belief::Absent,
            symmetry_permille: Belief::Absent,
        },
    }
}

/// The raw event that a link to a peer works or fails.
pub open spec fn raw_link_event(
    remote_node_id: NodeId,
    endpoint: LinkEndpointView,
    state: LinkRuntimeState,
) -> IngressEventView {
    IngressEventView::LinkObserved {
        remote_node_id,
        link: carrier_link(endpoint, state),
        source_class: FactSourceClass::Local,
        evidence_class: RoutingEvidenceClass::DirectObservation,
        origin_authentication: OriginAuthenticationClass::Unauthenticated,
    }
}

fn raw_ble_link_event(
    remote_node_id: NodeId,
    endpoint: LinkEndpoint,
    state: LinkRuntimeState,
) -> (event: TransportIngressEvent)
    ensures
        event@ == raw_link_event(remote_node_id, endpoint@, state),
{
    TransportIngressEvent::LinkObserved {
        remote_node_id,
        link: Link {
            endpoint,
            profile: make_ble_link_profile(),
            state: LinkState {
                state,
                median_rtt_ms: Belief::Absent,
                transfer_rate_bytes_per_sec: Belief::Absent,
                stability_horizon_ms: Belief::Absent,
                loss_permille: RatioPermille(0),
                delivery_confidence_permille: Belief::Absent,
                symmetry_permille: Belief::Absent,
            },
        },
        source_class: FactSourceClass::Local,
        evidence_class: RoutingEvidenceClass::DirectObservation,
        origin_authentication: OriginAuthenticationClass::Unauthenticated,
    }
}

/// The raw event that a link to a peer works.
pub fn raw_ble_link_observed_event(
    remote_node_id: NodeId,
    endpoint: LinkEndpoint,
) -> (event: TransportIngressEvent)
    ensures
        event@ == raw_link_event(remote_node_id, endpoint@, LinkRuntimeState::Active),
{
    raw_ble_link_event(remote_node_id, endpoint, LinkRuntimeState::Active)
}

/// The raw event that a link to a peer fails.
pub fn raw_ble_link_faulted_event(
    remote_node_id: NodeId,
    endpoint: LinkEndpoint,
) -> (event: TransportIngressEvent)
    ensures
        event@ == raw_link_event(remote_node_id, endpoint@, LinkRuntimeState::Faulted),
{
    raw_ble_link_event(remote_node_id, endpoint, LinkRuntimeState::Faulted)
}

/// A BLE endpoint always supports delivery under the default policy, whatever its transport and its
/// size: over L2CAP with the same confidence in both directions, and over anything else with less
/// confidence and in one direction only. The support is between the two nodes that were asked about.
pub proof fn law_ble_endpoints_always_support_delivery(
    local_node_id: NodeId,
    remote_node_id: NodeId,
    endpoint: LinkEndpointView,
    tick: Tick,
    order: OrderStamp,
)
    ensures
        ({
            let meta = fresh_meta(tick, order);
            let observation = path_observation(local_node_id, remote_node_id, endpoint, meta);
            &&& meta.observed_at_tick == tick
            &&& meta.order == order
            &&& meta.evidence_age_ms.0 == 0
            &&& meta.valid_for_ms.0 == BLE_LINK_VALID_FOR_MS
            &&& unicast_support(observation, default_policy()) matches Some(support)
            &&& support.sender == local_node_id
            &&& support.receiver == remote_node_id
            &&& support.payload_bytes_max == endpoint.mtu_bytes
            &&& support.meta == meta
            &&& endpoint.transport_kind is BleL2cap ==> {
                &&& support.confidence_permille.0 == BLE_L2CAP_CONFIDENCE
                &&& support.bidirectional_confidence_permille.0 == BLE_L2CAP_CONFIDENCE
            }
            &&& !(endpoint.transport_kind is BleL2cap) ==> {
                &&& support.confidence_permille.0 == BLE_GATT_CONFIDENCE
                &&& support.bidirectional_confidence_permille.0 == 0
            }
        }),
{
}

/// A policy refuses an observation exactly for a reason: it is older than the policy or its own
/// validity allows, not confident enough in the directions that count, too small, or no receiver is
/// allowed at all.
pub proof fn law_support_is_refused_only_for_a_reason(
    observation: UnicastObservation,
    policy: CastDeliveryPolicy,
)
    ensures
        ({
            let directional = observation.directional_confidence_permille.0;
            let both = match observation.reverse_confirmation_permille {
                Some(reverse) => if reverse.0 <= directional {
                    reverse.0
                } else {
                    directional
                },
                None => 0,
            };
            let floor = policy.evidence.confidence_floor.0;
            let support = unicast_support(observation, policy);
            &&& support is None <==> {
                ||| observation.meta.evidence_age_ms.0 > policy.evidence.evidence_age_ms_max.0
                ||| observation.meta.evidence_age_ms.0 > observation.meta.valid_for_ms.0
                ||| directional < floor
                ||| policy.require_bidirectional && (both == 0 || both < floor)
                ||| observation.payload_bytes_max.0 < policy.evidence.payload_bytes_required.0
                ||| policy.evidence.receiver_count_max == 0
            }
            &&& support matches Some(given) ==> {
                &&& given.sender == observation.from
                &&& given.receiver == observation.to
                &&& given.confidence_permille.0 == if policy.require_bidirectional {
                    both
                } else {
                    directional
                }
                &&& given.bidirectional_confidence_permille.0 == both
                &&& given.payload_bytes_max == observation.payload_bytes_max
                &&& given.meta == observation.meta
            }
        }),
{
}

/// An observed BLE link is shown as working, at the very endpoint that was observed, and everything
/// that is believed of it is believed as of the tick at which it was observed. It is the link that
/// the support for its endpoint makes.
pub proof fn law_observed_link_is_what_its_endpoint_supports(
    local_node_id: NodeId,
    remote_node_id: NodeId,
    endpoint: LinkEndpointView,
    tick: Tick,
    order: OrderStamp,
)
    ensures
        ({
            let link = observed_ble_link(endpoint, tick);
            let support = unicast_support(
                path_observation(local_node_id, remote_node_id, endpoint, fresh_meta(tick, order)),
                default_policy(),
            )->0;
            &&& link == supported_link(endpoint, support, tick)
            &&& link.endpoint == endpoint
            &&& link.state.state is Active
            &&& link.state.loss_permille.0 == 0
            &&& link.state.median_rtt_ms == certain_belief(
                DurationMs(BLE_LINK_RTT_ESTIMATE_MS),
                tick,
            )
            &&& link.state.stability_horizon_ms == certain_belief(
                DurationMs(BLE_LINK_VALID_FOR_MS),
                tick,
            )
            &&& link.state.transfer_rate_bytes_per_sec == certain_belief(0u32, tick)
            &&& link.state.delivery_confidence_permille == certain_belief(
                support.confidence_permille,
                tick,
            )
            &&& link.state.symmetry_permille == certain_belief(
                support.bidirectional_confidence_permille,
                tick,
            )
            &&& link.profile.latency_floor_ms.0 == BLE_LINK_RTT_ESTIMATE_MS
            &&& link.profile.repair_capability is TransportRetransmit
            &&& link.profile.partition_recovery is LocalReconnect
        }),
{
    law_ble_endpoints_always_support_delivery(
        local_node_id,
        remote_node_id,
        endpoint,
        tick,
        order,
    );
}

/// A raw link event says of which node it is, where the link is and whether it works, and claims
/// nothing that was not measured. It is a local, direct and unauthenticated observation.
pub proof fn law_raw_link_event_claims_nothing_else(
    remote_node_id: NodeId,
    endpoint: LinkEndpointView,
    state: LinkRuntimeState,
)
    ensures
        raw_link_event(remote_node_id, endpoint, state) matches IngressEventView::LinkObserved {
            remote_node_id: to,
            link,
            source_class,
            evidence_class,
            origin_authentication,
        } && {
            &&& to == remote_node_id
            &&& link.endpoint == endpoint
            &&& link.state.state == state
            &&& link.state.median_rtt_ms is Absent
            &&& link.state.transfer_rate_bytes_per_sec is Absent
            &&& link.state.stability_horizon_ms is Absent
            &&& link.state.delivery_confidence_permille is Absent
            &&& link.state.symmetry_permille is Absent
            &&& link.state.loss_permille.0 == 0
            &&& link.profile == ble_link_profile()
            &&& source_class is Local
            &&& evidence_class is DirectObservation
            &&& origin_authentication is Unauthenticated
        },
{
}

/// A link that is observed is passed on for the same node and the same endpoint, as working, with the
/// provenance that it came with and as of the tick; a payload is only stamped.
pub proof fn law_observed_events_are_passed_on(
    local_node_id: NodeId,
    event: TransportIngressEvent,
    tick: Tick,
    order: OrderStamp,
    observation: TransportObservation,
)
    requires
        call_ensures(
            link_observation_from_ble_event,
            (local_node_id, event, tick, order),
            observation,
        ),
    ensures
        event is PayloadReceived ==> observation == observed_at(event, tick),
        event matches TransportIngressEvent::LinkObserved {
            remote_node_id,
            link,
            source_class,
            evidence_class,
            origin_authentication,
        } ==> {
            &&& observation matches TransportObservation::LinkObserved {
                remote_node_id: to,
                observation: seen,
            }
            &&& to == remote_node_id
            &&& seen.value@.endpoint == link.endpoint@
            &&& seen.value.state.state is Active
            &&& seen.value.state.delivery_confidence_permille == certain_belief(
                RatioPermille(
                    if link.endpoint@.transport_kind is BleL2cap {
                        BLE_L2CAP_CONFIDENCE
                    } else {
                        BLE_GATT_CONFIDENCE
                    },
                ),
                tick,
            )
            &&& seen.source_class == source_class
            &&& seen.evidence_class == evidence_class
            &&& seen.origin_authentication == origin_authentication
            &&& seen.observed_at_tick == tick
        },
{
}

} // verus!
