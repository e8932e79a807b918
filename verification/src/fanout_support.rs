//! The calls into `jacquard-cast-support` and `jacquard-router` that admit a multicast group.

use crate::identity::{MulticastGroupId, NodeId};
use jacquard_cast_support::{
    CastEvidenceMeta, CastEvidencePolicy, CastGroupId, MulticastObservation,
    ReceiverCoverageObservation,
};
use jacquard_core::{
    ByteCount, DeliveryCompatibilityPolicy, DurationMs, EndpointLocator, LinkEndpoint,
    MulticastGroupId as CoreGroupId, NodeId as CoreNodeId, OrderStamp, RatioPermille,
    RouteDeliveryObjective, Tick, TransportDeliveryIntent, TransportDeliverySupport, TransportKind,
};
use vstd::prelude::*;

verus! {

/// How many receivers one transmission may fan out to.
pub const CAST_FANOUT_COUNT_MAX: u32 = 8;

/// How many receivers a group may have.
pub const CAST_GROUP_COVERAGE_COUNT_MAX: u32 = 32;

/// How old evidence may be.
pub const CAST_EVIDENCE_AGE_MS_MAX: u32 = 30_000;

/// Whether an observation of a group becomes evidence: it is fresh, its fanout and its size are
/// within the limits, it has a receiver, and there is some confidence in it.
pub open spec fn fanout_counts(
    receivers: nat,
    confidence: u16,
    fanout_limit: u32,
    meta: (u64, u32, u32, u64),
) -> bool {
    &&& meta.1 <= CAST_EVIDENCE_AGE_MS_MAX
    &&& meta.1 <= meta.2
    &&& fanout_limit <= CAST_FANOUT_COUNT_MAX
    &&& 0 < receivers <= CAST_GROUP_COVERAGE_COUNT_MAX
    &&& confidence >= 1
}

/// A list of nodes that holds each node of another list once, in order.
pub open spec fn each_once_in_order(listed: Seq<NodeId>, nodes: Seq<NodeId>) -> bool {
    crate::ordered_map::ascending(listed) && listed.to_set() == nodes.to_set()
}

/// `jacquard_cast_support::shape_multicast_evidence` on one observation, with the same confidence in
/// every receiver, under that crate's default policy.
///
/// `meta` is tick, age, validity and order. The observation becomes evidence exactly if
/// [`fanout_counts`] holds, whatever its payload: the default policy requires none. What is handed
/// back are the receivers of the evidence, each once, in order of their identity.
#[verifier::external_body]
pub(crate) fn shape_fanout_evidence(
    sender: NodeId,
    group_id: MulticastGroupId,
    receivers: &Vec<NodeId>,
    confidence: u16,
    fanout_limit: u32,
    payload: u64,
    meta: (u64, u32, u32, u64),
) -> (covered: Option<Vec<NodeId>>)
    ensures
        match covered {
            Some(covered) => fanout_counts(receivers@.len(), confidence, fanout_limit, meta) && each_once_in_order(covered@, receivers@),
            None => !fanout_counts(receivers@.len(), confidence, fanout_limit, meta),
        },
{
    let confidence_permille = RatioPermille(confidence);
    let observation = MulticastObservation {
        sender: CoreNodeId(sender.0),
        group_id: CastGroupId(CoreGroupId(group_id.0)),
        receivers: receivers.iter().map(|node| ReceiverCoverageObservation { receiver: CoreNodeId(node.0), confidence_permille }).collect(),
        group_pressure_permille: RatioPermille(0),
        fanout_limit,
        payload_bytes_max: ByteCount(payload),
        meta: CastEvidenceMeta::new(Tick(meta.0), DurationMs(meta.1), DurationMs(meta.2), OrderStamp(meta.3)),
    };
    let (evidence, _) = jacquard_cast_support::shape_multicast_evidence([observation], CastEvidencePolicy::default());
    evidence.first().map(|item| item.receivers.iter().map(|node| NodeId(node.receiver.0)).collect())
}

/// Whether a group is admitted: it is the supported group, and its wanted receivers are supported.
pub open spec fn fanout_admitted(
    wanted_group: MulticastGroupId,
    wanted: Seq<NodeId>,
    supported_group: MulticastGroupId,
    supported: Seq<NodeId>,
) -> bool {
    &&& wanted_group == supported_group
    &&& forall|i: int| 0 <= i < wanted.len() ==> supported.contains(#[trigger] wanted[i])
}

/// `jacquard_router::admitted_delivery_intent` for a group that is to be delivered exactly as asked.
///
/// The group is admitted exactly if [`fanout_admitted`] holds; the intent then names the supported
/// receivers. The only rejection is that the delivery is not supported. The endpoint of the support
/// only passes through this call, so it is given none.
#[verifier::external_body]
pub(crate) fn admit_fanout(
    wanted_group: MulticastGroupId,
    wanted: &Vec<NodeId>,
    supported_group: MulticastGroupId,
    supported: &Vec<NodeId>,
) -> (admitted: Option<Vec<NodeId>>)
    ensures
        match admitted {
            Some(admitted) => fanout_admitted(wanted_group, wanted@, supported_group, supported@) && admitted@ == supported@,
            None => !fanout_admitted(wanted_group, wanted@, supported_group, supported@),
        },
{
    let endpoint = LinkEndpoint::new(TransportKind::BleGatt, EndpointLocator::Opaque(Vec::new()), ByteCount(0));
    let receivers = supported.iter().map(|node| CoreNodeId(node.0)).collect();
    let support = TransportDeliverySupport::Multicast { endpoint, group_id: CoreGroupId(supported_group.0), receivers };
    let receivers = wanted.iter().map(|node| CoreNodeId(node.0)).collect();
    let objective = RouteDeliveryObjective::MulticastGroup { group_id: CoreGroupId(wanted_group.0), receivers };
    let policy = DeliveryCompatibilityPolicy::ExactDeliveryOnly;
    match jacquard_router::admitted_delivery_intent(&objective, &support, policy) {
        Ok(TransportDeliveryIntent::Multicast { receivers, .. }) => Some(receivers.iter().map(|node| NodeId(node.0)).collect()),
        _ => None,
    }
}

} // verus!
