//! The calls into `jacquard-cast-support`, on plain numbers.

use jacquard_cast_support::{
    CastDeliveryObjective, CastDeliveryPolicy, CastEvidenceBounds, CastEvidenceMeta,
    CastEvidencePolicy, UnicastEvidence, UnicastObservation, UnicastSupportKind,
};
use jacquard_core::{ByteCount, DurationMs, NodeId, OrderStamp, RatioPermille, Tick};
use vstd::prelude::*;

verus! {

/// The confidence in both directions: the lower of the two, and none without a confirmation.
pub open spec fn bidirectional_confidence(directional: u16, reverse: Option<u16>) -> u16 {
    match reverse {
        Some(confirmed) => if confirmed < directional {
            confirmed
        } else {
            directional
        },
        None => 0,
    }
}

/// The confidence in both directions of an observation that is fresh, confident and large enough.
pub open spec fn shaped_evidence(
    confidence: (u16, Option<u16>),
    payload: u64,
    meta: (u64, u32, u32, u64),
    policy: (u32, u32, u16, u64),
) -> Option<u16> {
    if meta.1 <= policy.1 && meta.1 <= meta.2 && confidence.0 >= policy.2 && payload >= policy.3
        && policy.0 >= 1 {
        Some(bidirectional_confidence(confidence.0, confidence.1))
    } else {
        None
    }
}

/// The confidence that counts for delivery, where it is enough.
pub open spec fn shaped_support(
    confirmed: bool,
    confidence: (u16, u16),
    payload: u64,
    policy: (bool, u16, u64),
) -> Option<u16> {
    let counted = if policy.0 {
        confidence.1
    } else {
        confidence.0
    };
    if (policy.0 ==> confirmed) && payload >= policy.2 && counted >= policy.1 {
        Some(counted)
    } else {
        None
    }
}

/// `jacquard_cast_support::shape_unicast_evidence` on one observation.
///
/// `confidence` is directional and reverse, `meta` is tick, age, validity and order, `policy` is
/// the receiver limit, the age limit, the confidence floor and the payload that is required. The
/// observation becomes evidence exactly if its age is within the limit and its own validity, its
/// confidence reaches the floor, its payload reaches what is required, and a receiver is allowed.
/// What is handed back is the evidence's confidence in both directions; whether that is zero tells
/// the kind of support, and the rest of the evidence is the observation unchanged.
#[verifier::external_body]
pub(crate) fn shape_evidence(
    ends: ([u8; 32], [u8; 32]),
    confidence: (u16, Option<u16>),
    payload: u64,
    meta: (u64, u32, u32, u64),
    policy: (u32, u32, u16, u64),
) -> (evidence: Option<u16>)
    ensures
        evidence == shaped_evidence(confidence, payload, meta, policy),
{
    let meta = CastEvidenceMeta::new(Tick(meta.0), DurationMs(meta.1), DurationMs(meta.2), OrderStamp(meta.3));
    let bounds = CastEvidenceBounds { receiver_count_max: policy.0, evidence_age_ms_max: DurationMs(policy.1), ..Default::default() };
    let policy = CastEvidencePolicy { bounds, confidence_floor: RatioPermille(policy.2), payload_bytes_required: ByteCount(policy.3) };
    let observation = UnicastObservation {
        from: NodeId(ends.0),
        to: NodeId(ends.1),
        directional_confidence_permille: RatioPermille(confidence.0),
        reverse_confirmation_permille: confidence.1.map(RatioPermille),
        payload_bytes_max: ByteCount(payload),
        meta,
    };
    let (evidence, _) = jacquard_cast_support::shape_unicast_evidence([observation], policy);
    evidence.first().map(|item| item.bidirectional_confidence_permille.0)
}

/// `jacquard_cast_support::shape_unicast_delivery_support` on one piece of evidence, for delivery
/// between its own two ends.
///
/// `confidence` is directional and bidirectional, `policy` is whether both directions are required,
/// the confidence floor and the payload that is required. There is support exactly if both
/// directions are confirmed where that is required, the payload reaches what is required, and the
/// confidence that counts reaches the floor; that confidence is handed back. The time stamps of
/// evidence only pass through this call, so it is given none.
#[verifier::external_body]
pub(crate) fn shape_support(
    ends: ([u8; 32], [u8; 32]),
    confirmed: bool,
    confidence: (u16, u16),
    payload: u64,
    policy: (bool, u16, u64),
) -> (support: Option<u16>)
    ensures
        support == shaped_support(confirmed, confidence, payload, policy),
{
    let support = if confirmed { UnicastSupportKind::BidirectionalConfirmed } else { UnicastSupportKind::DirectionalOnly };
    let (from, to) = (NodeId(ends.0), NodeId(ends.1));
    let evidence = UnicastEvidence {
        from, to, support,
        directional_confidence_permille: RatioPermille(confidence.0),
        reverse_confirmation_permille: None,
        bidirectional_confidence_permille: RatioPermille(confidence.1), payload_bytes_max: ByteCount(payload),
        meta: CastEvidenceMeta::new(Tick(0), DurationMs(0), DurationMs(0), OrderStamp(0))
    };
    let mut rules = CastDeliveryPolicy::default();
    rules.require_bidirectional = policy.0;
    rules.evidence.confidence_floor = RatioPermille(policy.1);
    rules.evidence.payload_bytes_required = ByteCount(policy.2);
    let (found, _) = jacquard_cast_support::shape_unicast_delivery_support(&[evidence], &CastDeliveryObjective::unicast(from, to), rules);
    found.first().map(|item| item.confidence_permille.0)
}

} // verus!
