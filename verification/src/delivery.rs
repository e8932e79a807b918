//! How a payload is to reach its receivers.

use crate::endpoint::{LinkEndpoint, LinkEndpointView};
use crate::identity::{BroadcastDomainId, MulticastGroupId, NodeId};
use vstd::prelude::*;

verus! {

/// Whether a payload goes to one receiver, to a group, or to whoever is near.
#[derive(Clone, Copy, Debug, PartialEq, Eq, Structural)]
pub enum TransportDeliveryMode {
    Unicast,
    Multicast,
    Broadcast,
}

/// Where a payload goes.
#[derive(Debug)]
pub enum TransportDeliveryIntent {
    Unicast { endpoint: LinkEndpoint },
    Multicast { endpoint: LinkEndpoint, group_id: MulticastGroupId, receivers: Vec<NodeId> },
    Broadcast { endpoint: LinkEndpoint, domain_id: BroadcastDomainId },
}

/// What a [`TransportDeliveryIntent`] says.
pub ghost enum DeliveryIntentView {
    Unicast { endpoint: LinkEndpointView },
    Multicast { endpoint: LinkEndpointView, group_id: MulticastGroupId, receivers: Seq<NodeId> },
    Broadcast { endpoint: LinkEndpointView, domain_id: BroadcastDomainId },
}

impl View for TransportDeliveryIntent {
    type V = DeliveryIntentView;

    open spec fn view(&self) -> DeliveryIntentView {
        match self {
            TransportDeliveryIntent::Unicast { endpoint } => DeliveryIntentView::Unicast {
                endpoint: endpoint@,
            },
            TransportDeliveryIntent::Multicast {
                endpoint,
                group_id,
                receivers,
            } => DeliveryIntentView::Multicast {
                endpoint: endpoint@,
                group_id: *group_id,
                receivers: receivers@,
            },
            TransportDeliveryIntent::Broadcast {
                endpoint,
                domain_id,
            } => DeliveryIntentView::Broadcast { endpoint: endpoint@, domain_id: *domain_id },
        }
    }
}

/// The endpoint that an intent names.
pub open spec fn intent_endpoint(intent: DeliveryIntentView) -> LinkEndpointView {
    match intent {
        DeliveryIntentView::Unicast { endpoint } => endpoint,
        DeliveryIntentView::Multicast { endpoint, .. } => endpoint,
        DeliveryIntentView::Broadcast { endpoint, .. } => endpoint,
    }
}

/// The mode of an intent.
pub open spec fn intent_mode(intent: DeliveryIntentView) -> TransportDeliveryMode {
    match intent {
        DeliveryIntentView::Unicast { .. } => TransportDeliveryMode::Unicast,
        DeliveryIntentView::Multicast { .. } => TransportDeliveryMode::Multicast,
        DeliveryIntentView::Broadcast { .. } => TransportDeliveryMode::Broadcast,
    }
}

impl TransportDeliveryIntent {
    /// An intent for one receiver.
    pub fn unicast(endpoint: LinkEndpoint) -> (intent: Self)
        ensures
            intent@ == (DeliveryIntentView::Unicast { endpoint: endpoint@ }),
    {
        TransportDeliveryIntent::Unicast { endpoint }
    }

    pub fn mode(&self) -> (mode: TransportDeliveryMode)
        ensures
            mode == intent_mode(self@),
    {
        match self {
            TransportDeliveryIntent::Unicast { .. } => TransportDeliveryMode::Unicast,
            TransportDeliveryIntent::Multicast { .. } => TransportDeliveryMode::Multicast,
            TransportDeliveryIntent::Broadcast { .. } => TransportDeliveryMode::Broadcast,
        }
    }

    pub fn endpoint(&self) -> (endpoint: &LinkEndpoint)
        ensures
            endpoint@ == intent_endpoint(self@),
    {
        match self {
            TransportDeliveryIntent::Unicast { endpoint } => endpoint,
            TransportDeliveryIntent::Multicast { endpoint, .. } => endpoint,
            TransportDeliveryIntent::Broadcast { endpoint, .. } => endpoint,
        }
    }
}

/// A group that the transport can reach as a whole.
#[derive(Debug)]
pub struct MulticastSupport {
    pub endpoint: LinkEndpoint,
    pub group_id: MulticastGroupId,
    pub receivers: Vec<NodeId>,
}

/// An intent is of the kind that it was made as, and names the endpoint that it was made with.
pub proof fn law_intent_says_how_and_where(intent: DeliveryIntentView)
    ensures
        intent_mode(intent) == TransportDeliveryMode::Unicast <==> intent is Unicast,
        intent_mode(intent) == TransportDeliveryMode::Multicast <==> intent is Multicast,
        intent_mode(intent) == TransportDeliveryMode::Broadcast <==> intent is Broadcast,
        intent is Unicast ==> intent_endpoint(intent) == intent->Unicast_endpoint,
        intent is Multicast ==> intent_endpoint(intent) == intent->Multicast_endpoint,
        intent is Broadcast ==> intent_endpoint(intent) == intent->Broadcast_endpoint,
{
}

} // verus!
