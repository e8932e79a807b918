//! Multicast over notifications: who can be reached, and which groups are admitted.

use crate::cast::{cast_evidence_meta, BLE_GATT_CONFIDENCE};
use crate::delivery::{DeliveryIntentView, MulticastSupport, TransportDeliveryIntent};
use crate::errors::RouteAdmissionRejection;
use crate::fanout_support::{
    admit_fanout, each_once_in_order, shape_fanout_evidence, CAST_FANOUT_COUNT_MAX,
};
use crate::gatt::{gatt_notify_fanout_endpoint, notify_fanout_view, GATT_MTU_BYTES};
use crate::identity::{MulticastGroupId, NodeId, OrderStamp, Tick};
use crate::link::{LinkRuntimeState, ObservationView, TransportObservation};
use crate::ordered_map::OrderedMap;
use vstd::prelude::*;

verus! {

/// Whether a group can be reached by notifications: it has a receiver, and no more of them than one
/// transmission may fan out to.
pub open spec fn fanout_fits(receivers: nat) -> bool {
    0 < receivers <= CAST_FANOUT_COUNT_MAX
}

/// The support that notifications give to a group of receivers.
pub fn gatt_notify_multicast_support(
    local_node_id: NodeId,
    group_id: MulticastGroupId,
    receivers: &Vec<NodeId>,
    observed_at_tick: Tick,
    order: OrderStamp,
) -> (support: Option<MulticastSupport>)
    ensures
        match support {
            Some(support) => {
                &&& fanout_fits(receivers@.len())
                &&& support.endpoint@ == notify_fanout_view()
                &&& support.group_id == group_id
                &&& each_once_in_order(support.receivers@, receivers@)
            },
            None => !fanout_fits(receivers@.len()),
        },
{
    if receivers.len() > CAST_FANOUT_COUNT_MAX as usize {
        return None;
    }
    let meta = cast_evidence_meta(observed_at_tick, order);
    let covered = shape_fanout_evidence(
        local_node_id,
        group_id,
        receivers,
        BLE_GATT_CONFIDENCE,
        receivers.len() as u32,
        GATT_MTU_BYTES,
        (
            meta.observed_at_tick.0,
            meta.evidence_age_ms.0,
            meta.valid_for_ms.0,
            meta.order.0,
        ),
    );
    match covered {
        Some(receivers) => Some(
            MulticastSupport { endpoint: gatt_notify_fanout_endpoint(), group_id, receivers },
        ),
        None => None,
    }
}

/// Admits a group for delivery over notifications, exactly as asked.
pub fn admit_notify_multicast(
    group_id: MulticastGroupId,
    receivers: &Vec<NodeId>,
    support: MulticastSupport,
) -> (result: Result<TransportDeliveryIntent, RouteAdmissionRejection>)
    ensures
        match result {
            Ok(intent) => {
                &&& group_id == support.group_id
                &&& forall|i: int|
                    0 <= i < receivers@.len() ==> support.receivers@.contains(
                        #[trigger] receivers@[i],
                    )
                &&& intent@ == (DeliveryIntentView::Multicast {
                    endpoint: support.endpoint@,
                    group_id: support.group_id,
                    receivers: support.receivers@,
                })
            },
            Err(rejection) => {
                &&& rejection == RouteAdmissionRejection::DeliveryAssumptionUnsupported
                &&& group_id != support.group_id || exists|i: int|
                    0 <= i < receivers@.len() && !support.receivers@.contains(
                        #[trigger] receivers@[i],
                    )
            },
        },
{
    match admit_fanout(group_id, receivers, support.group_id, &support.receivers) {
        Some(admitted) => Ok(
            TransportDeliveryIntent::Multicast {
                endpoint: support.endpoint,
                group_id: support.group_id,
                receivers: admitted,
            },
        ),
        None => Err(RouteAdmissionRejection::DeliveryAssumptionUnsupported),
    }
}

/// The subscribers that are left after an observation. Only links of the fanout endpoint count: one
/// that works makes its node a subscriber as of then, one that failed ends the subscription.
pub open spec fn subscribers_after(
    subscribers: Map<NodeId, Tick>,
    observation: ObservationView,
) -> Map<NodeId, Tick> {
    match observation {
        ObservationView::LinkObserved {
            remote_node_id,
            observation,
        } => if observation.value.endpoint != notify_fanout_view() {
            subscribers
        } else if observation.value.state.state == LinkRuntimeState::Faulted {
            subscribers.remove(remote_node_id)
        } else {
            subscribers.insert(remote_node_id, observation.observed_at_tick)
        },
        ObservationView::PayloadReceived { .. } => subscribers,
    }
}

/// Whether an observation is of a link of the fanout endpoint.
pub fn is_multicast_fanout_observation(observation: &TransportObservation) -> (found: bool)
    ensures
        found == (observation@ matches ObservationView::LinkObserved { observation, .. }
            && observation.value.endpoint == notify_fanout_view()),
{
    match observation {
        TransportObservation::LinkObserved { observation, .. } => observation.value.endpoint
            == gatt_notify_fanout_endpoint(),
        TransportObservation::PayloadReceived { .. } => false,
    }
}

/// The latest time at which any of some receivers was seen, among those that are subscribers.
pub open spec fn latest_seen(subscribers: Map<NodeId, Tick>, receivers: Seq<NodeId>) -> Tick
    decreases receivers.len(),
{
    if receivers.len() == 0 {
        Tick(0)
    } else {
        let earlier = latest_seen(subscribers, receivers.drop_last());
        if subscribers.contains_key(receivers.last()) && subscribers[receivers.last()].0
            > earlier.0 {
            subscribers[receivers.last()]
        } else {
            earlier
        }
    }
}

/// Who can be reached by notifications, and since when that is known.
#[derive(Debug)]
pub struct MulticastAdmission {
    pub subscribers: OrderedMap<NodeId, Tick>,
}

impl MulticastAdmission {
    pub open spec fn wf(&self) -> bool {
        self.subscribers.wf()
    }

    /// Nobody can be reached.
    pub fn new() -> (admission: Self)
        ensures
            admission.wf(),
            admission.subscribers@ == Map::<NodeId, Tick>::empty(),
    {
        MulticastAdmission { subscribers: OrderedMap::new() }
    }

    /// Takes an observation into account.
    pub fn ingest_transport_observation(&mut self, observation: &TransportObservation)
        requires
            old(self).wf(),
        ensures
            final(self).wf(),
            final(self).subscribers@ == subscribers_after(old(self).subscribers@, observation@),
    {
        match observation {
            TransportObservation::LinkObserved { remote_node_id, observation } => {
                if observation.value.endpoint != gatt_notify_fanout_endpoint() {
                    return ;
                }
                if observation.value.state.state == LinkRuntimeState::Faulted {
                    let _ = self.subscribers.remove(remote_node_id);
                } else {
                    let _ = self.subscribers.insert(*remote_node_id, observation.observed_at_tick);
                }
            },
            TransportObservation::PayloadReceived { .. } => {},
        }
    }

    /// The latest time at which any of some receivers was seen.
    pub fn latest_observed_tick(&self, receivers: &Vec<NodeId>) -> (tick: Tick)
        requires
            self.wf(),
        ensures
            tick == latest_seen(self.subscribers@, receivers@),
    {
        let mut latest = Tick(0);
        let mut i: usize = 0;
        let ghost all = receivers@;
        while i < receivers.len()
            invariant
                self.wf(),
                all == receivers@,
                i <= all.len(),
                latest == latest_seen(self.subscribers@, all.take(i as int)),
            decreases all.len() - i,
        {
            assert(all.take(i + 1).drop_last() =~= all.take(i as int));
            if let Some(tick) = self.subscribers.get(&receivers[i]) {
                if tick.0 > latest.0 {
                    latest = *tick;
                }
            }
            i = i + 1;
        }
        assert(all.take(i as int) =~= all);
        latest
    }

    /// The support for a group of receivers. Only groups that consist of subscribers are supported.
    pub fn support_for(
        &self,
        local_node_id: NodeId,
        group_id: MulticastGroupId,
        receivers: &Vec<NodeId>,
    ) -> (result: Result<MulticastSupport, RouteAdmissionRejection>)
        requires
            self.wf(),
        ensures
            match result {
                Ok(support) => {
                    &&& fanout_fits(receivers@.len())
                    &&& all_subscribe(self.subscribers@, receivers@)
                    &&& support.endpoint@ == notify_fanout_view()
                    &&& support.group_id == group_id
                    &&& each_once_in_order(support.receivers@, receivers@)
                },
                Err(rejection) => {
                    &&& rejection == RouteAdmissionRejection::DeliveryAssumptionUnsupported
                    &&& !(fanout_fits(receivers@.len()) && all_subscribe(
                        self.subscribers@,
                        receivers@,
                    ))
                },
            },
    {
        if receivers.len() == 0 {
            return Err(RouteAdmissionRejection::DeliveryAssumptionUnsupported);
        }
        let mut i: usize = 0;
        while i < receivers.len()
            invariant
                self.wf(),
                i <= receivers@.len(),
                forall|j: int|
                    0 <= j < i ==> self.subscribers@.contains_key(#[trigger] receivers@[j]),
            decreases receivers@.len() - i,
        {
            if !self.subscribers.contains_key(&receivers[i]) {
                assert(!self.subscribers@.contains_key(receivers@[i as int]));
                return Err(RouteAdmissionRejection::DeliveryAssumptionUnsupported);
            }
            i = i + 1;
        }
        let latest = self.latest_observed_tick(receivers);
        match gatt_notify_multicast_support(
            local_node_id,
            group_id,
            receivers,
            latest,
            OrderStamp(0),
        ) {
            Some(support) => Ok(support),
            None => Err(RouteAdmissionRejection::DeliveryAssumptionUnsupported),
        }
    }
}

/// Whether every receiver is a subscriber.
pub open spec fn all_subscribe(subscribers: Map<NodeId, Tick>, receivers: Seq<NodeId>) -> bool {
    forall|i: int| 0 <= i < receivers.len() ==> subscribers.contains_key(#[trigger] receivers[i])
}

/// A group that is supported for its own receivers is always admitted, and delivered to exactly
/// those receivers.
pub proof fn law_supported_group_is_admitted(
    group_id: MulticastGroupId,
    receivers: Seq<NodeId>,
    supported: Seq<NodeId>,
)
    requires
        each_once_in_order(supported, receivers),
    ensures
        crate::fanout_support::fanout_admitted(group_id, receivers, group_id, supported),
        forall|node: NodeId| #[trigger] supported.contains(node) <==> receivers.contains(node),
{
    assert forall|node: NodeId| #[trigger] supported.contains(node) <==> receivers.contains(
        node,
    ) by {
        assert(supported.to_set().contains(node) <==> supported.contains(node));
        assert(receivers.to_set().contains(node) <==> receivers.contains(node));
    }
    assert forall|i: int| 0 <= i < receivers.len() implies supported.contains(
        #[trigger] receivers[i],
    ) by {
        assert(receivers.contains(receivers[i]));
    }
}

/// Nobody is reached by notifications who did not subscribe: a node becomes a subscriber only by a
/// working link of the fanout endpoint, and is none after that link failed.
pub proof fn law_only_subscribers_are_reached(
    subscribers: Map<NodeId, Tick>,
    observation: ObservationView,
    node_id: NodeId,
)
    ensures
        subscribers_after(subscribers, observation).contains_key(node_id)
            && !subscribers.contains_key(node_id) ==> {
            &&& observation matches ObservationView::LinkObserved {
                remote_node_id,
                observation: seen,
            }
            &&& remote_node_id == node_id
            &&& seen.value.endpoint == notify_fanout_view()
            &&& seen.value.state.state != LinkRuntimeState::Faulted
        },
        observation matches ObservationView::LinkObserved { remote_node_id, observation: seen }
            && remote_node_id == node_id && seen.value.endpoint == notify_fanout_view()
            && seen.value.state.state == LinkRuntimeState::Faulted ==> !subscribers_after(
            subscribers,
            observation,
        ).contains_key(node_id),
{
}

/// Whoever shows a working link of the fanout endpoint is a subscriber as of then, in whichever state
/// but failed the link is. No observation says anything of another node, and nothing else says
/// anything at all.
pub proof fn law_working_fanout_link_makes_a_subscriber(
    subscribers: Map<NodeId, Tick>,
    observation: ObservationView,
    node_id: NodeId,
)
    ensures
        ({
            let after = subscribers_after(subscribers, observation);
            let concerns = observation is LinkObserved && observation->LinkObserved_remote_node_id
                == node_id && observation->LinkObserved_observation.value.endpoint
                == notify_fanout_view();
            let failed = observation->LinkObserved_observation.value.state.state is Faulted;
            &&& concerns && !failed ==> after.contains_key(node_id) && after[node_id]
                == observation->LinkObserved_observation.observed_at_tick
            &&& concerns && failed ==> !after.contains_key(node_id)
            &&& !concerns ==> (after.contains_key(node_id) <==> subscribers.contains_key(node_id))
                && after[node_id] == subscribers[node_id]
        }),
{
}

/// A group can be reached by notifications exactly if it has between one and eight receivers.
pub proof fn law_groups_of_up_to_eight_fit(receivers: nat)
    ensures
        fanout_fits(receivers) <==> 1 <= receivers <= 8,
{
}

/// The latest time at which a group was seen is no earlier than that of any of its subscribers, and is
/// that of one of them; a group without subscribers was seen at the first tick.
pub proof fn law_latest_seen_is_the_latest(
    subscribers: Map<NodeId, Tick>,
    receivers: Seq<NodeId>,
)
    ensures
        forall|i: int|
            0 <= i < receivers.len() && subscribers.contains_key(#[trigger] receivers[i])
                ==> subscribers[receivers[i]].0 <= latest_seen(subscribers, receivers).0,
        latest_seen(subscribers, receivers) == Tick(0) || exists|i: int|
            0 <= i < receivers.len() && subscribers.contains_key(#[trigger] receivers[i])
                && subscribers[receivers[i]] == latest_seen(subscribers, receivers),
    decreases receivers.len(),
{
    if receivers.len() > 0 {
        let fewer = receivers.drop_last();
        law_latest_seen_is_the_latest(subscribers, fewer);
        assert forall|i: int|
            0 <= i < receivers.len() && subscribers.contains_key(
                #[trigger] receivers[i],
            ) implies subscribers[receivers[i]].0 <= latest_seen(subscribers, receivers).0 by {
            if i < fewer.len() {
                assert(fewer[i] == receivers[i]);
            }
        }
        let latest = latest_seen(subscribers, receivers);
        let earlier = latest_seen(subscribers, fewer);
        if latest == earlier {
            if latest != Tick(0) {
                let i = choose|i: int|
                    0 <= i < fewer.len() && subscribers.contains_key(#[trigger] fewer[i])
                        && subscribers[fewer[i]] == earlier;
                assert(receivers[i] == fewer[i]);
            }
        } else {
            assert(subscribers.contains_key(receivers[receivers.len() - 1]));
        }
    }
}

/// A group is supported exactly if it has between one and eight receivers and all of them subscribed;
/// the support is for that group, at the fanout endpoint, and covers its receivers.
pub proof fn law_subscribed_groups_are_supported(
    admission: MulticastAdmission,
    local_node_id: NodeId,
    group_id: MulticastGroupId,
    receivers: Vec<NodeId>,
    result: Result<MulticastSupport, RouteAdmissionRejection>,
)
    requires
        call_ensures(
            MulticastAdmission::support_for,
            (&admission, local_node_id, group_id, &receivers),
            result,
        ),
    ensures
        result is Ok <==> 1 <= receivers@.len() <= 8 && forall|i: int|
            0 <= i < receivers@.len() ==> admission.subscribers@.contains_key(
                #[trigger] receivers@[i],
            ),
        result matches Ok(support) ==> {
            &&& support.endpoint@ == notify_fanout_view()
            &&& support.group_id == group_id
            &&& forall|node: NodeId| #[trigger]
                support.receivers@.contains(node) <==> receivers@.contains(node)
        },
        result matches Err(rejection) ==> rejection is DeliveryAssumptionUnsupported,
{
    law_groups_of_up_to_eight_fit(receivers@.len());
    if let Ok(support) = result {
        law_supported_group_is_admitted(group_id, receivers@, support.receivers@);
    }
}

} // verus!
