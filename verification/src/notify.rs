//! Which devices a notification goes to.

use crate::endpoint::DeviceId;
use crate::identity::NodeId;
use crate::ordered_map::OrderedMap;
use crate::session::PeerSessions;
use vstd::prelude::*;

verus! {

/// How the platform sends notifications.
#[derive(Clone, Copy, Debug, PartialEq, Eq, Structural)]
pub enum NotifyPlatform {
    /// Each subscriber is addressed on its own.
    Targeted,
    /// One notification reaches every subscriber of the characteristic, as with BlueZ.
    Broadcast,
}

/// Whether a peer subscribed to notifications.
pub open spec fn is_subscriber(sessions: Map<NodeId, PeerSessions>, node_id: NodeId) -> bool {
    sessions.contains_key(node_id) && sessions[node_id]@.subscribers.len() > 0
}

/// The receivers are exactly the subscribers.
pub open spec fn receivers_are_all_subscribers(
    sessions: Map<NodeId, PeerSessions>,
    receivers: Seq<NodeId>,
) -> bool {
    forall|node_id: NodeId| #[trigger]
        receivers.contains(node_id) <==> is_subscriber(sessions, node_id)
}

/// The addresses of a list of devices.
pub open spec fn device_names(devices: Seq<DeviceId>) -> Seq<Seq<char>> {
    devices.map_values(|d: DeviceId| d@)
}

fn contains_node(nodes: &Vec<NodeId>, node_id: NodeId) -> (found: bool)
    ensures
        found == nodes@.contains(node_id),
{
    let mut i: usize = 0;
    while i < nodes.len()
        invariant
            i <= nodes@.len(),
            forall|j: int| 0 <= j < i ==> nodes@[j] != node_id,
        decreases nodes@.len() - i,
    {
        if nodes[i] == node_id {
            return true;
        }
        i = i + 1;
    }
    false
}

fn covers_all_subscribers(
    sessions: &OrderedMap<NodeId, PeerSessions>,
    receivers: &Vec<NodeId>,
) -> (covered: bool)
    requires
        sessions.wf(),
    ensures
        covered == receivers_are_all_subscribers(sessions@, receivers@),
{
    let mut i: usize = 0;
    while i < receivers.len()
        invariant
            i <= receivers@.len(),
            sessions.wf(),
            forall|j: int| 0 <= j < i ==> is_subscriber(sessions@, #[trigger] receivers@[j]),
        decreases receivers@.len() - i,
    {
        let receiver = receivers[i];
        let subscribed = match sessions.get(&receiver) {
            Some(peer) => peer.notify_subscriber_device_id().is_some(),
            None => false,
        };
        if !subscribed {
            assert(receivers@.contains(receiver));
            return false;
        }
        i = i + 1;
    }
    let mut k: usize = 0;
    while k < sessions.len()
        invariant
            k <= sessions.keys().len(),
            sessions.wf(),
            forall|j: int|
                0 <= j < receivers@.len() ==> is_subscriber(sessions@, #[trigger] receivers@[j]),
            forall|j: int|
                0 <= j < k && is_subscriber(sessions@, sessions.keys()[j]) ==> receivers@.contains(
                    #[trigger] sessions.keys()[j],
                ),
        decreases sessions.keys().len() - k,
    {
        let node_id = sessions.key_at(k);
        if sessions.value_at(k).notify_subscriber_device_id().is_some() {
            if !contains_node(receivers, node_id) {
                assert(is_subscriber(sessions@, node_id));
                return false;
            }
        }
        k = k + 1;
    }
    proof {
        assert forall|node_id: NodeId| #[trigger]
            receivers@.contains(node_id) <==> is_subscriber(sessions@, node_id) by {
            if is_subscriber(sessions@, node_id) {
                let j = sessions.lemma_position(node_id);
                assert(sessions.keys()[j] == node_id);
            }
        }
    }
    true
}

/// The devices to notify, out of those that the receivers subscribed with. Where one notification
/// reaches every subscriber, it is sent once, and only if the receivers are exactly the
/// subscribers.
pub fn platform_notify_device_ids(
    sessions: &OrderedMap<NodeId, PeerSessions>,
    receivers: &Vec<NodeId>,
    device_ids: &Vec<DeviceId>,
    platform: NotifyPlatform,
) -> (targets: Option<Vec<DeviceId>>)
    requires
        sessions.wf(),
    ensures
        match platform {
            NotifyPlatform::Targeted => targets matches Some(devices) && device_names(devices@)
                == device_names(device_ids@),
            NotifyPlatform::Broadcast => if receivers_are_all_subscribers(sessions@, receivers@)
                && device_ids@.len() > 0 {
                targets matches Some(devices) && device_names(devices@) == seq![device_ids@[0]@]
            } else {
                targets is None
            },
        },
{
    match platform {
        NotifyPlatform::Targeted => {
            let mut devices: Vec<DeviceId> = Vec::new();
            let mut i: usize = 0;
            while i < device_ids.len()
                invariant
                    i <= device_ids@.len(),
                    devices@.len() == i,
                    forall|j: int| 0 <= j < i ==> (#[trigger] devices@[j])@ == device_ids@[j]@,
                decreases device_ids@.len() - i,
            {
                devices.push(device_ids[i].clone());
                i = i + 1;
            }
            assert(device_names(devices@) =~= device_names(device_ids@));
            Some(devices)
        },
        NotifyPlatform::Broadcast => {
            if !covers_all_subscribers(sessions, receivers) || device_ids.len() == 0 {
                return None;
            }
            let mut devices: Vec<DeviceId> = Vec::new();
            devices.push(device_ids[0].clone());
            assert(device_names(devices@) =~= seq![device_ids@[0]@]);
            Some(devices)
        },
    }
}

/// Where each subscriber is addressed on its own, every device that receivers subscribed with is
/// notified. Where one notification reaches every subscriber, it is sent once, at such a device, and
/// only if the receivers are exactly the subscribers, so that nobody else hears it.
pub proof fn law_notifications_reach_receivers_only(
    sessions: OrderedMap<NodeId, PeerSessions>,
    receivers: Vec<NodeId>,
    device_ids: Vec<DeviceId>,
    platform: NotifyPlatform,
    targets: Option<Vec<DeviceId>>,
)
    requires
        call_ensures(
            platform_notify_device_ids,
            (&sessions, &receivers, &device_ids, platform),
            targets,
        ),
    ensures
        platform == NotifyPlatform::Targeted ==> {
            &&& targets is Some
            &&& targets->0@.len() == device_ids@.len()
            &&& forall|i: int|
                0 <= i < device_ids@.len() ==> (#[trigger] targets->0@[i])@ == device_ids@[i]@
        },
        platform == NotifyPlatform::Broadcast ==> {
            let exact = forall|n: NodeId| #[trigger]
                receivers@.contains(n) <==> sessions@.contains_key(n)
                    && sessions@[n]@.subscribers.len() > 0;
            &&& targets is Some <==> exact && device_ids@.len() > 0
            &&& targets is Some ==> targets->0@.len() == 1 && targets->0@[0]@ == device_ids@[0]@
        },
{
    let exact = forall|n: NodeId| #[trigger]
        receivers@.contains(n) <==> sessions@.contains_key(n) && sessions@[n]@.subscribers.len()
            > 0;
    assert forall|n: NodeId| is_subscriber(sessions@, n) <==> sessions@.contains_key(n) && (
    #[trigger] sessions@[n])@.subscribers.len() > 0 by {}
    if exact {
        assert(receivers_are_all_subscribers(sessions@, receivers@));
    }
    if receivers_are_all_subscribers(sessions@, receivers@) {
        assert forall|n: NodeId| #[trigger]
            receivers@.contains(n) <==> sessions@.contains_key(n)
                && sessions@[n]@.subscribers.len() > 0 by {
            assert(is_subscriber(sessions@, n) <==> receivers@.contains(n));
        }
    }
    if let Some(devices) = targets {
        assert(device_names(devices@).len() == devices@.len());
        let names = device_names(devices@);
        assert forall|i: int| 0 <= i < devices@.len() implies names[i] == (
        #[trigger] devices@[i])@ by {}
        assert(device_names(device_ids@).len() == device_ids@.len());
        assert forall|i: int| 0 <= i < device_ids@.len() implies device_names(device_ids@)[i] == (
        #[trigger] device_ids@[i])@ by {}
        if platform == NotifyPlatform::Targeted {
            assert forall|i: int| 0 <= i < device_ids@.len() implies (#[trigger] devices@[i])@
                == device_ids@[i]@ by {
                assert(names[i] == device_names(device_ids@)[i]);
            }
        } else {
            assert(names[0] == device_ids@[0]@);
        }
    }
}

} // verus!
