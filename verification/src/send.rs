//! Sending a payload to a node, step by step.
//!
//! Each step decides what to do next; whoever runs it asks the router or the transport, and hands
//! the answer to the next step. A route that was used before is tried first, and a new one is
//! activated where that fails.

use crate::client::{
    no_candidate, neighbor_endpoint, queue_payload_on_route, receipt_for, selected_neighbor_of,
    send_receipt, JacquardBleSendReceipt, QueuedTransportCommand,
};
use crate::delivery::{DeliveryIntentView, TransportDeliveryIntent};
use crate::errors::{BleClientError, RouteError, TransportError};
use crate::identity::{NodeId, RouteId};
use crate::ordered_map::OrderedMap;
use crate::topology::{edge_views, MeshTopology};
use vstd::prelude::*;

verus! {

/// The routes that were used before, by destination.
#[derive(Debug)]
pub struct RouteCache {
    pub routes: OrderedMap<NodeId, RouteId>,
}

impl RouteCache {
    pub open spec fn wf(&self) -> bool {
        self.routes.wf()
    }

    /// No route was used yet.
    pub fn new() -> (cache: Self)
        ensures
            cache.wf(),
            cache.routes@ == Map::<NodeId, RouteId>::empty(),
    {
        RouteCache { routes: OrderedMap::new() }
    }
}

/// A route as the router names it.
#[derive(Debug)]
pub struct ActivatedRoute {
    pub route_id: RouteId,
    /// The bytes by which the routing engine names the route.
    pub backend_route_id: Vec<u8>,
}

/// How far a send got.
#[derive(Debug)]
pub enum SendState {
    /// The router is asked for a route that was used before.
    LookingUp { route_id: RouteId },
    /// The payload is forwarded on a route that was used before.
    ForwardingCached { route_id: RouteId, backend_route_id: Vec<u8> },
    /// A new route is activated.
    Activating,
    /// The payload is forwarded on a new route.
    ForwardingNew { route_id: RouteId, backend_route_id: Vec<u8>, topology_changed: bool },
    /// The payload is handed to the transport. A new route is noted with whether it changed the
    /// topology.
    HandingOver { route_id: RouteId, queued: QueuedTransportCommand, fresh: Option<bool> },
    /// A round is driven so that the payload leaves at once.
    Driving { route_id: RouteId, queued: QueuedTransportCommand, fresh: Option<bool> },
    Finished,
}

/// What to do next.
#[derive(Debug)]
pub enum SendAction {
    /// Ask the router whether a route is active.
    LookUp(RouteId),
    /// Have the router forward the payload on a route.
    Forward(RouteId),
    /// Have the router activate a route.
    Activate,
    /// Hand the payload to the transport.
    HandOver,
    /// Drive a round.
    DriveRound,
    /// The send is over; the topology is to be published if it says so.
    Finish { result: Result<JacquardBleSendReceipt, BleClientError>, publish_topology: bool },
}

/// A send under way.
#[derive(Debug)]
pub struct SendTask {
    pub to: NodeId,
    pub local_node_id: NodeId,
    pub state: SendState,
}

/// How many steps a send has ahead of it at most.
pub open spec fn steps_left(state: SendState) -> nat {
    match state {
        SendState::LookingUp { .. } => 6,
        SendState::ForwardingCached { .. } => 5,
        SendState::Activating => 4,
        SendState::ForwardingNew { .. } => 3,
        SendState::HandingOver { .. } => 2,
        SendState::Driving { .. } => 1,
        SendState::Finished => 0,
    }
}

/// A send that failed.
pub open spec fn failed(next: (SendTask, SendAction), error: BleClientError) -> bool {
    &&& next.0.state is Finished
    &&& next.1 == (SendAction::Finish { result: Err(error), publish_topology: false })
}

/// A send that is about to hand its payload to the transport, on a route that the engine names by
/// some bytes; or one that failed because there is no edge to the first node of that route.
pub open spec fn addressed(
    next: (SendTask, SendAction),
    topology: MeshTopology,
    local_node_id: NodeId,
    sent_on: RouteId,
    backend_route_id: Seq<u8>,
    noted: Option<bool>,
) -> bool {
    match neighbor_endpoint(
        edge_views(topology.edges@),
        local_node_id,
        selected_neighbor_of(backend_route_id),
    ) {
        Some(endpoint) => {
            &&& next.1 is HandOver
            &&& next.0.state matches SendState::HandingOver { route_id, queued, fresh }
            &&& route_id == sent_on
            &&& fresh == noted
            &&& Some(queued.next_hop_node_id) == selected_neighbor_of(backend_route_id)
            &&& queued.intent@ == (DeliveryIntentView::Unicast { endpoint })
        },
        None => failed(next, no_candidate()),
    }
}

impl SendTask {
    /// Starts to send to a node: on the route that was used before, if there is one.
    pub fn begin(cache: &RouteCache, local_node_id: NodeId, to: NodeId) -> (next: (
        SendTask,
        SendAction,
    ))
        requires
            cache.wf(),
        ensures
            next.0.to == to,
            next.0.local_node_id == local_node_id,
            if cache.routes@.contains_key(to) {
                &&& next.0.state == (SendState::LookingUp { route_id: cache.routes@[to] })
                &&& next.1 == SendAction::LookUp(cache.routes@[to])
            } else {
                &&& next.0.state is Activating
                &&& next.1 is Activate
            },
    {
        match cache.routes.get(&to) {
            Some(route_id) => (
                SendTask { to, local_node_id, state: SendState::LookingUp { route_id: *route_id } },
                SendAction::LookUp(*route_id),
            ),
            None => (
                SendTask { to, local_node_id, state: SendState::Activating },
                SendAction::Activate,
            ),
        }
    }

    /// Goes on once the router was asked for a route: on that route if it is active, and on a new
    /// one if not.
    pub fn route_looked_up(self, found: Option<Vec<u8>>) -> (next: (SendTask, SendAction))
        requires
            self.state is LookingUp,
        ensures
            next.0.to == self.to,
            next.0.local_node_id == self.local_node_id,
            steps_left(next.0.state) < steps_left(self.state),
            match found {
                Some(backend_route_id) => {
                    let route_id = self.state->LookingUp_route_id;
                    &&& next.0.state == (SendState::ForwardingCached { route_id, backend_route_id })
                    &&& next.1 == SendAction::Forward(route_id)
                },
                None => next.0.state is Activating && next.1 is Activate,
            },
    {
        let SendTask { to, local_node_id, state } = self;
        match (state, found) {
            (SendState::LookingUp { route_id }, Some(backend_route_id)) => (
                SendTask {
                    to,
                    local_node_id,
                    state: SendState::ForwardingCached { route_id, backend_route_id },
                },
                SendAction::Forward(route_id),
            ),
            _ => (
                SendTask { to, local_node_id, state: SendState::Activating },
                SendAction::Activate,
            ),
        }
    }

    /// Goes on once the router tried to activate a route.
    pub fn route_activated(
        self,
        activated: Result<ActivatedRoute, RouteError>,
        topology_changed: bool,
    ) -> (next: (SendTask, SendAction))
        requires
            self.state is Activating,
        ensures
            next.0.to == self.to,
            next.0.local_node_id == self.local_node_id,
            steps_left(next.0.state) < steps_left(self.state),
            match activated {
                Ok(route) => {
                    &&& next.0.state == (SendState::ForwardingNew {
                        route_id: route.route_id,
                        backend_route_id: route.backend_route_id,
                        topology_changed,
                    })
                    &&& next.1 == SendAction::Forward(route.route_id)
                },
                Err(error) => failed(next, BleClientError::Route(error)),
            },
    {
        match activated {
            Ok(route) => {
                let route_id = route.route_id;
                (
                    SendTask {
                        to: self.to,
                        local_node_id: self.local_node_id,
                        state: SendState::ForwardingNew {
                            route_id,
                            backend_route_id: route.backend_route_id,
                            topology_changed,
                        },
                    },
                    SendAction::Forward(route_id),
                )
            },
            Err(error) => self.fail(BleClientError::Route(error)),
        }
    }

    fn fail(self, error: BleClientError) -> (next: (SendTask, SendAction))
        ensures
            next.0.to == self.to,
            next.0.local_node_id == self.local_node_id,
            failed(next, error),
    {
        (
            SendTask {
                to: self.to,
                local_node_id: self.local_node_id,
                state: SendState::Finished,
            },
            SendAction::Finish { result: Err(error), publish_topology: false },
        )
    }

    fn address(
        to: NodeId,
        local_node_id: NodeId,
        topology: &MeshTopology,
        route_id: RouteId,
        backend_route_id: &Vec<u8>,
        fresh: Option<bool>,
    ) -> (next: (SendTask, SendAction))
        requires
            topology.wf(),
        ensures
            next.0.to == to,
            next.0.local_node_id == local_node_id,
            steps_left(next.0.state) <= 2,
            addressed(next, *topology, local_node_id, route_id, backend_route_id@, fresh),
    {
        match queue_payload_on_route(topology, local_node_id, backend_route_id) {
            Ok(queued) => (
                SendTask {
                    to,
                    local_node_id,
                    state: SendState::HandingOver { route_id, queued, fresh },
                },
                SendAction::HandOver,
            ),
            Err(error) => (
                SendTask { to, local_node_id, state: SendState::Finished },
                SendAction::Finish { result: Err(error), publish_topology: false },
            ),
        }
    }

    /// Goes on once the router tried to forward the payload. A route that was used before and fails
    /// now is forgotten, and a new one is activated; a new route that fails ends the send.
    pub fn payload_forwarded(
        self,
        cache: &mut RouteCache,
        topology: &MeshTopology,
        forwarded: Result<(), RouteError>,
    ) -> (next: (SendTask, SendAction))
        requires
            self.state is ForwardingCached || self.state is ForwardingNew,
            old(cache).wf(),
            topology.wf(),
        ensures
            final(cache).wf(),
            next.0.to == self.to,
            next.0.local_node_id == self.local_node_id,
            steps_left(next.0.state) < steps_left(self.state),
            match (self.state, forwarded) {
                (SendState::ForwardingCached { route_id, backend_route_id }, Ok(_)) => {
                    &&& final(cache).routes@ == old(cache).routes@
                    &&& addressed(
                        next,
                        *topology,
                        self.local_node_id,
                        route_id,
                        backend_route_id@,
                        None,
                    )
                },
                (SendState::ForwardingCached { .. }, Err(_)) => {
                    &&& final(cache).routes@ == old(cache).routes@.remove(self.to)
                    &&& next.0.state is Activating
                    &&& next.1 is Activate
                },
                (
                    SendState::ForwardingNew { route_id, backend_route_id, topology_changed },
                    Ok(_),
                ) => {
                    &&& final(cache).routes@ == old(cache).routes@
                    &&& addressed(
                        next,
                        *topology,
                        self.local_node_id,
                        route_id,
                        backend_route_id@,
                        Some(topology_changed),
                    )
                },
                (_, Err(error)) => {
                    &&& final(cache).routes@ == old(cache).routes@
                    &&& failed(next, BleClientError::Route(error))
                },
                _ => true,
            },
    {
        let SendTask { to, local_node_id, state } = self;
        match (state, forwarded) {
            (SendState::ForwardingCached { route_id, backend_route_id }, Ok(())) => Self::address(
                to,
                local_node_id,
                topology,
                route_id,
                &backend_route_id,
                None,
            ),
            (SendState::ForwardingCached { .. }, Err(_)) => {
                let _ = cache.routes.remove(&to);
                (SendTask { to, local_node_id, state: SendState::Activating }, SendAction::Activate)
            },
            (
                SendState::ForwardingNew { route_id, backend_route_id, topology_changed },
                Ok(()),
            ) => Self::address(
                to,
                local_node_id,
                topology,
                route_id,
                &backend_route_id,
                Some(topology_changed),
            ),
            (state, Err(error)) => SendTask { to, local_node_id, state }.fail(
                BleClientError::Route(error),
            ),
            (_, Ok(())) => (
                SendTask { to, local_node_id, state: SendState::Finished },
                SendAction::Activate,
            ),
        }
    }

    /// What to hand to the transport.
    pub fn intent(&self) -> (intent: Option<&TransportDeliveryIntent>)
        ensures
            match self.state {
                SendState::HandingOver { queued, .. } => intent == Some(&queued.intent),
                _ => intent is None,
            },
    {
        match &self.state {
            SendState::HandingOver { queued, .. } => Some(&queued.intent),
            _ => None,
        }
    }

    /// Goes on once the transport was given the payload. A new route is remembered only now that it
    /// has carried something.
    pub fn payload_handed_over(self, cache: &mut RouteCache, handed: Result<(), TransportError>) -> (next: (
        SendTask,
        SendAction,
    ))
        requires
            self.state is HandingOver,
            old(cache).wf(),
        ensures
            final(cache).wf(),
            next.0.to == self.to,
            next.0.local_node_id == self.local_node_id,
            steps_left(next.0.state) < steps_left(self.state),
            match (self.state, handed) {
                (SendState::HandingOver { route_id, queued, fresh }, Ok(_)) => {
                    &&& next.0.state == (SendState::Driving { route_id, queued, fresh })
                    &&& next.1 is DriveRound
                    &&& final(cache).routes@ == if fresh is Some {
                        old(cache).routes@.insert(self.to, route_id)
                    } else {
                        old(cache).routes@
                    }
                },
                (_, Err(error)) => {
                    &&& final(cache).routes@ == old(cache).routes@
                    &&& failed(next, BleClientError::Transport(error))
                },
                _ => true,
            },
    {
        let SendTask { to, local_node_id, state } = self;
        match (state, handed) {
            (SendState::HandingOver { route_id, queued, fresh }, Ok(())) => {
                if fresh.is_some() {
                    let _ = cache.routes.insert(to, route_id);
                }
                (
                    SendTask {
                        to,
                        local_node_id,
                        state: SendState::Driving { route_id, queued, fresh },
                    },
                    SendAction::DriveRound,
                )
            },
            (state, Err(error)) => SendTask { to, local_node_id, state }.fail(
                BleClientError::Transport(error),
            ),
            (_, Ok(())) => (
                SendTask { to, local_node_id, state: SendState::Finished },
                SendAction::Activate,
            ),
        }
    }

    /// Ends the send once a round was driven, with a receipt if that went well. A new route that
    /// changed the topology has it published.
    pub fn round_driven(self, driven: Result<(), BleClientError>) -> (next: (SendTask, SendAction))
        requires
            self.state is Driving,
        ensures
            next.0.to == self.to,
            next.0.local_node_id == self.local_node_id,
            steps_left(next.0.state) < steps_left(self.state),
            match (self.state, driven) {
                (SendState::Driving { route_id, queued, fresh }, Ok(_)) => {
                    &&& next.0.state is Finished
                    &&& next.1 matches SendAction::Finish { result: Ok(receipt), publish_topology }
                    &&& receipt@ == receipt_for(self.to, route_id, queued)
                    &&& publish_topology == (fresh == Some(true))
                },
                (_, Err(error)) => failed(next, error),
                _ => true,
            },
    {
        let SendTask { to, local_node_id, state } = self;
        match (state, driven) {
            (SendState::Driving { route_id, queued, fresh }, Ok(())) => {
                let receipt = send_receipt(to, route_id, &queued);
                let publish_topology = match fresh {
                    Some(topology_changed) => topology_changed,
                    None => false,
                };
                (
                    SendTask { to, local_node_id, state: SendState::Finished },
                    SendAction::Finish { result: Ok(receipt), publish_topology },
                )
            },
            (state, Err(error)) => SendTask { to, local_node_id, state }.fail(error),
            (_, Ok(())) => (
                SendTask { to, local_node_id, state: SendState::Finished },
                SendAction::Activate,
            ),
        }
    }
}

/// Whether a send may do something in a state: it does in each state what that state is about, and
/// ends with an error or a receipt when it is over.
pub open spec fn fitting(state: SendState, action: SendAction) -> bool {
    match state {
        SendState::LookingUp { route_id } => action == SendAction::LookUp(route_id),
        SendState::ForwardingCached { route_id, .. } => action == SendAction::Forward(route_id),
        SendState::Activating => action is Activate,
        SendState::ForwardingNew { route_id, .. } => action == SendAction::Forward(route_id),
        SendState::HandingOver { .. } => action is HandOver,
        SendState::Driving { .. } => action is DriveRound,
        SendState::Finished => action is Finish,
    }
}

/// A send that failed, or is about to hand its payload over, does what fits its state; and a payload
/// that is handed over goes to the endpoint of an edge of the local node, and nowhere else.
pub proof fn law_payload_goes_over_an_own_edge(
    next: (SendTask, SendAction),
    topology: MeshTopology,
    local_node_id: NodeId,
    sent_on: RouteId,
    backend_route_id: Seq<u8>,
    noted: Option<bool>,
)
    requires
        addressed(next, topology, local_node_id, sent_on, backend_route_id, noted),
    ensures
        fitting(next.0.state, next.1),
        next.0.state matches SendState::HandingOver { queued, .. } ==> {
            let key = crate::identity::EdgeKey {
                from_node_id: local_node_id,
                to_node_id: queued.next_hop_node_id,
            };
            &&& topology.edges@.contains_key(key)
            &&& queued.intent@ == (DeliveryIntentView::Unicast {
                endpoint: topology.edges@[key].observation.value.endpoint@,
            })
        },
{
}

/// A payload whose route starts at a neighbor that there is an edge to is handed over, whatever the
/// transport and the state of that edge; only without a neighbor or without an edge does the send
/// fail for want of a route, and then nothing is published.
pub proof fn law_payload_leaves_over_any_edge(
    next: (SendTask, SendAction),
    topology: MeshTopology,
    local_node_id: NodeId,
    sent_on: RouteId,
    backend_route_id: Seq<u8>,
    noted: Option<bool>,
)
    requires
        addressed(next, topology, local_node_id, sent_on, backend_route_id, noted),
    ensures
        ({
            let neighbor = selected_neighbor_of(backend_route_id);
            let reachable = neighbor is Some && topology.edges@.contains_key(
                crate::identity::EdgeKey { from_node_id: local_node_id, to_node_id: neighbor->0 },
            );
            &&& reachable <==> next.1 is HandOver
            &&& next.1 is HandOver ==> {
                &&& next.0.state matches SendState::HandingOver { route_id, queued, fresh }
                &&& route_id == sent_on
                &&& fresh == noted
                &&& queued.next_hop_node_id == neighbor->0
            }
            &&& !reachable ==> {
                &&& next.0.state is Finished
                &&& next.1 matches SendAction::Finish { result: Err(error), publish_topology }
                &&& error == BleClientError::Route(
                    RouteError::Selection(crate::errors::RouteSelectionError::NoCandidate),
                )
                &&& !publish_topology
            }
        }),
{
}

/// A send that failed is over, with the error that it failed with.
pub proof fn law_failed_send_tells_its_error(
    next: (SendTask, SendAction),
    error: BleClientError,
)
    requires
        failed(next, error),
    ensures
        steps_left(next.0.state) == 0,
        fitting(next.0.state, next.1),
        next.1 matches SendAction::Finish { result: Err(told), .. } && told == error,
{
}

/// A send starts on the route that was used before, if there is one, and with a new route if not; it
/// uses the old route only if the router still has it.
pub proof fn law_known_routes_are_tried_first(
    cache: RouteCache,
    local_node_id: NodeId,
    to: NodeId,
    begun: (SendTask, SendAction),
    found: Option<Vec<u8>>,
    looked_up: (SendTask, SendAction),
)
    requires
        call_ensures(SendTask::begin, (&cache, local_node_id, to), begun),
        begun.0.state is LookingUp,
        call_ensures(SendTask::route_looked_up, (begun.0, found), looked_up),
    ensures
        cache.routes@.contains_key(to),
        begun.1 == SendAction::LookUp(cache.routes@[to]),
        looked_up.1 is Forward <==> found is Some,
        looked_up.1 matches SendAction::Forward(route_id) ==> route_id == cache.routes@[to],
        found is None ==> looked_up.1 is Activate,
        looked_up.0.to == to,
        looked_up.0.local_node_id == local_node_id,
{
}

/// A send without a known route activates one; the payload is then forwarded on the very route that
/// came of it, or the send ends with the error of the router.
pub proof fn law_new_routes_are_activated(
    cache: RouteCache,
    local_node_id: NodeId,
    to: NodeId,
    begun: (SendTask, SendAction),
    activated: Result<ActivatedRoute, RouteError>,
    changed: bool,
    next: (SendTask, SendAction),
)
    requires
        call_ensures(SendTask::begin, (&cache, local_node_id, to), begun),
        !cache.routes@.contains_key(to),
        call_ensures(SendTask::route_activated, (begun.0, activated, changed), next),
    ensures
        begun.1 is Activate,
        activated matches Ok(route) ==> next.1 == SendAction::Forward(route.route_id)
            && next.0.state is ForwardingNew,
        activated matches Err(error) ==> next.1 is Finish && next.0.state is Finished
            && next.1->result == Err::<JacquardBleSendReceipt, BleClientError>(
            BleClientError::Route(error),
        ),
{
}

/// An old route that fails is forgotten and a new one is activated, and a new route that fails ends the
/// send with its error. A route that carries the payload is left on record as it was.
pub proof fn law_failed_routes_are_forgotten()
    ensures
        forall|
            task: SendTask,
            cache: &mut RouteCache,
            topology: MeshTopology,
            forwarded: Result<(), RouteError>,
            next: (SendTask, SendAction),
        |
            #[trigger] call_ensures(
                SendTask::payload_forwarded,
                (task, cache, &topology, forwarded),
                next,
            ) && (task.state is ForwardingCached || task.state is ForwardingNew) ==> {
                let failed_before = task.state is ForwardingCached && forwarded is Err;
                &&& failed_before ==> next.1 is Activate
                    && !final(cache).routes@.contains_key(task.to)
                &&& task.state is ForwardingNew && forwarded is Err ==> next.1 is Finish
                    && next.1->result == Err::<JacquardBleSendReceipt, BleClientError>(
                    BleClientError::Route(forwarded->Err_0),
                )
                &&& !failed_before ==> final(cache).routes@ == (*cache).routes@
                &&& forall|other: NodeId|
                    other != task.to ==> (#[trigger] final(cache).routes@.contains_key(other)
                        <==> (*cache).routes@.contains_key(other)) && final(cache).routes@[other]
                        == (*cache).routes@[other]
                &&& forwarded is Ok ==> next.1 is HandOver || next.1 is Finish
            },
        forall|
            task: SendTask,
            cache: &mut RouteCache,
            handed: Result<(), TransportError>,
            next: (SendTask, SendAction),
        |
            #[trigger] call_ensures(
                SendTask::payload_handed_over,
                (task, cache, handed),
                next,
            ) && task.state is HandingOver ==> {
                &&& handed is Ok ==> next.1 is DriveRound
                &&& handed is Ok && task.state->HandingOver_fresh is Some
                    ==> final(cache).routes@ == (*cache).routes@.insert(
                    task.to,
                    task.state->HandingOver_route_id,
                )
                &&& handed is Err || task.state->HandingOver_fresh is None
                    ==> final(cache).routes@ == (*cache).routes@
                &&& handed matches Err(error) ==> next.1 is Finish && next.1->result == Err::<
                    JacquardBleSendReceipt,
                    BleClientError,
                >(BleClientError::Transport(error))
            },
{
}

/// A send whose round went well ends with a receipt for what was handed over, and has the topology
/// published exactly if its route is new and changed it; otherwise it ends with the error.
pub proof fn law_sent_payload_has_a_receipt(
    task: SendTask,
    driven: Result<(), BleClientError>,
    next: (SendTask, SendAction),
)
    requires
        task.state is Driving,
        call_ensures(SendTask::round_driven, (task, driven), next),
    ensures
        next.0.state is Finished,
        next.1 is Finish,
        next.1->result is Ok <==> driven is Ok,
        next.1->result matches Ok(receipt) ==> {
            &&& receipt.destination_node_id == task.to
            &&& receipt.route_id == task.state->Driving_route_id
            &&& receipt.next_hop_node_id == task.state->Driving_queued.next_hop_node_id
        },
        next.1->publish_topology <==> driven is Ok && task.state->Driving_fresh == Some(true),
        driven matches Err(error) ==> next.1->result == Err::<JacquardBleSendReceipt, BleClientError>(
            error,
        ),
{
}

} // verus!
