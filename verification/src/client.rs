//! The client: how a payload finds its route, what is handed to the transport, and what reaches the
//! application.

use crate::bridge::{BleBridgeProgress, RoutingTickHint};
use crate::delivery::{
    intent_endpoint, intent_mode, DeliveryIntentView, TransportDeliveryIntent,
    TransportDeliveryMode,
};
use crate::endpoint::{LinkEndpoint, LinkEndpointView};
use crate::errors::{BleClientError, RouteAdmissionRejection, RouteError, RouteSelectionError};
use crate::fanout_support::each_once_in_order;
use crate::framing::{
    client_frame, client_payload, decode_client_payload, law_client_payload_round_trip,
};
use crate::gatt::notify_fanout_view;
use crate::identity::{bytes_to_vec, EdgeKey, MulticastGroupId, NodeId, OrderStamp, RouteId, Tick};
use crate::link::{ObservationView, TransportObservation};
use crate::multicast::{admit_notify_multicast, fanout_fits, gatt_notify_multicast_support};
use crate::topology::{edge_views, MeshEdgeView, MeshTopology};
use vstd::prelude::*;

verus! {

/// How many requests wait for a client.
pub const DEFAULT_CLIENT_COMMAND_CAPACITY: usize = 64;

/// How many requests a client serves between two rounds.
pub const CLIENT_COMMAND_DRAIN_MAX: usize = 64;

/// The length of a tick.
pub const DEFAULT_CLIENT_TICK_DURATION_MS: u64 = 25;

/// The longest span of time, in nanoseconds: all seconds that fit in 64 bits, and what is short of
/// another one.
pub const LONGEST_DURATION_NS: u128 = 18_446_744_073_709_551_615_999_999_999;

/// How far a payload got.
#[derive(Clone, Copy, Debug, PartialEq, Eq, Structural)]
pub enum JacquardBleSendStage {
    QueuedForTransport,
}

/// What became of a payload for one node.
#[derive(Debug, PartialEq, Eq)]
pub struct JacquardBleSendReceipt {
    pub destination_node_id: NodeId,
    pub route_id: RouteId,
    pub next_hop_node_id: NodeId,
    pub delivery_mode: TransportDeliveryMode,
    pub endpoint: LinkEndpoint,
    pub stage: JacquardBleSendStage,
}

/// What became of a payload for a group.
#[derive(Debug, PartialEq, Eq)]
pub struct JacquardBleMulticastReceipt {
    pub group_id: MulticastGroupId,
    pub receivers: Vec<NodeId>,
    pub delivery_mode: TransportDeliveryMode,
    pub endpoint: LinkEndpoint,
    pub stage: JacquardBleSendStage,
}

/// How long to sleep for a number of ticks.
pub open spec fn sleep_ns(round_interval_ns: u128, ticks: Tick) -> int {
    let counted = if ticks.0 <= u32::MAX {
        ticks.0 as int
    } else {
        u32::MAX as int
    };
    let total = round_interval_ns * counted;
    if total <= LONGEST_DURATION_NS {
        total
    } else {
        LONGEST_DURATION_NS as int
    }
}

/// How long to sleep for a number of ticks: the length of a tick times their number, and no longer
/// than a span of time can be.
pub fn duration_for_tick_hint(round_interval_ns: u128, ticks: Tick) -> (duration_ns: u128)
    requires
        round_interval_ns <= LONGEST_DURATION_NS,
    ensures
        duration_ns == sleep_ns(round_interval_ns, ticks),
{
    let counted: u32 = if ticks.0 <= u32::MAX as u64 {
        ticks.0 as u32
    } else {
        u32::MAX
    };
    match round_interval_ns.checked_mul(counted as u128) {
        Some(total) => if total <= LONGEST_DURATION_NS {
            total
        } else {
            LONGEST_DURATION_NS
        },
        None => LONGEST_DURATION_NS,
    }
}

/// The error of a payload that has no route.
pub open spec fn no_candidate() -> BleClientError {
    BleClientError::Route(RouteError::Selection(RouteSelectionError::NoCandidate))
}

fn no_route_candidate() -> (error: BleClientError)
    ensures
        error == no_candidate(),
{
    BleClientError::Route(RouteError::Selection(RouteSelectionError::NoCandidate))
}

/// What `jacquard_mercator::selected_neighbor_from_backend_route_id` reads out of the bytes by which
/// the routing engine names a route.
pub uninterp spec fn selected_neighbor_of(backend_route_id: Seq<u8>) -> Option<NodeId>;

/// `jacquard_mercator::selected_neighbor_from_backend_route_id`: the node that a route goes to first,
/// read out of the bytes by which the engine names the route. The layout of those bytes is the
/// engine's own; nothing is said of it here but that the same bytes give the same node.
#[verifier::external_body]
pub(crate) fn selected_neighbor(backend_route_id: &Vec<u8>) -> (neighbor: Option<NodeId>)
    ensures
        neighbor == selected_neighbor_of(backend_route_id@),
{
    let backend_route_id = jacquard_core::BackendRouteId(backend_route_id.clone());
    let selected = jacquard_mercator::selected_neighbor_from_backend_route_id(&backend_route_id);
    selected.map(|node_id| NodeId(node_id.0))
}

/// A payload that is ready for the transport.
#[derive(Debug)]
pub struct QueuedTransportCommand {
    pub next_hop_node_id: NodeId,
    pub intent: TransportDeliveryIntent,
}

/// The endpoint of the edge from the local node to a neighbor, if there are both.
pub open spec fn neighbor_endpoint(
    edges: Map<EdgeKey, MeshEdgeView>,
    local_node_id: NodeId,
    neighbor: Option<NodeId>,
) -> Option<LinkEndpointView> {
    match neighbor {
        Some(next_hop) => {
            let key = EdgeKey { from_node_id: local_node_id, to_node_id: next_hop };
            if edges.contains_key(key) {
                Some(edges[key].observation.value.endpoint)
            } else {
                None
            }
        },
        None => None,
    }
}

/// Addresses a payload to a neighbor: to the endpoint of the edge to it. Without a neighbor or
/// without an edge to it there is no route.
pub fn address_to_neighbor(
    topology: &MeshTopology,
    local_node_id: NodeId,
    neighbor: Option<NodeId>,
) -> (result: Result<QueuedTransportCommand, BleClientError>)
    requires
        topology.wf(),
    ensures
        match neighbor_endpoint(edge_views(topology.edges@), local_node_id, neighbor) {
            Some(endpoint) => {
                &&& result matches Ok(queued)
                &&& Some(queued.next_hop_node_id) == neighbor
                &&& queued.intent@ == (DeliveryIntentView::Unicast { endpoint })
            },
            None => result == Err::<QueuedTransportCommand, BleClientError>(no_candidate()),
        },
{
    let next_hop_node_id = match neighbor {
        Some(next_hop_node_id) => next_hop_node_id,
        None => return Err(no_route_candidate()),
    };
    match topology.edge(local_node_id, next_hop_node_id) {
        Some(edge) => {
            let endpoint = edge.observation.value.endpoint.clone();
            Ok(
                QueuedTransportCommand {
                    next_hop_node_id,
                    intent: TransportDeliveryIntent::unicast(endpoint),
                },
            )
        },
        None => Err(no_route_candidate()),
    }
}

/// Addresses a payload to the first node of a route.
pub fn queue_payload_on_route(
    topology: &MeshTopology,
    local_node_id: NodeId,
    backend_route_id: &Vec<u8>,
) -> (result: Result<QueuedTransportCommand, BleClientError>)
    requires
        topology.wf(),
    ensures
        match neighbor_endpoint(
            edge_views(topology.edges@),
            local_node_id,
            selected_neighbor_of(backend_route_id@),
        ) {
            Some(endpoint) => {
                &&& result matches Ok(queued)
                &&& Some(queued.next_hop_node_id) == selected_neighbor_of(backend_route_id@)
                &&& queued.intent@ == (DeliveryIntentView::Unicast { endpoint })
            },
            None => result == Err::<QueuedTransportCommand, BleClientError>(no_candidate()),
        },
{
    let neighbor = selected_neighbor(backend_route_id);
    address_to_neighbor(topology, local_node_id, neighbor)
}

/// What a receipt says.
pub ghost struct SendReceiptView {
    pub destination_node_id: NodeId,
    pub route_id: RouteId,
    pub next_hop_node_id: NodeId,
    pub delivery_mode: TransportDeliveryMode,
    pub endpoint: LinkEndpointView,
}

impl View for JacquardBleSendReceipt {
    type V = SendReceiptView;

    open spec fn view(&self) -> SendReceiptView {
        SendReceiptView {
            destination_node_id: self.destination_node_id,
            route_id: self.route_id,
            next_hop_node_id: self.next_hop_node_id,
            delivery_mode: self.delivery_mode,
            endpoint: self.endpoint@,
        }
    }
}

/// The receipt for a payload that was queued.
pub open spec fn receipt_for(
    destination_node_id: NodeId,
    route_id: RouteId,
    queued: QueuedTransportCommand,
) -> SendReceiptView {
    SendReceiptView {
        destination_node_id,
        route_id,
        next_hop_node_id: queued.next_hop_node_id,
        delivery_mode: intent_mode(queued.intent@),
        endpoint: intent_endpoint(queued.intent@),
    }
}

/// Writes the receipt for a payload that was queued.
pub fn send_receipt(
    destination_node_id: NodeId,
    route_id: RouteId,
    queued: &QueuedTransportCommand,
) -> (receipt: JacquardBleSendReceipt)
    ensures
        receipt@ == receipt_for(destination_node_id, route_id, *queued),
{
    JacquardBleSendReceipt {
        destination_node_id,
        route_id,
        next_hop_node_id: queued.next_hop_node_id,
        delivery_mode: queued.intent.mode(),
        endpoint: queued.intent.endpoint().clone(),
        stage: JacquardBleSendStage::QueuedForTransport,
    }
}

/// Plans delivery of a payload to a group over notifications. A group that notifications can reach
/// is always admitted.
pub fn plan_multicast(
    local_node_id: NodeId,
    group_id: MulticastGroupId,
    receivers: &Vec<NodeId>,
) -> (result: Result<TransportDeliveryIntent, BleClientError>)
    ensures
        match result {
            Ok(intent) => {
                &&& fanout_fits(receivers@.len())
                &&& intent@ matches DeliveryIntentView::Multicast {
                    endpoint,
                    group_id: group,
                    receivers: admitted,
                }
                &&& endpoint == notify_fanout_view()
                &&& group == group_id
                &&& each_once_in_order(admitted, receivers@)
            },
            Err(error) => {
                &&& !fanout_fits(receivers@.len())
                &&& error == BleClientError::DeliveryAdmission(
                    RouteAdmissionRejection::DeliveryAssumptionUnsupported,
                )
            },
        },
{
    let support = match gatt_notify_multicast_support(
        local_node_id,
        group_id,
        receivers,
        Tick(0),
        OrderStamp(0),
    ) {
        Some(support) => support,
        None => return Err(
            BleClientError::DeliveryAdmission(
                RouteAdmissionRejection::DeliveryAssumptionUnsupported,
            ),
        ),
    };
    proof {
        crate::multicast::law_supported_group_is_admitted(
            group_id,
            receivers@,
            support.receivers@,
        );
    }
    match admit_notify_multicast(group_id, receivers, support) {
        Ok(intent) => Ok(intent),
        Err(rejection) => Err(BleClientError::DeliveryAdmission(rejection)),
    }
}

/// Writes the receipt for a payload to a group.
pub fn multicast_receipt(
    group_id: MulticastGroupId,
    receivers: Vec<NodeId>,
    intent: &TransportDeliveryIntent,
) -> (receipt: JacquardBleMulticastReceipt)
    ensures
        receipt.group_id == group_id,
        receipt.receivers == receivers,
        receipt.delivery_mode == intent_mode(intent@),
        receipt.endpoint@ == intent_endpoint(intent@),
        receipt.stage == JacquardBleSendStage::QueuedForTransport,
{
    JacquardBleMulticastReceipt {
        group_id,
        receivers,
        delivery_mode: intent.mode(),
        endpoint: intent.endpoint().clone(),
        stage: JacquardBleSendStage::QueuedForTransport,
    }
}

/// A payload that reached the application.
#[derive(Debug, PartialEq, Eq)]
pub struct IncomingPayload {
    pub from_node_id: NodeId,
    pub payload: Vec<u8>,
}

/// What the application is to see of some observations: the payloads that clients sent, unwrapped,
/// in their order. Everything else stays hidden.
pub open spec fn application_sees(observations: Seq<TransportObservation>) -> Seq<
    (NodeId, Seq<u8>),
>
    decreases observations.len(),
{
    if observations.len() == 0 {
        Seq::empty()
    } else {
        let earlier = application_sees(observations.drop_last());
        match observations.last()@ {
            ObservationView::PayloadReceived {
                from_node_id,
                payload,
                ..
            } => match client_payload(payload) {
                Some(decoded) => earlier.push((from_node_id, decoded)),
                None => earlier,
            },
            ObservationView::LinkObserved { .. } => earlier,
        }
    }
}

/// What some payloads say.
pub open spec fn incoming_views(incoming: Seq<IncomingPayload>) -> Seq<(NodeId, Seq<u8>)> {
    Seq::new(
        incoming.len(),
        |i: int| (incoming[i].from_node_id, incoming[i].payload@),
    )
}

/// Picks what the application is to see out of the observations of a round.
pub fn incoming_payloads(observations: &Vec<TransportObservation>) -> (incoming: Vec<
    IncomingPayload,
>)
    ensures
        incoming_views(incoming@) == application_sees(observations@),
{
    let mut incoming: Vec<IncomingPayload> = Vec::new();
    let ghost all = observations@;
    let mut i: usize = 0;
    assert(incoming_views(incoming@) =~= application_sees(all.take(0)));
    while i < observations.len()
        invariant
            all == observations@,
            i <= all.len(),
            incoming_views(incoming@) == application_sees(all.take(i as int)),
        decreases all.len() - i,
    {
        let ghost before = incoming@;
        assert(all.take(i + 1).drop_last() =~= all.take(i as int));
        assert(all.take(i + 1).last() == all[i as int]);
        match &observations[i] {
            TransportObservation::PayloadReceived { from_node_id, payload, .. } => {
                if let Some(decoded) = decode_client_payload(payload.as_slice()) {
                    incoming.push(
                        IncomingPayload {
                            from_node_id: *from_node_id,
                            payload: bytes_to_vec(decoded),
                        },
                    );
                    assert(incoming_views(incoming@) =~= incoming_views(before).push(
                        (*from_node_id, decoded@),
                    ));
                }
            },
            TransportObservation::LinkObserved { .. } => {},
        }
        i = i + 1;
    }
    assert(all.take(i as int) =~= all);
    incoming
}

/// Whether to run another round at once: the router asked for it after a round that did something.
pub fn wants_follow_up(progress: &BleBridgeProgress) -> (follow_up: bool)
    ensures
        follow_up == (progress matches BleBridgeProgress::Advanced(report)
            && report.router_outcome.next_round_hint == RoutingTickHint::Immediate),
{
    match progress {
        BleBridgeProgress::Advanced(report) => report.router_outcome.next_round_hint
            == RoutingTickHint::Immediate,
        BleBridgeProgress::Waiting(_) => false,
    }
}

/// A sleep is as long as its ticks, one interval each, unless that is longer than a span of time can
/// be. A longer interval or more ticks never make it shorter.
pub proof fn law_sleep_is_as_long_as_its_ticks(
    round_interval_ns: u128,
    longer_interval_ns: u128,
    ticks: Tick,
    more_ticks: Tick,
)
    requires
        round_interval_ns <= longer_interval_ns,
        ticks.0 <= more_ticks.0,
    ensures
        ticks.0 <= u32::MAX && round_interval_ns * ticks.0 <= LONGEST_DURATION_NS ==> sleep_ns(
            round_interval_ns,
            ticks,
        ) == round_interval_ns * ticks.0,
        0 <= sleep_ns(round_interval_ns, ticks) <= LONGEST_DURATION_NS,
        sleep_ns(round_interval_ns, ticks) <= sleep_ns(longer_interval_ns, more_ticks),
        ticks.0 > u32::MAX ==> sleep_ns(round_interval_ns, ticks) == sleep_ns(
            round_interval_ns,
            Tick(u32::MAX as u64),
        ),
        round_interval_ns * ticks.0 > LONGEST_DURATION_NS && ticks.0 <= u32::MAX ==> sleep_ns(
            round_interval_ns,
            ticks,
        ) == LONGEST_DURATION_NS,
{
    let counted = if ticks.0 <= u32::MAX {
        ticks.0 as int
    } else {
        u32::MAX as int
    };
    let more = if more_ticks.0 <= u32::MAX {
        more_ticks.0 as int
    } else {
        u32::MAX as int
    };
    let interval = round_interval_ns as int;
    let longer = longer_interval_ns as int;
    assert(0 <= interval * counted <= longer * more) by (nonlinear_arith)
        requires
            0 <= interval <= longer,
            0 <= counted <= more,
    ;
}

/// A payload is addressed to a neighbor exactly if there is an edge to it, whatever the transport and
/// the state of the edge, and then to the endpoint of that very edge.
pub proof fn law_any_edge_to_the_neighbor_will_do(
    edges: Map<EdgeKey, MeshEdgeView>,
    local_node_id: NodeId,
    next_hop: NodeId,
)
    ensures
        ({
            let key = EdgeKey { from_node_id: local_node_id, to_node_id: next_hop };
            let found = neighbor_endpoint(edges, local_node_id, Some(next_hop));
            &&& found is Some <==> edges.contains_key(key)
            &&& found is Some ==> found->0 == edges[key].observation.value.endpoint
            &&& neighbor_endpoint(edges, local_node_id, None) is None
        }),
{
}

/// A receipt names the node that the payload is for, the route and the neighbor that it took, and how
/// and where it left.
pub proof fn law_receipt_tells_what_was_queued(
    destination_node_id: NodeId,
    route_id: RouteId,
    queued: QueuedTransportCommand,
)
    ensures
        ({
            let receipt = receipt_for(destination_node_id, route_id, queued);
            &&& receipt.destination_node_id == destination_node_id
            &&& receipt.route_id == route_id
            &&& receipt.next_hop_node_id == queued.next_hop_node_id
            &&& queued.intent@ matches DeliveryIntentView::Unicast { endpoint } ==> receipt.endpoint
                == endpoint && receipt.delivery_mode == TransportDeliveryMode::Unicast
        }),
{
}

/// The application sees every client payload of a round, from the node that it came from and without
/// its mark, and nothing else. What it sees of two rounds is what it sees of the one and then of the
/// other.
pub proof fn law_application_sees_every_client_payload(
    first: Seq<TransportObservation>,
    second: Seq<TransportObservation>,
    observation: TransportObservation,
    payload: Seq<u8>,
)
    ensures
        application_sees(first + second) == application_sees(first) + application_sees(second),
        observation@ is LinkObserved ==> application_sees(seq![observation]).len() == 0,
        observation@ is PayloadReceived && client_payload(observation@->PayloadReceived_payload)
            is None ==> application_sees(seq![observation]).len() == 0,
        observation@ is PayloadReceived && observation@->PayloadReceived_payload == client_frame(
            payload,
        ) ==> application_sees(seq![observation]) == seq![
            (observation@->PayloadReceived_from_node_id, payload),
        ],
    decreases second.len(),
{
    law_client_payload_round_trip(payload);
    let one = seq![observation];
    assert(one.drop_last() =~= Seq::<TransportObservation>::empty());
    assert(application_sees(Seq::<TransportObservation>::empty()).len() == 0);
    if observation@ is PayloadReceived && observation@->PayloadReceived_payload == client_frame(
        payload,
    ) {
        assert(application_sees(one) =~= seq![
            (observation@->PayloadReceived_from_node_id, payload),
        ]);
    }
    if second.len() == 0 {
        assert(first + second =~= first);
        assert(application_sees(first) + application_sees(second) =~= application_sees(first));
    } else {
        let all = first + second;
        assert(all.drop_last() =~= first + second.drop_last());
        assert(all.last() == second.last());
        law_application_sees_every_client_payload(first, second.drop_last(), observation, payload);
        assert(application_sees(all) =~= application_sees(first) + application_sees(second));
    }
}

/// A payload is addressed to a neighbor exactly if the topology has an edge to it, and then to the
/// endpoint of that edge; otherwise there is no route.
pub proof fn law_addressing_needs_an_edge_only(
    topology: MeshTopology,
    local_node_id: NodeId,
    neighbor: Option<NodeId>,
    result: Result<QueuedTransportCommand, BleClientError>,
)
    requires
        call_ensures(address_to_neighbor, (&topology, local_node_id, neighbor), result),
    ensures
        ({
            let key = EdgeKey { from_node_id: local_node_id, to_node_id: neighbor->0 };
            &&& result is Ok <==> neighbor is Some && topology.edges@.contains_key(key)
            &&& result matches Ok(queued) ==> {
                &&& queued.next_hop_node_id == neighbor->0
                &&& queued.intent@ == (DeliveryIntentView::Unicast {
                    endpoint: topology.edges@[key].observation.value.endpoint@,
                })
            }
            &&& result matches Err(error) ==> error == BleClientError::Route(
                RouteError::Selection(RouteSelectionError::NoCandidate),
            )
        }),
{
}

/// A group of up to eight receivers is always planned, over the fanout endpoint and for exactly these
/// receivers; any other group is refused.
pub proof fn law_small_groups_are_planned(
    local_node_id: NodeId,
    group_id: MulticastGroupId,
    receivers: Vec<NodeId>,
    result: Result<TransportDeliveryIntent, BleClientError>,
)
    requires
        call_ensures(plan_multicast, (local_node_id, group_id, &receivers), result),
    ensures
        result is Ok <==> 1 <= receivers@.len() <= 8,
        result matches Ok(intent) ==> {
            &&& intent@ matches DeliveryIntentView::Multicast {
                endpoint,
                group_id: group,
                receivers: planned,
            }
            &&& endpoint == notify_fanout_view()
            &&& group == group_id
            &&& forall|node: NodeId| #[trigger]
                planned.contains(node) <==> receivers@.contains(node)
        },
        result matches Err(error) ==> error == BleClientError::DeliveryAdmission(
            RouteAdmissionRejection::DeliveryAssumptionUnsupported,
        ),
{
    crate::multicast::law_groups_of_up_to_eight_fit(receivers@.len());
    if let Ok(intent) = result {
        crate::multicast::law_supported_group_is_admitted(
            group_id,
            receivers@,
            intent@->Multicast_receivers,
        );
    }
}

/// Another round is wanted at once exactly if the round did something and the router asked for it.
pub proof fn law_follow_up_is_what_the_router_asked_for(
    progress: BleBridgeProgress,
    follow_up: bool,
)
    requires
        call_ensures(wants_follow_up, (&progress,), follow_up),
    ensures
        follow_up <==> progress is Advanced && progress->Advanced_0.router_outcome.next_round_hint
            is Immediate,
{
}

} // verus!
