//! The BLE runtime: what each event of the radio changes, and what is to be done about it.
//!
//! [`BleRuntimeTask`] is the single owner of discovery hints, resolved peers, sessions and L2CAP
//! channels. Its methods take what the radio reported and say what to do next; they assign no
//! logical time.

use crate::cast::{raw_ble_link_faulted_event, raw_ble_link_observed_event, raw_link_event};
use crate::config::{BleConfig, BleLinkError};
use crate::delivery::{DeliveryIntentView, TransportDeliveryIntent};
use crate::endpoint::{DeviceId, LinkEndpoint, LinkEndpointView, endpoint_views};
use crate::gatt::{
    GattService, JACQUARD_C2P_CHAR_UUID, JACQUARD_IDENTITY_SERVICE_UUID, JACQUARD_NODE_ID_CHAR_UUID,
    JACQUARD_P2C_CHAR_UUID, JACQUARD_PSM_CHAR_UUID, Psm, Uuid, device_id_from_endpoint,
    discovery_hint, discovery_service_uuid, discovery_value, encode_psm_value, endpoint_device,
    gatt_endpoint, gatt_endpoint_view, gatt_notify_fanout_endpoint, hint_matches_node_id, id_prefix,
    in_discovery_namespace, law_hint_is_found_anywhere,
    l2cap_endpoint, l2cap_endpoint_view, law_discovery_hint_round_trip,
    law_endpoint_names_its_device, lemma_discovery_value,
    notify_fanout_view, parse_discovery_hint, psm_bytes, transport_gatt_service, transport_service,
};
use crate::identity::{NodeId, bytes_to_vec};
use crate::l2cap::parse_node_id;
use crate::link::{IngressEventView, LinkRuntimeState, TransportIngressEvent};
use crate::notify::{
    NotifyPlatform, device_names, is_subscriber, platform_notify_device_ids,
    receivers_are_all_subscribers,
};
use crate::ordered_map::{MapKey, OrderedMap, ascending};
use crate::peers::{
    DiscoveredPeerHint, HintView, PeerIdentityState, PeerIdentityView, addresses_resolving,
    addresses_without, ask_claim, claim_answer, claim_key, directory_addresses, directory_states, identity_state, new_claims,
    new_directory, no_addresses, no_states, remove_peer, resolve_peer, resolved_node,
    states_resolving, upsert_hint,
};
use crate::session::{
    BleChannelId, BleNotifySubscriber, BleSession, PathsView, PeerSessions, PeerSessionsView,
    SessionView, holds_session, law_closed_channel_is_not_used,
    law_every_path_to_a_device_is_listed, law_payloads_leave_over_a_held_session,
    law_promotion_keeps_a_gatt_path, law_references_miss_no_path,
    law_unsubscribing_spares_the_others, leads_to, session_place, without_first,
};
use crate::startup::{
    AdapterPowerState, BleStartupState, ListenerOutcome, StartOutcome, StartupStep, listener_after,
    nothing_started, step_after, step_for_power,
};
use jacquard_host_support::{ClaimGuard, PeerDirectory, PendingClaims};
use std::collections::VecDeque;
use vstd::prelude::*;

verus! {

/// A device that the radio reported, with the services that it advertises.
#[derive(Debug)]
pub struct BleDevice {
    pub id: DeviceId,
    pub services: Vec<Uuid>,
}

/// What the platform kept while the host was suspended.
#[derive(Debug)]
pub struct BleRestoredState {
    pub central_devices: Vec<BleDevice>,
    pub peripheral_service_uuids: Vec<Uuid>,
}

impl Default for BleRestoredState {
    fn default() -> (state: Self)
        ensures
            state.central_devices@.len() == 0,
            state.peripheral_service_uuids@.len() == 0,
    {
        BleRestoredState { central_devices: Vec::new(), peripheral_service_uuids: Vec::new() }
    }
}

/// The owner of an L2CAP channel.
#[derive(Debug)]
pub struct ActiveL2capChannel {
    pub node_id: NodeId,
    pub device_id: DeviceId,
}

/// What an [`ActiveL2capChannel`] says.
pub ghost struct ChannelView {
    pub node_id: NodeId,
    pub device_id: Seq<char>,
}

/// A connection that is to be attempted. The claim on the device is held as long as this lives.
pub struct ConnectAttempt {
    pub device_id: DeviceId,
    pub claim: ClaimGuard<String>,
}

impl ConnectAttempt {
    /// Whether the attempt is at a device, under a claim on that very device.
    pub open spec fn is_at(self, device_id: Seq<char>) -> bool {
        self.device_id@ == device_id && claim_key(self.claim) == device_id
    }
}

/// What came of asking for a device: the claim on that very device decides, and nothing else does.
pub open spec fn attempt_decided(
    claims: PendingClaims<String>,
    device_id: Seq<char>,
    attempt: Option<ConnectAttempt>,
) -> bool {
    match attempt {
        Some(a) => a.is_at(device_id) && claim_answer(claims, device_id, Some(a.claim)),
        None => claim_answer(claims, device_id, None),
    }
}

/// The attempt that a claim allows.
pub fn connect_attempt(device_id: DeviceId, claim: Option<ClaimGuard<String>>) -> (attempt: Option<
    ConnectAttempt,
>)
    ensures
        claim is None ==> attempt is None,
        claim is Some ==> attempt is Some && attempt->0.device_id == device_id
            && attempt->0.claim == claim->0,
{
    match claim {
        Some(claim) => Some(ConnectAttempt { device_id, claim }),
        None => None,
    }
}

/// What to do with a device that the platform restored.
pub enum RestoredStep {
    /// It still advertises its hint: connect, and wait for the connection to be reported.
    Connect(ConnectAttempt),
    /// Its advertisement is lost: connect, and read its identity right away.
    Identify(ConnectAttempt),
    /// Another attempt is under way.
    Skip,
}

/// What follows for a restored device, given whether it still advertises its hint and the attempt
/// that is allowed at it.
pub fn restored_step(advertises: bool, attempt: Option<ConnectAttempt>) -> (step: RestoredStep)
    ensures
        step == match attempt {
            Some(allowed) => if advertises {
                RestoredStep::Connect(allowed)
            } else {
                RestoredStep::Identify(allowed)
            },
            None => RestoredStep::Skip,
        },
{
    match attempt {
        Some(allowed) => {
            if advertises {
                RestoredStep::Connect(allowed)
            } else {
                RestoredStep::Identify(allowed)
            }
        },
        None => RestoredStep::Skip,
    }
}

/// What to do about a device whose identity was read.
#[derive(Debug, PartialEq, Eq)]
pub enum ConnectedStep {
    /// The identity could not be read: drop what the platform cached of the device.
    RefreshCache,
    /// The device was not asked for.
    Ignore,
    /// The identity does not fit the hint: disconnect.
    Disconnect,
    /// The device is a peer: subscribe to its notifications and install its session.
    Install { node_id: NodeId },
}

/// An L2CAP channel that was taken into use.
#[derive(Debug)]
pub struct L2capInstalled {
    pub channel_id: BleChannelId,
    pub event: TransportIngressEvent,
}

/// Why a device disconnected.
#[derive(Clone, Copy, Debug, PartialEq, Eq, Structural)]
pub enum DisconnectCause {
    AdapterOff,
    LinkLoss,
    LocalClose,
    RemoteClose,
    Timeout,
    Gatt133,
    Unknown(i32),
}

/// What to do about a device that disconnected.
#[derive(Debug)]
pub struct DisconnectOutcome {
    /// Links that failed with it.
    pub events: Vec<TransportIngressEvent>,
    /// Whether to drop what the platform cached of the device.
    pub refresh_cache: bool,
}

/// An event of the central role.
#[derive(Debug)]
pub enum CentralEvent {
    AdapterStateChanged { powered: bool },
    DeviceDiscovered(BleDevice),
    DeviceConnected { device_id: DeviceId },
    DeviceDisconnected { device_id: DeviceId, cause: DisconnectCause },
    CharacteristicNotification { device_id: DeviceId, char_uuid: Uuid, value: Vec<u8> },
}

/// What to do next to bring the radio up.
#[derive(Debug)]
pub enum BringUpStep {
    /// Take up a device that the platform restored.
    TakeUp(BleDevice),
    /// No such device is left: run startup.
    Startup,
}

/// What to do about an event of the central role.
pub enum CentralStep {
    Nothing,
    /// Run startup.
    TryStartup,
    Connect(ConnectAttempt),
    /// Read the device's identity and report it.
    ReadIdentity { device_id: DeviceId },
    Disconnected { device_id: DeviceId, outcome: DisconnectOutcome },
    /// Hand a payload to the router; it may be dropped if the router is behind.
    Payload(TransportIngressEvent),
}

/// What follows for a device that was discovered, given the attempt that is allowed at it.
pub fn discovered_step(attempt: Option<ConnectAttempt>) -> (step: CentralStep)
    ensures
        step == match attempt {
            Some(allowed) => CentralStep::Connect(allowed),
            None => CentralStep::Nothing,
        },
{
    match attempt {
        Some(allowed) => CentralStep::Connect(allowed),
        None => CentralStep::Nothing,
    }
}

/// A request of a remote central.
#[derive(Debug)]
pub enum PeripheralRequest {
    Read { char_uuid: Uuid },
    Write { client_id: DeviceId, char_uuid: Uuid, value: Vec<u8> },
}

/// The answer to a request of a remote central.
#[derive(Debug)]
pub enum PeripheralReply {
    Value(Vec<u8>),
    Reject,
    /// Acknowledge, and hand the payload to the router.
    Accept(TransportIngressEvent),
}

/// A change of the peripheral role.
#[derive(Debug)]
pub enum PeripheralStateEvent {
    AdapterStateChanged { powered: bool },
    SubscriptionChanged { client_id: DeviceId, char_uuid: Uuid, subscribed: bool },
}

/// What to do about a change of the peripheral role.
#[derive(Debug)]
pub enum PeripheralStateStep {
    Nothing,
    TryStartup,
    /// Hand a link event to the router; it must not be lost.
    Control(TransportIngressEvent),
}

/// An event of an L2CAP channel.
#[derive(Debug)]
pub enum L2capRuntimeEvent {
    FrameReceived { channel_id: BleChannelId, payload: Vec<u8> },
    ChannelClosed { channel_id: BleChannelId },
}

/// What to do about an event of an L2CAP channel.
#[derive(Debug)]
pub enum L2capStep {
    Nothing,
    Payload(TransportIngressEvent),
    /// Hand link events to the router; they must not be lost.
    Control(Vec<TransportIngressEvent>),
}

/// How a payload leaves.
#[derive(Debug)]
pub enum DispatchStep {
    /// Over the path to a device.
    Unicast(UnicastDispatch),
    /// By a notification to each of some devices.
    Notify(Vec<DeviceId>),
    Nothing,
}

/// A unicast payload on its way out.
#[derive(Debug)]
pub struct UnicastDispatch {
    pub device_id: DeviceId,
    /// The channel that failed last.
    pub downgraded_l2cap: Option<BleChannelId>,
}

/// What to do after an L2CAP channel refused a payload.
#[derive(Debug)]
pub enum UnicastRetry {
    GiveUp,
    /// Try the path that is open now; the events are for the router.
    Retry(Vec<TransportIngressEvent>),
}

/// The sessions as their views.
pub open spec fn session_views(sessions: Map<NodeId, PeerSessions>) -> Map<
    NodeId,
    PeerSessionsView,
> {
    Map::new(|n: NodeId| sessions.contains_key(n), |n: NodeId| sessions[n]@)
}

/// The channels as their views.
pub open spec fn channel_views(channels: Map<u64, ActiveL2capChannel>) -> Map<u64, ChannelView> {
    Map::new(
        |id: u64| channels.contains_key(id),
        |id: u64|
            ChannelView { node_id: channels[id].node_id, device_id: channels[id].device_id@ },
    )
}

/// The events as their views.
pub open spec fn event_views(events: Seq<TransportIngressEvent>) -> Seq<IngressEventView> {
    events.map_values(|e: TransportIngressEvent| e@)
}

/// What a [`BleRuntimeTask`] holds.
pub ghost struct RuntimeView {
    pub local_node_id: NodeId,
    pub local_psm: Option<Psm>,
    pub config: BleConfig,
    /// The devices that the platform kept and nobody took up yet.
    pub restored_devices: Seq<BleDevice>,
    pub restored_services: Seq<Uuid>,
    pub startup: BleStartupState,
    /// What is known of each device.
    pub states: Map<Seq<char>, PeerIdentityView>,
    /// The device of each resolved node.
    pub addresses: Map<NodeId, Seq<char>>,
    pub sessions: Map<NodeId, PeerSessionsView>,
    pub channels: Map<u64, ChannelView>,
    pub next_channel_id: u64,
    /// Link events that the router had no room for, oldest first.
    pub deferred: Seq<IngressEventView>,
    /// The devices at which an attempt is under way.
    pub claims: PendingClaims<String>,
}

/// The hint that a discovered device gives.
pub open spec fn hint_of(device_id: Seq<char>, prefix: Seq<u8>) -> HintView {
    HintView {
        device_id,
        node_id_prefix: prefix,
        advertised_gatt: true,
        advertised_l2cap: false,
    }
}

impl RuntimeView {
    /// The node that a device was proven to be.
    pub open spec fn node_of(self, device_id: Seq<char>) -> Option<NodeId> {
        resolved_node(self.states, device_id)
    }

    /// The state with a hint for a device; whoever was resolved there is not any more.
    pub open spec fn with_hint(self, device_id: Seq<char>, prefix: Seq<u8>) -> RuntimeView {
        RuntimeView {
            states: self.states.insert(
                device_id,
                PeerIdentityView::Hint(hint_of(device_id, prefix)),
            ),
            addresses: addresses_without(self.states, self.addresses, device_id),
            ..self
        }
    }

    /// The state with a device proven to be a node.
    pub open spec fn with_resolved(self, device_id: Seq<char>, node_id: NodeId) -> RuntimeView {
        RuntimeView {
            states: states_resolving(self.states, self.addresses, device_id, node_id),
            addresses: addresses_resolving(self.states, self.addresses, device_id, node_id),
            ..self
        }
    }

    /// The state without what was known of a device.
    pub open spec fn without_device(self, device_id: Seq<char>) -> RuntimeView {
        RuntimeView {
            states: self.states.remove(device_id),
            addresses: addresses_without(self.states, self.addresses, device_id),
            ..self
        }
    }

    /// The paths of a peer, nothing if it has none.
    pub open spec fn peer(self, node_id: NodeId) -> PeerSessionsView {
        if self.sessions.contains_key(node_id) {
            self.sessions[node_id]
        } else {
            PeerSessionsView { paths: PathsView::Disconnected, subscribers: Seq::empty() }
        }
    }

    /// The state with other paths for a peer.
    pub open spec fn with_peer(self, node_id: NodeId, sessions: PeerSessionsView) -> RuntimeView {
        RuntimeView { sessions: self.sessions.insert(node_id, sessions), ..self }
    }

    /// The state with a GATT connection to a peer.
    pub open spec fn with_gatt_session(
        self,
        node_id: NodeId,
        device_id: Seq<char>,
    ) -> RuntimeView {
        let peer = self.peer(node_id);
        self.with_peer(
            node_id,
            PeerSessionsView {
                paths: peer.paths.with_gatt(SessionView::GattCentral { device_id }),
                ..peer
            },
        )
    }

    /// The state with a new L2CAP channel to a peer.
    pub open spec fn with_l2cap_session(
        self,
        node_id: NodeId,
        device_id: Seq<char>,
    ) -> RuntimeView {
        let peer = self.peer(node_id);
        let channel_id = BleChannelId(self.next_channel_id);
        let opened = RuntimeView {
            channels: self.channels.insert(
                self.next_channel_id,
                ChannelView { node_id, device_id },
            ),
            next_channel_id: if self.next_channel_id == u64::MAX {
                u64::MAX
            } else {
                (self.next_channel_id + 1) as u64
            },
            ..self
        };
        opened.with_peer(
            node_id,
            PeerSessionsView {
                paths: peer.paths.promoted(SessionView::L2cap { device_id, channel_id }),
                ..peer
            },
        )
    }

    /// The state without an L2CAP channel: whoever preferred the channel falls back, whether or not
    /// the channel was still in use.
    pub open spec fn without_channel(self, channel_id: BleChannelId) -> RuntimeView {
        RuntimeView {
            channels: self.channels.remove(channel_id.0),
            sessions: Map::new(
                |n: NodeId| self.sessions.contains_key(n),
                |n: NodeId|
                    PeerSessionsView {
                        paths: self.sessions[n].paths.downgraded(channel_id),
                        ..self.sessions[n]
                    },
            ),
            ..self
        }
    }

    /// Whether closing an L2CAP channel concerns a peer: it owned the channel or preferred it.
    pub open spec fn loses_channel(self, channel_id: BleChannelId, node_id: NodeId) -> bool {
        &&& self.sessions.contains_key(node_id)
        &&& {
            ||| self.sessions[node_id].paths.prefers_channel(channel_id)
            ||| self.channels.contains_key(channel_id.0) && self.channels[channel_id.0].node_id
                == node_id
        }
    }

    /// The path that a peer is left with once an L2CAP channel is closed.
    pub open spec fn path_left(self, channel_id: BleChannelId, node_id: NodeId) -> Option<
        SessionView,
    > {
        self.sessions[node_id].paths.downgraded(channel_id).egress()
    }

    /// The events that closing an L2CAP channel is worth: for each peer that it concerns and that is
    /// left with a path, in order of identity, that path.
    pub open spec fn tells_of_closing(
        self,
        channel_id: BleChannelId,
        events: Seq<IngressEventView>,
    ) -> bool {
        exists|told: Seq<NodeId>| #[trigger] self.closing_tells(channel_id, told, events)
    }

    /// Whether events tell of exactly these peers what closing an L2CAP channel leaves them with.
    pub open spec fn closing_tells(
        self,
        channel_id: BleChannelId,
        told: Seq<NodeId>,
        events: Seq<IngressEventView>,
    ) -> bool {
        &&& ascending(told)
        &&& forall|n: NodeId| #[trigger]
            told.contains(n) <==> self.loses_channel(channel_id, n) && self.path_left(
                channel_id,
                n,
            ) is Some
        &&& events.len() == told.len()
        &&& forall|i: int|
            0 <= i < told.len() ==> #[trigger] events[i] == raw_link_event(
                told[i],
                self.path_left(channel_id, told[i])->0.reached_at(),
                LinkRuntimeState::Active,
            )
    }

    /// The sessions that do not involve a device.
    pub open spec fn sessions_without(self, device_id: Seq<char>) -> Map<NodeId, PeerSessionsView> {
        Map::new(
            |n: NodeId| self.sessions.contains_key(n) && !self.sessions[n].references(device_id),
            |n: NodeId| self.sessions[n],
        )
    }

    /// The channels that do not belong to a node.
    pub open spec fn channels_without(self, node_id: NodeId) -> Map<u64, ChannelView> {
        Map::new(
            |id: u64| self.channels.contains_key(id) && self.channels[id].node_id != node_id,
            |id: u64| self.channels[id],
        )
    }

    /// The state after a device disconnected: nothing in it refers to the device any more, and the
    /// channels of the node that it was are gone.
    pub open spec fn after_disconnect(self, device_id: Seq<char>) -> RuntimeView {
        RuntimeView {
            sessions: self.sessions_without(device_id),
            channels: match self.node_of(device_id) {
                Some(node_id) => self.channels_without(node_id),
                None => self.channels,
            },
            ..self.without_device(device_id)
        }
    }

    /// Whether a peer is the first, by identity, whose outbound path leads to a device.
    pub open spec fn carries_first(self, device_id: Seq<char>, node_id: NodeId) -> bool {
        &&& self.sessions.contains_key(node_id)
        &&& self.sessions[node_id].egress_for(device_id) is Some
        &&& forall|other: NodeId|
            #![trigger self.sessions[other]]
            self.sessions.contains_key(other) && other.before(node_id)
                ==> self.sessions[other].egress_for(device_id) is None
    }

    /// Whether a path leads to a device from any peer.
    pub open spec fn has_egress(self, device_id: Seq<char>) -> bool {
        exists|node_id: NodeId| #[trigger] self.carries_first(device_id, node_id)
    }

    /// The devices that a multicast payload is notified to. Only the fanout endpoint is served, and
    /// only if every receiver subscribed; where the platform cannot address subscribers, only if the
    /// receivers are all of them, and then one notification reaches them all.
    pub open spec fn notified_devices(
        self,
        endpoint: LinkEndpointView,
        receivers: Seq<NodeId>,
        platform: NotifyPlatform,
    ) -> Option<Seq<Seq<char>>> {
        if endpoint != notify_fanout_view() || receivers.len() == 0 || !all_subscribed(
            self.sessions,
            receivers,
        ) {
            None
        } else {
            match platform {
                NotifyPlatform::Targeted => Some(first_devices(self.sessions, receivers)),
                NotifyPlatform::Broadcast => if only_subscribers_are(self.sessions, receivers) {
                    Some(first_devices(self.sessions, receivers).take(1))
                } else {
                    None
                },
            }
        }
    }

    /// How many of some link events can leave.
    pub open spec fn can_leave(self, accepted: nat) -> int {
        if accepted <= self.deferred.len() {
            accepted as int
        } else {
            self.deferred.len() as int
        }
    }

    /// The link events that leave once the router has room for some: the oldest ones, in order.
    pub open spec fn leaving(self, accepted: nat) -> Seq<IngressEventView> {
        self.deferred.take(self.can_leave(accepted))
    }

    /// The state once those left; the others stay as they are.
    pub open spec fn flushed(self, accepted: nat) -> RuntimeView {
        RuntimeView { deferred: self.deferred.skip(self.can_leave(accepted)), ..self }
    }

    /// The payload that a device delivered, over GATT.
    pub open spec fn gatt_payload(
        self,
        device_id: Seq<char>,
        payload: Seq<u8>,
    ) -> Option<IngressEventView> {
        match self.node_of(device_id) {
            Some(from_node_id) => Some(
                IngressEventView::PayloadReceived {
                    from_node_id,
                    endpoint: gatt_endpoint_view(device_id),
                    payload,
                },
            ),
            None => None,
        }
    }
}

/// The single owner of the BLE state.
pub struct BleRuntimeTask {
    local_node_id: NodeId,
    local_psm: Option<Psm>,
    config: BleConfig,
    restored_state: BleRestoredState,
    startup: BleStartupState,
    peers: PeerDirectory<String, DiscoveredPeerHint>,
    pending_claims: PendingClaims<String>,
    sessions: OrderedMap<NodeId, PeerSessions>,
    l2cap_channels: OrderedMap<u64, ActiveL2capChannel>,
    next_channel_id: u64,
    deferred_control_ingress: VecDeque<TransportIngressEvent>,
}

impl View for BleRuntimeTask {
    type V = RuntimeView;

    closed spec fn view(&self) -> RuntimeView {
        RuntimeView {
            local_node_id: self.local_node_id,
            local_psm: self.local_psm,
            config: self.config,
            restored_devices: self.restored_state.central_devices@,
            restored_services: self.restored_state.peripheral_service_uuids@,
            startup: self.startup,
            states: directory_states(self.peers),
            addresses: directory_addresses(self.peers),
            sessions: session_views(self.sessions@),
            channels: channel_views(self.l2cap_channels@),
            next_channel_id: self.next_channel_id,
            deferred: event_views(self.deferred_control_ingress@),
            claims: self.pending_claims,
        }
    }
}

proof fn lemma_session_views_insert(
    sessions: Map<NodeId, PeerSessions>,
    node_id: NodeId,
    peer: PeerSessions,
)
    ensures
        session_views(sessions.insert(node_id, peer)) == session_views(sessions).insert(
            node_id,
            peer@,
        ),
{
    assert(session_views(sessions.insert(node_id, peer)) =~= session_views(sessions).insert(
        node_id,
        peer@,
    ));
}

proof fn lemma_session_views_replace(
    sessions: Map<NodeId, PeerSessions>,
    node_id: NodeId,
    peer: PeerSessions,
)
    ensures
        session_views(sessions.remove(node_id).insert(node_id, peer)) == session_views(
            sessions,
        ).insert(node_id, peer@),
{
    assert(session_views(sessions.remove(node_id).insert(node_id, peer)) =~= session_views(
        sessions,
    ).insert(node_id, peer@));
}

impl BleRuntimeTask {
    /// The maps are proper maps.
    pub closed spec fn wf(&self) -> bool {
        self.sessions.wf() && self.l2cap_channels.wf()
    }

    /// A runtime that knows no peer.
    pub fn new(local_node_id: NodeId, config: BleConfig) -> (result: Result<
        BleRuntimeTask,
        BleLinkError,
    >)
        ensures
            match result {
                Ok(task) => {
                    &&& config.ingress_capacity > 0 && config.command_capacity > 0
                    &&& task.wf()
                    &&& task@ == fresh_runtime(
                        local_node_id,
                        config,
                        Seq::empty(),
                        Seq::empty(),
                        task@.claims,
                    )
                },
                Err(BleLinkError::ZeroIngressCapacity) => config.ingress_capacity == 0,
                Err(BleLinkError::ZeroCommandCapacity) => config.ingress_capacity > 0
                    && config.command_capacity == 0,
            },
    {
        let restored = BleRestoredState::default();
        assert(restored.peripheral_service_uuids@ =~= Seq::<Uuid>::empty());
        assert(restored.central_devices@ =~= Seq::<BleDevice>::empty());
        BleRuntimeTask::new_with_restored_state(local_node_id, config, restored)
    }

    /// A runtime that knows no peer, on a platform that kept some state.
    pub fn new_with_restored_state(
        local_node_id: NodeId,
        config: BleConfig,
        restored_state: BleRestoredState,
    ) -> (result: Result<BleRuntimeTask, BleLinkError>)
        ensures
            match result {
                Ok(task) => {
                    &&& config.ingress_capacity > 0 && config.command_capacity > 0
                    &&& task.wf()
                    &&& task@ == fresh_runtime(
                        local_node_id,
                        config,
                        restored_state.central_devices@,
                        restored_state.peripheral_service_uuids@,
                        task@.claims,
                    )
                },
                Err(BleLinkError::ZeroIngressCapacity) => config.ingress_capacity == 0,
                Err(BleLinkError::ZeroCommandCapacity) => config.ingress_capacity > 0
                    && config.command_capacity == 0,
            },
    {
        match config.validate() {
            Ok(()) => {},
            Err(error) => return Err(error),
        }
        let task = BleRuntimeTask {
            local_node_id,
            local_psm: None,
            config,
            restored_state,
            startup: BleStartupState::default(),
            peers: new_directory(),
            pending_claims: new_claims(),
            sessions: OrderedMap::new(),
            l2cap_channels: OrderedMap::new(),
            next_channel_id: 1,
            deferred_control_ingress: VecDeque::new(),
        };
        proof {
            assert(task@.sessions =~= Map::<NodeId, PeerSessionsView>::empty());
            assert(task@.channels =~= Map::<u64, ChannelView>::empty());
            assert(task@.deferred =~= Seq::<IngressEventView>::empty());
        }
        Ok(task)
    }

    /// The node that a device was proven to be.
    pub fn resolved_node_id_for_device(&self, device_id: &DeviceId) -> (node_id: Option<NodeId>)
        requires
            self.wf(),
        ensures
            node_id == self@.node_of(device_id@),
    {
        match identity_state(&self.peers, &device_id.0) {
            Some(PeerIdentityState::Resolved(node_id)) => Some(node_id),
            _ => None,
        }
    }

    /// Records a proven identity.
    pub fn testing_seed_resolved_peer(&mut self, device_id: DeviceId, node_id: NodeId)
        requires
            old(self).wf(),
        ensures
            final(self).wf(),
            final(self)@ == old(self)@.with_resolved(device_id@, node_id),
    {
        resolve_peer(&mut self.peers, device_id.0, node_id);
    }

    /// Records the paths of a peer.
    pub fn testing_seed_sessions(&mut self, node_id: NodeId, sessions: PeerSessions)
        requires
            old(self).wf(),
        ensures
            final(self).wf(),
            final(self)@ == old(self)@.with_peer(node_id, sessions@),
    {
        proof {
            lemma_session_views_insert(self.sessions@, node_id, sessions);
        }
        self.sessions.insert(node_id, sessions);
    }

    /// Whether a device was proven to be a node.
    pub fn testing_identity_resolved_for_device(&self, device_id: &DeviceId) -> (resolved: bool)
        requires
            self.wf(),
        ensures
            resolved == self@.node_of(device_id@) is Some,
    {
        self.resolved_node_id_for_device(device_id).is_some()
    }

    /// How many peers have paths or subscriptions.
    pub fn testing_session_count(&self) -> (count: u32)
        requires
            self.wf(),
        ensures
            count == if self@.sessions.len() > u32::MAX {
                u32::MAX as nat
            } else {
                self@.sessions.len()
            },
    {
        let count: usize = self.sessions.len();
        proof {
            assert(self@.sessions.dom() =~= self.sessions@.dom());
        }
        if count > u32::MAX as usize {
            u32::MAX
        } else {
            count as u32
        }
    }

    /// Whether payloads can be sent to a device.
    pub fn testing_has_egress_session_for_device(&self, device_id: &DeviceId) -> (found: bool)
        requires
            self.wf(),
        ensures
            found == self@.has_egress(device_id@),
    {
        self.egress_session_for_device(device_id).is_some()
    }

    /// The path that a payload to a device takes: that of the first peer, by identity, whose
    /// outbound path leads there.
    pub fn egress_session_for_device(&self, device_id: &DeviceId) -> (session: Option<BleSession>)
        requires
            self.wf(),
        ensures
            match session {
                Some(s) => exists|node_id: NodeId| #[trigger]
                    self@.carries_first(device_id@, node_id)
                        && self@.sessions[node_id].egress_for(device_id@) == Some(s@),
                None => !self@.has_egress(device_id@),
            },
            session is None <==> forall|node_id: NodeId| #[trigger]
                self@.sessions.contains_key(node_id) ==> self@.sessions[node_id].egress_for(
                    device_id@,
                ) is None,
    {
        let mut i: usize = 0;
        while i < self.sessions.len()
            invariant
                i <= self.sessions.keys().len(),
                self.wf(),
                forall|j: int|
                    0 <= j < i ==> self@.sessions[#[trigger] self.sessions.keys()[j]].egress_for(
                        device_id@,
                    ) is None,
            decreases self.sessions.keys().len() - i,
        {
            let ghost node_id = self.sessions.keys()[i as int];
            proof {
                self.sessions.lemma_at(i as int);
                assert(self@.sessions.contains_key(node_id));
            }
            if let Some(session) = self.sessions.value_at(i).egress_for_device(device_id) {
                proof {
                    assert forall|other: NodeId|
                        #![trigger self@.sessions[other]]
                        self@.sessions.contains_key(other) && other.before(
                            node_id,
                        ) implies self@.sessions[other].egress_for(device_id@) is None by {
                        let j = self.sessions.lemma_position(other);
                        assert(self.sessions.keys()[j] == other);
                        if j >= i {
                            NodeId::lemma_irreflexive(node_id);
                            if j > i {
                                assert(node_id.before(other));
                                NodeId::lemma_transitive(node_id, other, node_id);
                            }
                        }
                    }
                    assert(self@.carries_first(device_id@, node_id));
                }
                return Some(session);
            }
            i = i + 1;
        }
        proof {
            assert forall|node_id: NodeId| #[trigger]
                self@.sessions.contains_key(node_id) implies self@.sessions[node_id].egress_for(
                device_id@,
            ) is None by {
                let j = self.sessions.lemma_position(node_id);
                assert(self.sessions.keys()[j] == node_id);
            }
        }
        None
    }

    /// Takes note of an advertising device. A mesh peer's hint is recorded, and the device is to be
    /// connected unless another attempt is under way.
    pub fn handle_device_discovered(&mut self, device: BleDevice) -> (attempt: Option<
        ConnectAttempt,
    >)
        requires
            old(self).wf(),
        ensures
            final(self).wf(),
            match discovery_hint(device.services@) {
                Some(prefix) => {
                    &&& final(self)@ == old(self)@.with_hint(device.id@, prefix)
                    &&& attempt matches Some(a) ==> a.is_at(device.id@)
                },
                None => final(self)@ == old(self)@ && attempt is None,
            },
            discovers(old(self)@, device, final(self)@, attempt),
    {
        let prefix = match parse_discovery_hint(device.services.as_slice()) {
            Some(prefix) => prefix,
            None => return None,
        };
        let hint = DiscoveredPeerHint {
            device_id: device.id.clone(),
            node_id_prefix: prefix,
            advertised_gatt: true,
            advertised_l2cap: false,
        };
        upsert_hint(&mut self.peers, device.id.0.clone(), hint);
        let claim = ask_claim(&self.pending_claims, device.id.0.clone());
        connect_attempt(device.id, claim)
    }

    /// Takes up a device that the platform restored. One that still advertises its hint is handled
    /// like any discovered device; another one is to be connected and asked for its identity.
    pub fn handle_restored_device(&mut self, device: BleDevice) -> (step: RestoredStep)
        requires
            old(self).wf(),
        ensures
            final(self).wf(),
            match discovery_hint(device.services@) {
                Some(prefix) => {
                    &&& final(self)@ == old(self)@.with_hint(device.id@, prefix)
                    &&& !(step is Identify)
                    &&& step matches RestoredStep::Connect(a) ==> a.is_at(device.id@)
                },
                None => {
                    &&& final(self)@ == old(self)@
                    &&& !(step is Connect)
                    &&& step matches RestoredStep::Identify(a) ==> a.is_at(device.id@)
                },
            },
            restores(old(self)@, device, final(self)@, step),
    {
        if parse_discovery_hint(device.services.as_slice()).is_some() {
            return restored_step(true, self.handle_device_discovered(device));
        }
        let claim = ask_claim(&self.pending_claims, device.id.0.clone());
        restored_step(false, connect_attempt(device.id, claim))
    }

    /// Judges the identity that a restored device showed.
    pub fn handle_restored_identity(
        &mut self,
        device_id: &DeviceId,
        identity: Option<Vec<u8>>,
    ) -> (step: ConnectedStep)
        requires
            old(self).wf(),
        ensures
            final(self).wf(),
            match shown_identity(identity) {
                Some(shown) => {
                    &&& step matches ConnectedStep::Install { node_id }
                    &&& node_id.0@ == shown
                    &&& final(self)@ == old(self)@.with_resolved(device_id@, node_id)
                },
                None => step is RefreshCache && final(self)@ == old(self)@,
            },
    {
        let bytes = match identity {
            Some(bytes) => bytes,
            None => return ConnectedStep::RefreshCache,
        };
        match parse_node_id(bytes.as_slice()) {
            Ok(node_id) => {
                resolve_peer(&mut self.peers, device_id.0.clone(), node_id);
                ConnectedStep::Install { node_id }
            },
            Err(_) => ConnectedStep::RefreshCache,
        }
    }

    /// Judges the identity that a connected device showed. Only a device that was asked for by its
    /// hint becomes a peer, and only if the identity fits the hint.
    pub fn handle_device_connected(
        &mut self,
        device_id: &DeviceId,
        identity: Option<Vec<u8>>,
    ) -> (step: ConnectedStep)
        requires
            old(self).wf(),
        ensures
            final(self).wf(),
            match shown_identity(identity) {
                None => step is RefreshCache && final(self)@ == old(self)@,
                Some(shown) => match awaited_prefix(old(self)@, device_id@) {
                    None => step is Ignore && final(self)@ == old(self)@,
                    Some(prefix) => if prefix == shown.take(6) {
                        &&& step matches ConnectedStep::Install { node_id }
                        &&& node_id.0@ == shown
                        &&& final(self)@ == old(self)@.with_resolved(device_id@, node_id)
                    } else {
                        step is Disconnect && final(self)@ == old(self)@.without_device(device_id@)
                    },
                },
            },
    {
        let bytes = match identity {
            Some(bytes) => bytes,
            None => return ConnectedStep::RefreshCache,
        };
        let node_id = match parse_node_id(bytes.as_slice()) {
            Ok(node_id) => node_id,
            Err(_) => return ConnectedStep::RefreshCache,
        };
        let hint = match identity_state(&self.peers, &device_id.0) {
            Some(PeerIdentityState::Hint(hint)) => hint,
            _ => return ConnectedStep::Ignore,
        };
        if !hint_matches_node_id(hint.node_id_prefix, &node_id) {
            remove_peer(&mut self.peers, &device_id.0);
            return ConnectedStep::Disconnect;
        }
        resolve_peer(&mut self.peers, device_id.0.clone(), node_id);
        ConnectedStep::Install { node_id }
    }

    /// Takes the GATT connection to a peer into use, and hands back the event for the router.
    pub fn install_gatt_session(&mut self, node_id: NodeId, device_id: &DeviceId) -> (event:
        TransportIngressEvent)
        requires
            old(self).wf(),
        ensures
            final(self).wf(),
            final(self)@ == old(self)@.with_gatt_session(node_id, device_id@),
            event@ == raw_link_event(
                node_id,
                gatt_endpoint_view(device_id@),
                LinkRuntimeState::Active,
            ),
    {
        let session = BleSession::GattCentral { device_id: device_id.clone() };
        let ghost before = self.sessions@;
        match self.sessions.remove(&node_id) {
            Some(peer) => {
                let mut peer = peer;
                peer.install_gatt_central(session);
                proof {
                    lemma_session_views_replace(before, node_id, peer);
                }
                self.sessions.insert(node_id, peer);
            },
            None => {
                let peer = PeerSessions::gatt_with_fallback(session);
                proof {
                    lemma_session_views_replace(before, node_id, peer);
                }
                self.sessions.insert(node_id, peer);
            },
        }
        raw_ble_link_observed_event(node_id, gatt_endpoint(device_id))
    }

    /// The identity of the next L2CAP channel.
    fn next_channel_id(&mut self) -> (channel_id: BleChannelId)
        requires
            old(self).wf(),
        ensures
            final(self).wf(),
            channel_id == BleChannelId(old(self)@.next_channel_id),
            final(self)@ == (RuntimeView {
                next_channel_id: if old(self)@.next_channel_id == u64::MAX {
                    u64::MAX
                } else {
                    (old(self)@.next_channel_id + 1) as u64
                },
                ..old(self)@
            }),
    {
        let channel_id = BleChannelId(self.next_channel_id);
        self.next_channel_id = self.next_channel_id.saturating_add(1);
        channel_id
    }

    /// Takes an L2CAP channel to a peer into use, and hands back its identity and the event for the
    /// router.
    pub fn install_l2cap_session(&mut self, node_id: NodeId, device_id: &DeviceId) -> (installed:
        L2capInstalled)
        requires
            old(self).wf(),
        ensures
            final(self).wf(),
            final(self)@ == old(self)@.with_l2cap_session(node_id, device_id@),
            installed.channel_id == BleChannelId(old(self)@.next_channel_id),
            installed.event@ == raw_link_event(
                node_id,
                l2cap_endpoint_view(device_id@),
                LinkRuntimeState::Active,
            ),
    {
        let channel_id = self.next_channel_id();
        let ghost channels_before = self.l2cap_channels@;
        let channel = ActiveL2capChannel { node_id, device_id: device_id.clone() };
        proof {
            assert(channel_views(channels_before.insert(channel_id.0, channel)) =~= channel_views(
                channels_before,
            ).insert(channel_id.0, ChannelView { node_id, device_id: device_id@ }));
        }
        self.l2cap_channels.insert(channel_id.0, channel);
        let session = BleSession::L2cap { device_id: device_id.clone(), channel_id };
        let ghost before = self.sessions@;
        match self.sessions.remove(&node_id) {
            Some(peer) => {
                let mut peer = peer;
                peer.promote_l2cap(session);
                proof {
                    lemma_session_views_replace(before, node_id, peer);
                }
                self.sessions.insert(node_id, peer);
            },
            None => {
                let peer = PeerSessions::l2cap_preferred(session, None);
                proof {
                    lemma_session_views_replace(before, node_id, peer);
                }
                self.sessions.insert(node_id, peer);
            },
        }
        let event = raw_ble_link_observed_event(node_id, l2cap_endpoint(device_id));
        L2capInstalled { channel_id, event }
    }

    /// Judges an L2CAP channel that a device opened: it is taken into use only if the identity that
    /// came over it is the one that the device was proven to be.
    pub fn handle_l2cap_accept(
        &mut self,
        device_id: &DeviceId,
        identity: Option<NodeId>,
    ) -> (installed: Option<L2capInstalled>)
        requires
            old(self).wf(),
        ensures
            final(self).wf(),
            if identity is Some && old(self)@.node_of(device_id@) == identity {
                &&& installed matches Some(i)
                &&& final(self)@ == old(self)@.with_l2cap_session(identity->0, device_id@)
                &&& i.channel_id == BleChannelId(old(self)@.next_channel_id)
                &&& i.event@ == raw_link_event(
                    identity->0,
                    l2cap_endpoint_view(device_id@),
                    LinkRuntimeState::Active,
                )
            } else {
                installed is None && final(self)@ == old(self)@
            },
    {
        let remote_node_id = match identity {
            Some(remote_node_id) => remote_node_id,
            None => return None,
        };
        match self.resolved_node_id_for_device(device_id) {
            Some(node_id) => {
                if node_id != remote_node_id {
                    return None;
                }
            },
            None => return None,
        }
        Some(self.install_l2cap_session(remote_node_id, device_id))
    }

    /// Takes note of a closed L2CAP channel, and hands back the events for the router, one for each
    /// peer that is concerned and left with a path. A channel that is not in use any more may still
    /// be preferred by a peer; that peer falls back too.
    pub fn handle_l2cap_channel_closed(&mut self, channel_id: BleChannelId) -> (events: Vec<
        TransportIngressEvent,
    >)
        requires
            old(self).wf(),
        ensures
            final(self).wf(),
            final(self)@ == old(self)@.without_channel(channel_id),
            old(self)@.tells_of_closing(channel_id, event_views(events@)),
    {
        let ghost start = self@;
        let ghost channels_before = self.l2cap_channels@;
        let owner = match self.l2cap_channels.remove(&channel_id.0) {
            Some(channel) => Some(channel.node_id),
            None => None,
        };
        proof {
            assert(channel_views(channels_before.remove(channel_id.0)) =~= channel_views(
                channels_before,
            ).remove(channel_id.0));
        }
        let ghost all = self.sessions;
        let mut left: OrderedMap<NodeId, PeerSessions> = OrderedMap::new();
        std::mem::swap(&mut left, &mut self.sessions);
        let mut sessions: OrderedMap<NodeId, PeerSessions> = OrderedMap::new();
        let mut events: Vec<TransportIngressEvent> = Vec::new();
        let ghost mut told: Seq<NodeId> = Seq::empty();
        let ghost mut done: int = 0;
        while left.len() > 0
            invariant
                all.wf(),
                left.wf(),
                sessions.wf(),
                start.sessions == session_views(all@),
                owner is Some <==> start.channels.contains_key(channel_id.0),
                owner is Some ==> owner->0 == start.channels[channel_id.0].node_id,
                0 <= done <= all.keys().len(),
                left.keys() == all.keys().skip(done),
                forall|n: NodeId| #[trigger]
                    left@.contains_key(n) ==> all@.contains_key(n) && left@[n] == all@[n],
                forall|n: NodeId| #[trigger]
                    sessions@.contains_key(n) <==> all.keys().take(done).contains(n),
                forall|n: NodeId| #[trigger]
                    sessions@.contains_key(n) ==> sessions@[n]@ == (PeerSessionsView {
                        paths: all@[n]@.paths.downgraded(channel_id),
                        ..all@[n]@
                    }),
                ascending(told),
                forall|n: NodeId| #[trigger]
                    told.contains(n) <==> all.keys().take(done).contains(n)
                        && start.loses_channel(channel_id, n) && start.path_left(
                        channel_id,
                        n,
                    ) is Some,
                events@.len() == told.len(),
                forall|i: int|
                    0 <= i < told.len() ==> (#[trigger] events@[i])@ == raw_link_event(
                        told[i],
                        start.path_left(channel_id, told[i])->0.reached_at(),
                        LinkRuntimeState::Active,
                    ),
            decreases left.keys().len(),
        {
            let node_id = left.key_at(0);
            proof {
                left.lemma_at(0);
                all.lemma_at(done);
                assert(all.keys()[done] == node_id);
                assert(start.sessions.contains_key(node_id));
            }
            let mut peer = left.remove_at(0);
            let concerned = peer.prefers_channel(channel_id) || match owner {
                Some(owner) => owner == node_id,
                None => false,
            };
            let egress = peer.downgrade_l2cap(channel_id);
            let ghost told_before = told;
            if concerned {
                if let Some(session) = egress {
                    events.push(raw_ble_link_observed_event(node_id, session.endpoint()));
                    proof {
                        told = told.push(node_id);
                    }
                }
            }
            let _ = sessions.insert(node_id, peer);
            proof {
                let listed = all.keys().take(done);
                let longer = all.keys().take(done + 1);
                assert(longer =~= listed.push(node_id));
                assert(left.keys() =~= all.keys().skip(done + 1));
                assert(listed.push(node_id)[done] == node_id);
                assert forall|n: NodeId| #[trigger]
                    longer.contains(n) <==> listed.contains(n) || n == node_id by {
                    if listed.contains(n) {
                        let k = listed.index_of(n);
                        assert(longer[k] == n);
                    }
                    if longer.contains(n) {
                        let k = longer.index_of(n);
                        if k < done {
                            assert(listed[k] == n);
                        }
                    }
                    if n == node_id {
                        assert(longer[done] == n);
                    }
                }
                assert forall|i: int| 0 <= i < told_before.len() implies (
                #[trigger] told_before[i]).before(node_id) by {
                    assert(told_before.contains(told_before[i]));
                    let k = listed.index_of(told_before[i]);
                    assert(all.keys()[k].before(all.keys()[done]));
                }
                assert(told_before.push(node_id)[told_before.len() as int] == node_id);
                assert forall|n: NodeId| #[trigger] told.contains(n) <==> longer.contains(n)
                    && start.loses_channel(channel_id, n) && start.path_left(
                    channel_id,
                    n,
                ) is Some by {
                    if told_before.contains(n) {
                        let k = told_before.index_of(n);
                        assert(told[k] == n);
                    }
                    if told.contains(n) && n != node_id {
                        let k = told.index_of(n);
                        assert(told_before[k] == n);
                    }
                    if told.contains(node_id) && told == told_before {
                        let k = told_before.index_of(node_id);
                        assert(told_before[k].before(node_id));
                        NodeId::lemma_irreflexive(node_id);
                    }
                    if told != told_before {
                        assert(told[told_before.len() as int] == node_id);
                    }
                }
                done = done + 1;
            }
        }
        proof {
            assert(all.keys().take(done) =~= all.keys());
            assert forall|n: NodeId| #[trigger] all@.contains_key(n) <==> all.keys().contains(
                n,
            ) by {}
            assert(session_views(sessions@) =~= start.without_channel(channel_id).sessions);
            assert forall|n: NodeId| #[trigger]
                told.contains(n) <==> start.loses_channel(channel_id, n) && start.path_left(
                channel_id,
                n,
            ) is Some by {
                if start.loses_channel(channel_id, n) {
                    assert(all@.contains_key(n));
                }
            }
            assert(start.closing_tells(channel_id, told, event_views(events@)));
        }
        self.sessions = sessions;
        events
    }

    /// Forgets the L2CAP channels of a node.
    fn drop_l2cap_channels_for_node(&mut self, node_id: NodeId)
        requires
            old(self).wf(),
        ensures
            final(self).wf(),
            final(self)@ == (RuntimeView {
                channels: old(self)@.channels_without(node_id),
                ..old(self)@
            }),
    {
        let ghost before = self.l2cap_channels@;
        let mut channels: OrderedMap<u64, ActiveL2capChannel> = OrderedMap::new();
        std::mem::swap(&mut channels, &mut self.l2cap_channels);
        let mut i: usize = 0;
        while i < channels.len()
            invariant
                channels.wf(),
                i <= channels.keys().len(),
                forall|id: u64| #[trigger]
                    channels@.contains_key(id) ==> before.contains_key(id) && channels@[id]
                        == before[id],
                forall|id: u64| #[trigger]
                    before.contains_key(id) && before[id].node_id != node_id
                        ==> channels@.contains_key(id),
                forall|j: int|
                    0 <= j < i ==> channels@[#[trigger] channels.keys()[j]].node_id != node_id,
            decreases channels.keys().len() - i,
        {
            let ghost kept = channels;
            if channels.value_at(i).node_id == node_id {
                proof {
                    channels.lemma_at(i as int);
                    assert forall|j: int| 0 <= j < i implies channels@.remove(
                        channels.keys()[i as int],
                    )[#[trigger] channels.keys()[j]].node_id != node_id by {
                        channels.lemma_at(j);
                    }
                }
                channels.remove_at(i);
                proof {
                    assert forall|j: int| 0 <= j < i implies channels@[
                        #[trigger] channels.keys()[j]].node_id != node_id by {
                        assert(channels.keys()[j] == kept.keys()[j]);
                        channels.lemma_at(j);
                    }
                }
            } else {
                i = i + 1;
            }
        }
        proof {
            assert forall|id: u64| #[trigger] channels@.contains_key(id) implies channels@[id].node_id
                != node_id by {
                let j = channels.lemma_position(id);
                assert(channels.keys()[j] == id);
            }
            assert(channel_views(channels@) =~= old(self)@.channels_without(node_id));
        }
        self.l2cap_channels = channels;
    }

    /// Forgets the peers that involve a device.
    fn drop_sessions_for_device(&mut self, device_id: &DeviceId)
        requires
            old(self).wf(),
        ensures
            final(self).wf(),
            final(self)@ == (RuntimeView {
                sessions: old(self)@.sessions_without(device_id@),
                ..old(self)@
            }),
    {
        let ghost before = self.sessions@;
        let mut sessions: OrderedMap<NodeId, PeerSessions> = OrderedMap::new();
        std::mem::swap(&mut sessions, &mut self.sessions);
        let mut i: usize = 0;
        while i < sessions.len()
            invariant
                sessions.wf(),
                i <= sessions.keys().len(),
                forall|n: NodeId| #[trigger]
                    sessions@.contains_key(n) ==> before.contains_key(n) && sessions@[n]
                        == before[n],
                forall|n: NodeId| #[trigger]
                    before.contains_key(n) && !before[n]@.references(device_id@)
                        ==> sessions@.contains_key(n),
                forall|j: int|
                    0 <= j < i ==> !sessions@[#[trigger] sessions.keys()[j]]@.references(
                        device_id@,
                    ),
            decreases sessions.keys().len() - i,
        {
            let ghost kept = sessions;
            if sessions.value_at(i).references_device(device_id) {
                proof {
                    sessions.lemma_at(i as int);
                }
                sessions.remove_at(i);
                proof {
                    assert forall|j: int| 0 <= j < i implies !sessions@[
                        #[trigger] sessions.keys()[j]]@.references(device_id@) by {
                        assert(sessions.keys()[j] == kept.keys()[j]);
                        sessions.lemma_at(j);
                    }
                }
            } else {
                i = i + 1;
            }
        }
        proof {
            assert forall|n: NodeId| #[trigger]
                sessions@.contains_key(n) implies !sessions@[n]@.references(device_id@) by {
                let j = sessions.lemma_position(n);
                assert(sessions.keys()[j] == n);
            }
            assert(session_views(sessions@) =~= old(self)@.sessions_without(device_id@));
        }
        self.sessions = sessions;
    }

    /// The events that the links of a peer over a device failed, one for each endpoint.
    fn faulted_links_for_device(&self, node_id: NodeId, device_id: &DeviceId) -> (events: Vec<
        TransportIngressEvent,
    >)
        requires
            self.wf(),
        ensures
            event_views(events@) == fault_events(self@.peer(node_id), node_id, device_id@),
    {
        let mut events: Vec<TransportIngressEvent> = Vec::new();
        match self.sessions.get(&node_id) {
            Some(peer) => {
                let endpoints = peer.endpoints_for_device(device_id);
                let ghost listed = endpoint_views(endpoints@);
                let mut i: usize = 0;
                while i < endpoints.len()
                    invariant
                        i <= endpoints@.len(),
                        listed == endpoint_views(endpoints@),
                        events@.len() == i,
                        forall|j: int|
                            0 <= j < i ==> (#[trigger] events@[j])@ == raw_link_event(
                                node_id,
                                listed[j],
                                LinkRuntimeState::Faulted,
                            ),
                    decreases endpoints@.len() - i,
                {
                    assert(listed[i as int] == endpoints@[i as int]@);
                    events.push(raw_ble_link_faulted_event(node_id, endpoints[i].clone()));
                    i = i + 1;
                }
                assert(event_views(events@) =~= fault_events(
                    self@.peer(node_id),
                    node_id,
                    device_id@,
                ));
            },
            None => {
                reveal_with_fuel(crate::session::session_endpoints, 1);
                assert(event_views(events@) =~= fault_events(
                    self@.peer(node_id),
                    node_id,
                    device_id@,
                ));
            },
        }
        events
    }

    /// Takes note of a device that disconnected: its links fail, and nothing refers to it any more.
    pub fn handle_device_disconnected(
        &mut self,
        device_id: &DeviceId,
        cause: DisconnectCause,
    ) -> (outcome: DisconnectOutcome)
        requires
            old(self).wf(),
        ensures
            final(self).wf(),
            final(self)@ == old(self)@.after_disconnect(device_id@),
            outcome.refresh_cache == (cause == DisconnectCause::Gatt133),
            match old(self)@.node_of(device_id@) {
                Some(node_id) => event_views(outcome.events@) == fault_events(
                    old(self)@.peer(node_id),
                    node_id,
                    device_id@,
                ),
                None => outcome.events@.len() == 0,
            },
    {
        let ghost before = self@;
        let removed = remove_peer(&mut self.peers, &device_id.0);
        let mut events: Vec<TransportIngressEvent> = Vec::new();
        if let Some(PeerIdentityState::Resolved(node_id)) = removed {
            events = self.faulted_links_for_device(node_id, device_id);
            self.drop_l2cap_channels_for_node(node_id);
        }
        self.drop_sessions_for_device(device_id);
        let refresh_cache = match cause {
            DisconnectCause::Gatt133 => true,
            _ => false,
        };
        DisconnectOutcome { events, refresh_cache }
    }

    /// Answers a remote central: the identity and the PSM can be read, and only a device that was
    /// proven to be a node can write payloads.
    pub fn handle_peripheral_request(&self, request: PeripheralRequest) -> (reply: PeripheralReply)
        requires
            self.wf(),
        ensures
            match request {
                PeripheralRequest::Read { char_uuid } => if char_uuid
                    == JACQUARD_NODE_ID_CHAR_UUID {
                    reply matches PeripheralReply::Value(bytes) && bytes@ == self@.local_node_id.0@
                } else if char_uuid == JACQUARD_PSM_CHAR_UUID && self@.local_psm is Some {
                    reply matches PeripheralReply::Value(bytes) && bytes@ == psm_bytes(
                        self@.local_psm->0,
                    )
                } else {
                    reply is Reject
                },
                PeripheralRequest::Write { client_id, char_uuid, value } => match (
                    self@.gatt_payload(client_id@, value@)
                ) {
                    Some(delivered) => if char_uuid == JACQUARD_C2P_CHAR_UUID {
                        reply matches PeripheralReply::Accept(event) && event@ == delivered
                    } else {
                        reply is Reject
                    },
                    None => reply is Reject,
                },
            },
    {
        match request {
            PeripheralRequest::Read { char_uuid } => {
                if char_uuid == JACQUARD_NODE_ID_CHAR_UUID {
                    return PeripheralReply::Value(bytes_to_vec(self.local_node_id.0.as_slice()));
                }
                if char_uuid == JACQUARD_PSM_CHAR_UUID {
                    if let Some(psm) = self.local_psm {
                        return PeripheralReply::Value(encode_psm_value(psm));
                    }
                }
                PeripheralReply::Reject
            },
            PeripheralRequest::Write { client_id, char_uuid, value } => {
                if char_uuid != JACQUARD_C2P_CHAR_UUID {
                    return PeripheralReply::Reject;
                }
                match self.handle_c2p_write(&client_id, value) {
                    Some(event) => PeripheralReply::Accept(event),
                    None => PeripheralReply::Reject,
                }
            },
        }
    }

    /// The payload that a device wrote, if it was proven to be a node.
    fn handle_c2p_write(&self, client_id: &DeviceId, value: Vec<u8>) -> (event: Option<
        TransportIngressEvent,
    >)
        requires
            self.wf(),
        ensures
            match event {
                Some(e) => self@.gatt_payload(client_id@, value@) == Some(e@),
                None => self@.gatt_payload(client_id@, value@) is None,
            },
    {
        match self.resolved_node_id_for_device(client_id) {
            Some(from_node_id) => Some(
                TransportIngressEvent::PayloadReceived {
                    from_node_id,
                    endpoint: gatt_endpoint(client_id),
                    payload: value,
                },
            ),
            None => None,
        }
    }

    /// The payload that a device notified, if it was proven to be a node.
    pub fn handle_characteristic_notification(
        &self,
        device_id: &DeviceId,
        char_uuid: Uuid,
        value: Vec<u8>,
    ) -> (event: Option<TransportIngressEvent>)
        requires
            self.wf(),
        ensures
            match event {
                Some(e) => char_uuid == JACQUARD_P2C_CHAR_UUID && self@.gatt_payload(
                    device_id@,
                    value@,
                ) == Some(e@),
                None => char_uuid != JACQUARD_P2C_CHAR_UUID || self@.gatt_payload(
                    device_id@,
                    value@,
                ) is None,
            },
    {
        if char_uuid != JACQUARD_P2C_CHAR_UUID {
            return None;
        }
        self.handle_c2p_write(device_id, value)
    }

    /// Records a subscription to notifications, and hands back the event for the router. A device
    /// that was not proven to be a node is ignored.
    pub fn handle_p2c_subscription(&mut self, client_id: DeviceId) -> (event: Option<
        TransportIngressEvent,
    >)
        requires
            old(self).wf(),
        ensures
            final(self).wf(),
            match old(self)@.node_of(client_id@) {
                Some(node_id) => {
                    let peer = old(self)@.peer(node_id);
                    &&& final(self)@ == old(self)@.with_peer(
                        node_id,
                        PeerSessionsView {
                            subscribers: if peer.subscribers.contains(client_id@) {
                                peer.subscribers
                            } else {
                                peer.subscribers.push(client_id@)
                            },
                            ..peer
                        },
                    )
                    &&& event matches Some(e)
                    &&& e@ == raw_link_event(
                        node_id,
                        notify_fanout_view(),
                        LinkRuntimeState::Active,
                    )
                },
                None => event is None && final(self)@ == old(self)@,
            },
    {
        let node_id = match self.resolved_node_id_for_device(&client_id) {
            Some(node_id) => node_id,
            None => return None,
        };
        let ghost before = self.sessions@;
        let ghost client = client_id@;
        let subscriber = BleNotifySubscriber { device_id: client_id };
        match self.sessions.remove(&node_id) {
            Some(peer) => {
                let mut peer = peer;
                peer.install_gatt_subscription(subscriber);
                proof {
                    lemma_session_views_replace(before, node_id, peer);
                }
                self.sessions.insert(node_id, peer);
            },
            None => {
                let peer = PeerSessions::gatt_notify_fanout(subscriber);
                proof {
                    lemma_session_views_replace(before, node_id, peer);
                    assert(seq![client] =~= Seq::<Seq<char>>::empty().push(client));
                }
                self.sessions.insert(node_id, peer);
            },
        }
        Some(raw_ble_link_observed_event(node_id, gatt_notify_fanout_endpoint()))
    }

    /// Records that a subscription to notifications ended, and hands back the event for the router
    /// if there was one.
    pub fn handle_p2c_unsubscription(&mut self, client_id: &DeviceId) -> (event: Option<
        TransportIngressEvent,
    >)
        requires
            old(self).wf(),
        ensures
            final(self).wf(),
            match old(self)@.node_of(client_id@) {
                Some(node_id) => {
                    let peer = old(self)@.peer(node_id);
                    if peer.subscribers.contains(client_id@) {
                        &&& final(self)@ == old(self)@.with_peer(
                            node_id,
                            PeerSessionsView {
                                subscribers: without_first(peer.subscribers, client_id@),
                                ..peer
                            },
                        )
                        &&& event matches Some(e)
                        &&& e@ == raw_link_event(
                            node_id,
                            notify_fanout_view(),
                            LinkRuntimeState::Faulted,
                        )
                    } else {
                        event is None && final(self)@ == old(self)@
                    }
                },
                None => event is None && final(self)@ == old(self)@,
            },
    {
        let node_id = match self.resolved_node_id_for_device(client_id) {
            Some(node_id) => node_id,
            None => return None,
        };
        let ghost before = self.sessions@;
        let mut peer = match self.sessions.remove(&node_id) {
            Some(peer) => peer,
            None => {
                assert(self@.sessions =~= old(self)@.sessions);
                return None;
            },
        };
        let removed = peer.remove_gatt_subscription(client_id);
        proof {
            lemma_session_views_replace(before, node_id, peer);
        }
        self.sessions.insert(node_id, peer);
        if removed {
            Some(raw_ble_link_faulted_event(node_id, gatt_notify_fanout_endpoint()))
        } else {
            assert(self@.sessions =~= old(self)@.sessions);
            None
        }
    }
}

impl BleRuntimeTask {
    /// Takes note of a change of the peripheral role.
    pub fn handle_peripheral_state_event(&mut self, event: PeripheralStateEvent) -> (step:
        PeripheralStateStep)
        requires
            old(self).wf(),
        ensures
            final(self).wf(),
            match event {
                PeripheralStateEvent::AdapterStateChanged { powered } => {
                    &&& final(self)@ == (RuntimeView {
                        startup: old(self)@.startup.peripheral_powered(
                            if powered {
                                AdapterPowerState::PoweredOn
                            } else {
                                AdapterPowerState::PoweredOff
                            },
                        ),
                        ..old(self)@
                    })
                    &&& powered ==> step is TryStartup
                    &&& !powered ==> step is Nothing
                },
                PeripheralStateEvent::SubscriptionChanged {
                    client_id,
                    char_uuid,
                    subscribed,
                } => if char_uuid != JACQUARD_P2C_CHAR_UUID {
                    step is Nothing && final(self)@ == old(self)@
                } else {
                    match old(self)@.node_of(client_id@) {
                        None => step is Nothing && final(self)@ == old(self)@,
                        Some(node_id) => {
                            let peer = old(self)@.peer(node_id);
                            let known = peer.subscribers.contains(client_id@);
                            if subscribed {
                                &&& final(self)@ == old(self)@.with_peer(
                                    node_id,
                                    PeerSessionsView {
                                        subscribers: if known {
                                            peer.subscribers
                                        } else {
                                            peer.subscribers.push(client_id@)
                                        },
                                        ..peer
                                    },
                                )
                                &&& step matches PeripheralStateStep::Control(e)
                                &&& e@ == raw_link_event(
                                    node_id,
                                    notify_fanout_view(),
                                    LinkRuntimeState::Active,
                                )
                            } else if known {
                                &&& final(self)@ == old(self)@.with_peer(
                                    node_id,
                                    PeerSessionsView {
                                        subscribers: without_first(peer.subscribers, client_id@),
                                        ..peer
                                    },
                                )
                                &&& step matches PeripheralStateStep::Control(e)
                                &&& e@ == raw_link_event(
                                    node_id,
                                    notify_fanout_view(),
                                    LinkRuntimeState::Faulted,
                                )
                            } else {
                                step is Nothing && final(self)@ == old(self)@
                            }
                        },
                    }
                },
            },
    {
        match event {
            PeripheralStateEvent::AdapterStateChanged { powered } => {
                self.startup.peripheral_power_changed(AdapterPowerState::from(powered));
                if powered {
                    PeripheralStateStep::TryStartup
                } else {
                    PeripheralStateStep::Nothing
                }
            },
            PeripheralStateEvent::SubscriptionChanged { client_id, char_uuid, subscribed } => {
                if char_uuid != JACQUARD_P2C_CHAR_UUID {
                    return PeripheralStateStep::Nothing;
                }
                let event = if subscribed {
                    self.handle_p2c_subscription(client_id)
                } else {
                    self.handle_p2c_unsubscription(&client_id)
                };
                match event {
                    Some(event) => PeripheralStateStep::Control(event),
                    None => PeripheralStateStep::Nothing,
                }
            },
        }
    }

    /// Takes note of an event of an L2CAP channel. Frames of a channel that is not in use are
    /// dropped.
    pub fn handle_l2cap_runtime_event(&mut self, event: L2capRuntimeEvent) -> (step: L2capStep)
        requires
            old(self).wf(),
        ensures
            final(self).wf(),
            match event {
                L2capRuntimeEvent::FrameReceived { channel_id, payload } => {
                    &&& final(self)@ == old(self)@
                    &&& if old(self)@.channels.contains_key(channel_id.0) {
                        let channel = old(self)@.channels[channel_id.0];
                        &&& step matches L2capStep::Payload(e)
                        &&& e@ == (IngressEventView::PayloadReceived {
                            from_node_id: channel.node_id,
                            endpoint: l2cap_endpoint_view(channel.device_id),
                            payload: payload@,
                        })
                    } else {
                        step is Nothing
                    }
                },
                L2capRuntimeEvent::ChannelClosed { channel_id } => {
                    &&& final(self)@ == old(self)@.without_channel(channel_id)
                    &&& step matches L2capStep::Control(events)
                    &&& old(self)@.tells_of_closing(channel_id, event_views(events@))
                },
            },
    {
        match event {
            L2capRuntimeEvent::FrameReceived { channel_id, payload } => {
                match self.l2cap_channels.get(&channel_id.0) {
                    Some(channel) => L2capStep::Payload(
                        TransportIngressEvent::PayloadReceived {
                            from_node_id: channel.node_id,
                            endpoint: l2cap_endpoint(&channel.device_id),
                            payload,
                        },
                    ),
                    None => L2capStep::Nothing,
                }
            },
            L2capRuntimeEvent::ChannelClosed { channel_id } => {
                L2capStep::Control(self.handle_l2cap_channel_closed(channel_id))
            },
        }
    }

    /// Takes note of an event of the central role.
    pub fn handle_central_event(&mut self, event: CentralEvent) -> (step: CentralStep)
        requires
            old(self).wf(),
        ensures
            final(self).wf(),
            match event {
                CentralEvent::AdapterStateChanged { powered } => {
                    &&& final(self)@ == (RuntimeView {
                        startup: BleStartupState {
                            scan: step_for_power(
                                if powered {
                                    AdapterPowerState::PoweredOn
                                } else {
                                    AdapterPowerState::PoweredOff
                                },
                            ),
                            ..old(self)@.startup
                        },
                        ..old(self)@
                    })
                    &&& powered ==> step is TryStartup
                    &&& !powered ==> step is Nothing
                },
                CentralEvent::DeviceDiscovered(device) => match discovery_hint(device.services@) {
                    Some(prefix) => {
                        &&& final(self)@ == old(self)@.with_hint(device.id@, prefix)
                        &&& step is Nothing || step is Connect
                        &&& step matches CentralStep::Connect(a) ==> a.is_at(device.id@)
                        &&& discovers(old(self)@, device, final(self)@, central_attempt(step))
                    },
                    None => step is Nothing && final(self)@ == old(self)@,
                },
                CentralEvent::DeviceConnected { device_id } => {
                    &&& final(self)@ == old(self)@
                    &&& step matches CentralStep::ReadIdentity { device_id: asked }
                    &&& asked == device_id
                },
                CentralEvent::DeviceDisconnected { device_id, cause } => {
                    &&& final(self)@ == old(self)@.after_disconnect(device_id@)
                    &&& step matches CentralStep::Disconnected { device_id: gone, outcome }
                    &&& gone == device_id
                    &&& outcome.refresh_cache == (cause == DisconnectCause::Gatt133)
                    &&& match old(self)@.node_of(device_id@) {
                        Some(node_id) => event_views(outcome.events@) == fault_events(
                            old(self)@.peer(node_id),
                            node_id,
                            device_id@,
                        ),
                        None => outcome.events@.len() == 0,
                    }
                },
                CentralEvent::CharacteristicNotification { device_id, char_uuid, value } => {
                    &&& final(self)@ == old(self)@
                    &&& match old(self)@.gatt_payload(device_id@, value@) {
                        Some(delivered) => if char_uuid == JACQUARD_P2C_CHAR_UUID {
                            step matches CentralStep::Payload(e) && e@ == delivered
                        } else {
                            step is Nothing
                        },
                        None => step is Nothing,
                    }
                },
            },
    {
        match event {
            CentralEvent::AdapterStateChanged { powered } => {
                self.startup.central_power_changed(AdapterPowerState::from(powered));
                if powered {
                    CentralStep::TryStartup
                } else {
                    CentralStep::Nothing
                }
            },
            CentralEvent::DeviceDiscovered(device) => {
                discovered_step(self.handle_device_discovered(device))
            },
            CentralEvent::DeviceConnected { device_id } => CentralStep::ReadIdentity { device_id },
            CentralEvent::DeviceDisconnected { device_id, cause } => {
                let outcome = self.handle_device_disconnected(&device_id, cause);
                CentralStep::Disconnected { device_id, outcome }
            },
            CentralEvent::CharacteristicNotification { device_id, char_uuid, value } => {
                match self.handle_characteristic_notification(&device_id, char_uuid, value) {
                    Some(event) => CentralStep::Payload(event),
                    None => CentralStep::Nothing,
                }
            },
        }
    }

    /// How a payload leaves: a unicast payload to the device that its endpoint names, a multicast
    /// payload by notifications to the devices of its receivers. Nothing else leaves, and nothing but
    /// a multicast payload is ever notified.
    pub fn dispatch_step(
        &self,
        intent: &TransportDeliveryIntent,
        platform: NotifyPlatform,
    ) -> (step: DispatchStep)
        requires
            self.wf(),
        ensures
            match intent@ {
                DeliveryIntentView::Unicast { endpoint } => match endpoint_device(endpoint) {
                    Some(device_id) => {
                        &&& step matches DispatchStep::Unicast(dispatch)
                        &&& dispatch.device_id@ == device_id
                        &&& dispatch.downgraded_l2cap is None
                    },
                    None => step is Nothing,
                },
                DeliveryIntentView::Multicast { endpoint, receivers, .. } => match (
                    self@.notified_devices(endpoint, receivers, platform)
                ) {
                    Some(devices) => step matches DispatchStep::Notify(notified)
                        && device_names(notified@) == devices,
                    None => step is Nothing,
                },
                DeliveryIntentView::Broadcast { .. } => step is Nothing,
            },
    {
        match intent {
            TransportDeliveryIntent::Unicast { endpoint } => match self.begin_unicast(endpoint) {
                Some(dispatch) => DispatchStep::Unicast(dispatch),
                None => DispatchStep::Nothing,
            },
            TransportDeliveryIntent::Multicast { endpoint, receivers, .. } => {
                match self.multicast_targets(endpoint, receivers, platform) {
                    Some(devices) => DispatchStep::Notify(devices),
                    None => DispatchStep::Nothing,
                }
            },
            TransportDeliveryIntent::Broadcast { .. } => DispatchStep::Nothing,
        }
    }

    /// Starts a unicast payload to the device that an endpoint names.
    pub fn begin_unicast(&self, endpoint: &LinkEndpoint) -> (dispatch: Option<UnicastDispatch>)
        ensures
            match dispatch {
                Some(d) => endpoint_device(endpoint@) == Some(d.device_id@)
                    && d.downgraded_l2cap is None,
                None => endpoint_device(endpoint@) is None,
            },
    {
        match device_id_from_endpoint(endpoint) {
            Some(device_id) => Some(UnicastDispatch { device_id, downgraded_l2cap: None }),
            None => None,
        }
    }

    /// Judges an L2CAP channel that refused a payload. The first time, the channel is closed and
    /// the payload is tried on the path that is left; the second time in a row, it is given up.
    pub fn unicast_send_failed(
        &mut self,
        dispatch: &mut UnicastDispatch,
        channel_id: BleChannelId,
    ) -> (retry: UnicastRetry)
        requires
            old(self).wf(),
        ensures
            final(self).wf(),
            final(dispatch).device_id == old(dispatch).device_id,
            if old(dispatch).downgraded_l2cap == Some(channel_id) {
                &&& retry is GiveUp
                &&& final(self)@ == old(self)@
                &&& *final(dispatch) == *old(dispatch)
            } else {
                &&& final(dispatch).downgraded_l2cap == Some(channel_id)
                &&& final(self)@ == old(self)@.without_channel(channel_id)
                &&& retry matches UnicastRetry::Retry(events)
                &&& old(self)@.tells_of_closing(channel_id, event_views(events@))
                &&& forall|n: NodeId| #[trigger]
                    final(self)@.sessions.contains_key(n)
                        ==> !final(self)@.sessions[n].paths.prefers_channel(channel_id)
            },
    {
        if let Some(failed_before) = dispatch.downgraded_l2cap {
            if failed_before == channel_id {
                return UnicastRetry::GiveUp;
            }
        }
        dispatch.downgraded_l2cap = Some(channel_id);
        UnicastRetry::Retry(self.handle_l2cap_channel_closed(channel_id))
    }

    /// The devices that the receivers subscribed with, if there are receivers and all of them did.
    pub fn notify_subscriber_device_ids(&self, receivers: &Vec<NodeId>) -> (devices: Option<
        Vec<DeviceId>,
    >)
        requires
            self.wf(),
        ensures
            match devices {
                Some(found) => {
                    &&& receivers@.len() > 0
                    &&& all_subscribed(self@.sessions, receivers@)
                    &&& device_names(found@) == first_devices(self@.sessions, receivers@)
                },
                None => receivers@.len() == 0 || !all_subscribed(self@.sessions, receivers@),
            },
    {
        if receivers.len() == 0 {
            return None;
        }
        let mut found: Vec<DeviceId> = Vec::new();
        let mut i: usize = 0;
        while i < receivers.len()
            invariant
                i <= receivers@.len(),
                self.wf(),
                receivers@.len() > 0,
                found@.len() == i,
                forall|j: int|
                    0 <= j < i ==> self@.sessions.contains_key(#[trigger] receivers@[j])
                        && self@.sessions[receivers@[j]].subscribers.len() > 0,
                forall|j: int|
                    0 <= j < i ==> (#[trigger] found@[j])@
                        == self@.sessions[receivers@[j]].subscribers[0],
            decreases receivers@.len() - i,
        {
            let receiver = receivers[i];
            let device_id = match self.sessions.get(&receiver) {
                Some(peer) => peer.notify_subscriber_device_id(),
                None => None,
            };
            match device_id {
                Some(device_id) => {
                    found.push(device_id.clone());
                },
                None => {
                    assert(!all_subscribed(self@.sessions, receivers@)) by {
                        assert(receivers@[i as int] == receiver);
                    }
                    return None;
                },
            }
            i = i + 1;
        }
        assert(device_names(found@) =~= first_devices(self@.sessions, receivers@));
        Some(found)
    }

    /// The devices to notify with a multicast payload. Only the fanout endpoint is served, and only
    /// if every receiver subscribed; where the platform cannot address subscribers, only if the
    /// receivers are all of them.
    pub fn multicast_targets(
        &self,
        endpoint: &LinkEndpoint,
        receivers: &Vec<NodeId>,
        platform: NotifyPlatform,
    ) -> (targets: Option<Vec<DeviceId>>)
        requires
            self.wf(),
        ensures
            match targets {
                Some(devices) => self@.notified_devices(endpoint@, receivers@, platform) == Some(
                    device_names(devices@),
                ),
                None => self@.notified_devices(endpoint@, receivers@, platform) is None,
            },
    {
        if *endpoint != gatt_notify_fanout_endpoint() {
            return None;
        }
        let device_ids = match self.notify_subscriber_device_ids(receivers) {
            Some(device_ids) => device_ids,
            None => return None,
        };
        proof {
            assert(device_names(device_ids@).len() == device_ids@.len());
            assert(device_names(device_ids@)[0] == device_ids@[0]@);
            assert(seq![device_ids@[0]@] =~= first_devices(self@.sessions, receivers@).take(1));
            assert(all_subscribed(self@.sessions, receivers@));
            assert(receivers_are_all_subscribers(self.sessions@, receivers@)
                == only_subscribers_are(self@.sessions, receivers@)) by {
                if receivers_are_all_subscribers(self.sessions@, receivers@) {
                    assert forall|n: NodeId|
                        self@.sessions.contains_key(n) && (
                        #[trigger] self@.sessions[n]).subscribers.len()
                            > 0 implies receivers@.contains(n) by {
                        assert(is_subscriber(self.sessions@, n));
                    }
                }
                if only_subscribers_are(self@.sessions, receivers@) {
                    assert forall|n: NodeId| #[trigger]
                        receivers@.contains(n) <==> is_subscriber(self.sessions@, n) by {
                        if receivers@.contains(n) {
                            let j = choose|j: int| 0 <= j < receivers@.len() && receivers@[j] == n;
                            assert(self@.sessions.contains_key(receivers@[j]));
                        }
                        if is_subscriber(self.sessions@, n) {
                            assert(self@.sessions[n].subscribers.len() > 0);
                        }
                    }
                }
            }
        }
        platform_notify_device_ids(&self.sessions, receivers, &device_ids, platform)
    }

    /// Keeps a link event that the router had no room for.
    pub fn defer_control_event(&mut self, event: TransportIngressEvent)
        requires
            old(self).wf(),
        ensures
            final(self).wf(),
            final(self)@ == (RuntimeView {
                deferred: old(self)@.deferred.push(event@),
                ..old(self)@
            }),
    {
        self.deferred_control_ingress.push_back(event);
        assert(self@.deferred =~= old(self)@.deferred.push(event@));
    }

    /// Whether link events wait for room.
    pub fn has_deferred_control_events(&self) -> (waiting: bool)
        requires
            self.wf(),
        ensures
            waiting == (self@.deferred.len() > 0),
    {
        self.deferred_control_ingress.len() > 0
    }

    /// A link event that waits for room, counted from the oldest.
    pub fn deferred_control_event(&self, at: usize) -> (event: Option<&TransportIngressEvent>)
        requires
            self.wf(),
        ensures
            match event {
                Some(e) => at < self@.deferred.len() && e@ == self@.deferred[at as int],
                None => at >= self@.deferred.len(),
            },
    {
        if at < self.deferred_control_ingress.len() {
            Some(&self.deferred_control_ingress[at])
        } else {
            None
        }
    }

    /// Lets go of the oldest link events, as many as the router had room for, and hands them back.
    /// The others wait on.
    pub fn flush_deferred_control_events(&mut self, accepted: usize) -> (left: Vec<
        TransportIngressEvent,
    >)
        requires
            old(self).wf(),
        ensures
            final(self).wf(),
            event_views(left@) == old(self)@.leaving(accepted as nat),
            final(self)@ == old(self)@.flushed(accepted as nat),
    {
        let ghost before = self@;
        let ghost waiting = self.deferred_control_ingress@;
        let mut left: Vec<TransportIngressEvent> = Vec::new();
        assert(event_views(left@) =~= before.deferred.take(0));
        assert(waiting.skip(0) =~= waiting);
        while left.len() < accepted
            invariant_except_break
                self.deferred_control_ingress@ == waiting.skip(left@.len() as int),
                left@ == waiting.take(left@.len() as int),
                left@.len() <= waiting.len(),
            invariant
                self.wf(),
                before.deferred == event_views(waiting),
                self@ == (RuntimeView {
                    deferred: event_views(self.deferred_control_ingress@),
                    ..before
                }),
                left@.len() <= accepted,
            ensures
                left@.len() == before.can_leave(accepted as nat),
                left@ == waiting.take(left@.len() as int),
                self.deferred_control_ingress@ == waiting.skip(left@.len() as int),
            decreases accepted - left@.len(),
        {
            let ghost rest = self.deferred_control_ingress@;
            match self.deferred_control_ingress.pop_front() {
                Some(event) => {
                    left.push(event);
                    proof {
                        assert(rest.first() == waiting[left@.len() - 1]);
                        assert(left@ =~= waiting.take(left@.len() as int));
                        assert(self.deferred_control_ingress@ =~= waiting.skip(left@.len() as int));
                    }
                },
                None => {
                    assert(left@ =~= waiting);
                    break;
                },
            }
        }
        proof {
            assert(event_views(left@) =~= before.leaving(accepted as nat));
            assert(self@.deferred =~= before.flushed(accepted as nat).deferred);
        }
        left
    }

    /// How far startup is.
    pub fn startup(&self) -> (state: BleStartupState)
        ensures
            state == self@.startup,
    {
        self.startup
    }

    /// Whether a channel is open.
    pub fn has_channel(&self, channel_id: BleChannelId) -> (open: bool)
        requires
            self.wf(),
        ensures
            open == self@.channels.contains_key(channel_id.0),
    {
        self.l2cap_channels.contains_key(&channel_id.0)
    }

    /// The settings of the runtime.
    pub fn config(&self) -> (config: &BleConfig)
        ensures
            *config == self@.config,
    {
        &self.config
    }

    /// What to do next to bring the radio up: the devices that the platform restored are taken up
    /// first, each once and in their order, and only then is anything new started.
    pub fn bring_up_step(&mut self) -> (step: BringUpStep)
        requires
            old(self).wf(),
        ensures
            final(self).wf(),
            if old(self)@.restored_devices.len() > 0 {
                &&& step == BringUpStep::TakeUp(old(self)@.restored_devices.first())
                &&& final(self)@ == (RuntimeView {
                    restored_devices: old(self)@.restored_devices.drop_first(),
                    ..old(self)@
                })
            } else {
                step is Startup && final(self)@ == old(self)@
            },
    {
        if self.restored_state.central_devices.len() == 0 {
            return BringUpStep::Startup;
        }
        let device = self.restored_state.central_devices.remove(0);
        assert(self@.restored_devices =~= old(self)@.restored_devices.drop_first());
        BringUpStep::TakeUp(device)
    }

    /// What to advertise: the hint by which this node is discovered, and the service that it offers.
    pub fn advertised_service_uuids(&self) -> (uuids: Vec<Uuid>)
        ensures
            uuids@ == advertised_uuids(self@.local_node_id),
            discovery_hint(uuids@) == Some(id_prefix(self@.local_node_id)),
    {
        let mut uuids: Vec<Uuid> = Vec::new();
        uuids.push(discovery_service_uuid(&self.local_node_id));
        uuids.push(JACQUARD_IDENTITY_SERVICE_UUID);
        proof {
            law_advertised_node_is_expected(self@, Seq::empty(), self.local_node_id);
            assert(uuids@ =~= advertised_uuids(self.local_node_id));
        }
        uuids
    }

    /// The service to publish: it offers L2CAP once the listener is open.
    pub fn startup_gatt_service(&self) -> (service: GattService)
        ensures
            service@ == transport_service(self@.local_node_id, self@.local_psm),
    {
        transport_gatt_service(&self.local_node_id, self.local_psm)
    }

    /// Records that the peripheral adapter has no power.
    pub fn peripheral_unpowered(&mut self)
        requires
            old(self).wf(),
        ensures
            final(self).wf(),
            final(self)@ == (RuntimeView {
                startup: old(self)@.startup.peripheral_powered(AdapterPowerState::PoweredOff),
                ..old(self)@
            }),
    {
        self.startup.peripheral_power_changed(AdapterPowerState::PoweredOff);
    }

    /// Records that the central adapter has no power.
    pub fn central_unpowered(&mut self)
        requires
            old(self).wf(),
        ensures
            final(self).wf(),
            final(self)@ == (RuntimeView {
                startup: BleStartupState {
                    scan: StartupStep::WaitingForPower,
                    ..old(self)@.startup
                },
                ..old(self)@
            }),
    {
        self.startup.central_power_changed(AdapterPowerState::PoweredOff);
    }

    /// Records what came of opening the L2CAP listener; an open one has a PSM.
    pub fn listener_attempted(&mut self, outcome: ListenerOutcome, psm: Psm)
        requires
            old(self).wf(),
        ensures
            final(self).wf(),
            final(self)@ == (RuntimeView {
                startup: BleStartupState {
                    l2cap_listener: listener_after(outcome),
                    ..old(self)@.startup
                },
                local_psm: if outcome == ListenerOutcome::Opened {
                    Some(psm)
                } else {
                    old(self)@.local_psm
                },
                ..old(self)@
            }),
    {
        if outcome == ListenerOutcome::Opened {
            self.local_psm = Some(psm);
        }
        self.startup.listener_attempted(outcome);
    }

    /// Whether the service is to be published now. One that the platform restored counts as
    /// published.
    pub fn wants_service(&mut self) -> (wanted: bool)
        requires
            old(self).wf(),
        ensures
            final(self).wf(),
            ({
                let restored = old(self)@.restored_services.contains(
                    JACQUARD_IDENTITY_SERVICE_UUID,
                );
                let due = old(self)@.startup.service_due();
                &&& wanted == (due && !restored)
                &&& final(self)@ == (RuntimeView {
                    startup: if due && restored {
                        BleStartupState {
                            gatt_service: StartupStep::Started,
                            ..old(self)@.startup
                        }
                    } else {
                        old(self)@.startup
                    },
                    ..old(self)@
                })
            }),
    {
        let restored = contains_uuid(
            &self.restored_state.peripheral_service_uuids,
            JACQUARD_IDENTITY_SERVICE_UUID,
        );
        self.startup.wants_service(restored)
    }

    /// Records what came of publishing the service.
    pub fn service_attempted(&mut self, outcome: StartOutcome)
        requires
            old(self).wf(),
        ensures
            final(self).wf(),
            final(self)@ == (RuntimeView {
                startup: BleStartupState {
                    gatt_service: step_after(outcome),
                    ..old(self)@.startup
                },
                ..old(self)@
            }),
    {
        self.startup.service_attempted(outcome);
    }

    /// Records what came of advertising.
    pub fn advertising_attempted(&mut self, outcome: StartOutcome)
        requires
            old(self).wf(),
        ensures
            final(self).wf(),
            final(self)@ == (RuntimeView {
                startup: BleStartupState {
                    advertising: step_after(outcome),
                    ..old(self)@.startup
                },
                ..old(self)@
            }),
    {
        self.startup.advertising_attempted(outcome);
    }

    /// Records what came of the scan.
    pub fn scan_attempted(&mut self, outcome: StartOutcome)
        requires
            old(self).wf(),
        ensures
            final(self).wf(),
            final(self)@ == (RuntimeView {
                startup: BleStartupState { scan: step_after(outcome), ..old(self)@.startup },
                ..old(self)@
            }),
    {
        self.startup.scan_attempted(outcome);
    }
}

fn contains_uuid(uuids: &Vec<Uuid>, uuid: Uuid) -> (found: bool)
    ensures
        found == uuids@.contains(uuid),
{
    let mut i: usize = 0;
    while i < uuids.len()
        invariant
            i <= uuids@.len(),
            forall|j: int| 0 <= j < i ==> uuids@[j] != uuid,
        decreases uuids@.len() - i,
    {
        if uuids[i] == uuid {
            return true;
        }
        i = i + 1;
    }
    false
}

/// Every receiver subscribed to notifications.
pub open spec fn all_subscribed(
    sessions: Map<NodeId, PeerSessionsView>,
    receivers: Seq<NodeId>,
) -> bool {
    forall|i: int|
        0 <= i < receivers.len() ==> sessions.contains_key(#[trigger] receivers[i])
            && sessions[receivers[i]].subscribers.len() > 0
}

/// Whoever subscribed to notifications is a receiver.
pub open spec fn only_subscribers_are(
    sessions: Map<NodeId, PeerSessionsView>,
    receivers: Seq<NodeId>,
) -> bool {
    forall|n: NodeId|
        sessions.contains_key(n) && (#[trigger] sessions[n]).subscribers.len() > 0
            ==> receivers.contains(n)
}

/// The device that each receiver subscribed with first.
pub open spec fn first_devices(
    sessions: Map<NodeId, PeerSessionsView>,
    receivers: Seq<NodeId>,
) -> Seq<Seq<char>> {
    receivers.map_values(|n: NodeId| sessions[n].subscribers[0])
}

/// What discovering a device does. One that gives no discovery hint changes nothing; the hint of
/// another one is recorded, and the device is to be connected if no claim on it stands.
pub open spec fn discovers(
    before: RuntimeView,
    device: BleDevice,
    after: RuntimeView,
    attempt: Option<ConnectAttempt>,
) -> bool {
    match discovery_hint(device.services@) {
        Some(prefix) => {
            &&& after == before.with_hint(device.id@, prefix)
            &&& attempt_decided(before.claims, device.id@, attempt)
        },
        None => after == before && attempt is None,
    }
}

/// What taking up a restored device does. One that still gives its discovery hint is discovered
/// anew; another one changes nothing, and is to be asked for its identity if no claim on it stands.
pub open spec fn restores(
    before: RuntimeView,
    device: BleDevice,
    after: RuntimeView,
    step: RestoredStep,
) -> bool {
    match step {
        RestoredStep::Connect(attempt) => discovery_hint(device.services@) is Some && discovers(
            before,
            device,
            after,
            Some(attempt),
        ),
        RestoredStep::Identify(attempt) => {
            &&& discovery_hint(device.services@) is None
            &&& after == before
            &&& attempt_decided(before.claims, device.id@, Some(attempt))
        },
        RestoredStep::Skip => if discovery_hint(device.services@) is Some {
            discovers(before, device, after, None)
        } else {
            after == before && attempt_decided(before.claims, device.id@, None)
        },
    }
}

/// The attempt that an event of the central role is worth.
pub open spec fn central_attempt(step: CentralStep) -> Option<ConnectAttempt> {
    match step {
        CentralStep::Connect(attempt) => Some(attempt),
        _ => None,
    }
}

/// A discovered device is connected unless it is claimed, whatever else the runtime holds: without
/// an attempt the device gave no hint or the claim on it was refused, and an attempt is at the
/// device, under the very claim on it that was granted. The claims stay the same ones, and nothing
/// but what is known of devices changes.
pub proof fn law_unclaimed_device_is_connected(
    before: RuntimeView,
    device: BleDevice,
    after: RuntimeView,
    attempt: Option<ConnectAttempt>,
)
    requires
        discovers(before, device, after, attempt),
    ensures
        attempt is None ==> discovery_hint(device.services@) is None || claim_answer(
            before.claims,
            device.id@,
            None,
        ),
        discovery_hint(device.services@) is Some && !claim_answer(before.claims, device.id@, None)
            ==> attempt is Some,
        attempt matches Some(a) ==> {
            &&& discovery_hint(device.services@) is Some
            &&& a.device_id@ == device.id@
            &&& claim_key(a.claim) == device.id@
            &&& claim_answer(before.claims, device.id@, Some(a.claim))
        },
        after == (RuntimeView { states: after.states, addresses: after.addresses, ..before }),
        forall|other: Seq<char>|
            other != device.id@ ==> (#[trigger] after.states.contains_key(other)
                <==> before.states.contains_key(other)) && after.states[other]
                == before.states[other],
{
}

/// A restored device is skipped only if the claim on it was refused, whether or not it still
/// advertises; otherwise it is connected, and asked for its identity at once exactly if it gives no
/// hint. Only a device that gives a hint changes what is known.
pub proof fn law_unclaimed_restored_device_is_taken_up(
    before: RuntimeView,
    device: BleDevice,
    after: RuntimeView,
    step: RestoredStep,
)
    requires
        restores(before, device, after, step),
    ensures
        step is Skip ==> claim_answer(before.claims, device.id@, None),
        step matches RestoredStep::Connect(a) ==> {
            &&& discovery_hint(device.services@) is Some
            &&& a.device_id@ == device.id@
            &&& claim_answer(before.claims, device.id@, Some(a.claim))
        },
        step matches RestoredStep::Identify(a) ==> {
            &&& discovery_hint(device.services@) is None
            &&& a.device_id@ == device.id@
            &&& claim_answer(before.claims, device.id@, Some(a.claim))
        },
        discovery_hint(device.services@) is None ==> after == before,
        discovery_hint(device.services@) matches Some(prefix) ==> {
            &&& awaited_prefix(after, device.id@) == Some(prefix)
            &&& after.node_of(device.id@) is None
        },
{
}

/// After a device disconnected it is unknown, no peer's paths or subscriptions refer to it, and no
/// payload can be sent to it.
pub proof fn law_disconnect_forgets_the_device(runtime: RuntimeView, device_id: Seq<char>)
    ensures
        runtime.after_disconnect(device_id).node_of(device_id) is None,
        !runtime.after_disconnect(device_id).states.contains_key(device_id),
        forall|n: NodeId| #[trigger]
            runtime.after_disconnect(device_id).sessions.contains_key(n)
                ==> !runtime.after_disconnect(device_id).sessions[n].references(device_id),
        !runtime.after_disconnect(device_id).has_egress(device_id),
{
    let after = runtime.after_disconnect(device_id);
    assert forall|n: NodeId| !(#[trigger] after.carries_first(device_id, n)) by {
        if after.sessions.contains_key(n) {
            let paths = after.sessions[n].paths;
            if after.sessions[n].egress_for(device_id) is Some {
                let last = match paths {
                    PathsView::GattOnly { .. } => 1int,
                    _ => 0int,
                };
                assert(paths.sessions()[last].device() == device_id);
            }
        }
    }
}

/// A payload is attributed to a node only over a device that was proven to be that node.
pub proof fn law_payloads_come_from_proven_nodes(
    runtime: RuntimeView,
    device_id: Seq<char>,
    payload: Seq<u8>,
)
    ensures
        match runtime.gatt_payload(device_id, payload) {
            Some(event) => {
                &&& event matches IngressEventView::PayloadReceived { from_node_id, .. }
                &&& runtime.states.contains_key(device_id)
                &&& runtime.states[device_id] == PeerIdentityView::Resolved(from_node_id)
            },
            None => runtime.node_of(device_id) is None,
        },
{
}

/// A hint alone makes no peer: discovering a device leaves it without an identity, even one that
/// had been proven before.
pub proof fn law_hint_is_no_identity(
    runtime: RuntimeView,
    device_id: Seq<char>,
    prefix: Seq<u8>,
)
    ensures
        runtime.with_hint(device_id, prefix).node_of(device_id) is None,
        awaited_prefix(runtime.with_hint(device_id, prefix), device_id) == Some(prefix),
{
}

/// Two L2CAP channels opened one after the other are told apart, until the counter is exhausted.
pub proof fn law_channels_are_distinct(
    runtime: RuntimeView,
    node_id: NodeId,
    device_id: Seq<char>,
)
    requires
        runtime.next_channel_id < u64::MAX,
    ensures
        runtime.with_l2cap_session(node_id, device_id).next_channel_id > runtime.next_channel_id,
{
}

/// Closing the channel that was just opened brings back the GATT path that the peer had, and that
/// is what the router is told.
pub proof fn law_channel_loss_falls_back_to_gatt(
    runtime: RuntimeView,
    node_id: NodeId,
    device_id: Seq<char>,
    gatt: Seq<char>,
)
    requires
        runtime.peer(node_id).paths == (PathsView::GattOnly {
            ingress: SessionView::GattCentral { device_id: gatt },
            egress: SessionView::GattCentral { device_id: gatt },
        }),
    ensures
        ({
            let opened = runtime.with_l2cap_session(node_id, device_id);
            let channel_id = BleChannelId(runtime.next_channel_id);
            &&& opened.peer(node_id).paths.egress() == Some(
                SessionView::L2cap { device_id, channel_id },
            )
            &&& opened.without_channel(channel_id).peer(node_id) == runtime.peer(node_id)
            &&& forall|events: Seq<IngressEventView>| #[trigger]
                opened.tells_of_closing(channel_id, events) ==> events.contains(
                    raw_link_event(node_id, gatt_endpoint_view(gatt), LinkRuntimeState::Active),
                )
        }),
{
    let opened = runtime.with_l2cap_session(node_id, device_id);
    let channel_id = BleChannelId(runtime.next_channel_id);
    let told_gatt = raw_link_event(node_id, gatt_endpoint_view(gatt), LinkRuntimeState::Active);
    assert forall|events: Seq<IngressEventView>| #[trigger]
        opened.tells_of_closing(channel_id, events) implies events.contains(told_gatt) by {
        let told = choose|told: Seq<NodeId>| #[trigger]
            opened.closing_tells(channel_id, told, events);
        assert(opened.loses_channel(channel_id, node_id));
        assert(told.contains(node_id));
        let i = told.index_of(node_id);
        assert(events[i] == told_gatt);
    }
}

/// Once an L2CAP channel refused a payload nobody prefers it any more, whether or not it was still in
/// use; a peer whose paths lead to the device of the payload by that channel and by GATT is then
/// reached by GATT.
pub proof fn law_refused_payload_falls_back_to_gatt(
    runtime: RuntimeView,
    node_id: NodeId,
    device_id: Seq<char>,
    channel_id: BleChannelId,
)
    requires
        runtime.carries_first(device_id, node_id),
        runtime.sessions[node_id].paths == (PathsView::L2capPreferred {
            session: SessionView::L2cap { device_id, channel_id },
            fallback: Some(SessionView::GattCentral { device_id }),
        }),
    ensures
        ({
            let after = runtime.without_channel(channel_id);
            &&& forall|n: NodeId| #[trigger]
                after.sessions.contains_key(n)
                    ==> !after.sessions[n].paths.prefers_channel(channel_id)
            &&& after.sessions[node_id].egress_for(device_id) == Some(
                SessionView::GattCentral { device_id },
            )
            &&& (forall|n: NodeId| #[trigger]
                runtime.sessions.contains_key(n) && n != node_id
                    ==> !runtime.sessions[n].paths.prefers_channel(channel_id))
                ==> after.carries_first(device_id, node_id)
        }),
{
}

/// Flushing twice is flushing once: the link events that wait leave in the order in which they came,
/// however many of them are taken at a time, and none is lost or doubled.
pub proof fn law_deferred_events_keep_their_order(
    runtime: RuntimeView,
    first: nat,
    second: nat,
    later: IngressEventView,
)
    ensures
        runtime.flushed(first).flushed(second) == runtime.flushed(first + second),
        runtime.leaving(first) + runtime.flushed(first).leaving(second) == runtime.leaving(
            first + second,
        ),
        runtime.leaving(first) + runtime.flushed(first).deferred == runtime.deferred,
        first <= runtime.deferred.len() ==> (RuntimeView {
            deferred: runtime.flushed(first).deferred.push(later),
            ..runtime
        }) == (RuntimeView { deferred: runtime.deferred.push(later), ..runtime }).flushed(first),
{
    assert(runtime.flushed(first).flushed(second).deferred =~= runtime.flushed(
        first + second,
    ).deferred);
    assert(runtime.leaving(first) + runtime.flushed(first).leaving(second) =~= runtime.leaving(
        first + second,
    ));
    assert(runtime.leaving(first) + runtime.flushed(first).deferred =~= runtime.deferred);
    if first <= runtime.deferred.len() {
        assert(runtime.flushed(first).deferred.push(later) =~= (RuntimeView {
            deferred: runtime.deferred.push(later),
            ..runtime
        }).flushed(first).deferred);
    }
}

/// A node that advertises itself is recognised: whoever discovers it expects the identity that it
/// shows, and no other prefix.
pub proof fn law_advertised_node_is_expected(
    runtime: RuntimeView,
    device_id: Seq<char>,
    node_id: NodeId,
)
    ensures
        discovery_hint(advertised_uuids(node_id)) == Some(id_prefix(node_id)),
        awaited_prefix(runtime.with_hint(device_id, id_prefix(node_id)), device_id) == Some(
            node_id.0@.take(6),
        ),
{
    let hint = discovery_value(id_prefix(node_id)) as u128;
    lemma_discovery_value(id_prefix(node_id));
    law_discovery_hint_round_trip(
        node_id,
        Seq::empty(),
        seq![JACQUARD_IDENTITY_SERVICE_UUID],
        hint,
    );
    assert(Seq::<Uuid>::empty().push(hint) + seq![JACQUARD_IDENTITY_SERVICE_UUID]
        =~= advertised_uuids(node_id));
}

/// What a node advertises: its discovery hint, by which it is found, and the service that it offers.
pub open spec fn advertised_uuids(node_id: NodeId) -> Seq<Uuid> {
    seq![discovery_value(id_prefix(node_id)) as u128, JACQUARD_IDENTITY_SERVICE_UUID]
}

/// A runtime that knows no peer.
pub open spec fn fresh_runtime(
    local_node_id: NodeId,
    config: BleConfig,
    restored_devices: Seq<BleDevice>,
    restored_services: Seq<Uuid>,
    claims: PendingClaims<String>,
) -> RuntimeView {
    RuntimeView {
        local_node_id,
        local_psm: None,
        config,
        restored_devices,
        restored_services,
        startup: nothing_started(),
        states: no_states(),
        addresses: no_addresses(),
        sessions: Map::empty(),
        channels: Map::empty(),
        next_channel_id: 1,
        deferred: Seq::empty(),
        claims,
    }
}

/// The identity that a device showed: 32 bytes, or nothing that can be used.
pub open spec fn shown_identity(identity: Option<Vec<u8>>) -> Option<Seq<u8>> {
    match identity {
        Some(bytes) => if bytes@.len() == 32 {
            Some(bytes@)
        } else {
            None
        },
        None => None,
    }
}

/// The prefix that a device's hint announced, if the device is still only a hint.
pub open spec fn awaited_prefix(runtime: RuntimeView, device_id: Seq<char>) -> Option<Seq<u8>> {
    if runtime.states.contains_key(device_id) {
        match runtime.states[device_id] {
            PeerIdentityView::Hint(hint) => Some(hint.node_id_prefix),
            PeerIdentityView::Resolved(_) => None,
        }
    } else {
        None
    }
}

/// The events that the links of a peer over a device failed: one for each endpoint, in their order.
pub open spec fn fault_events(
    peer: PeerSessionsView,
    node_id: NodeId,
    device_id: Seq<char>,
) -> Seq<IngressEventView> {
    peer.endpoints_for(device_id).map_values(
        |endpoint: LinkEndpointView|
            raw_link_event(node_id, endpoint, LinkRuntimeState::Faulted),
    )
}

/// A multicast payload is dispatched exactly if it is meant for the fanout endpoint, has receivers,
/// and every receiver has a subscribed device; where one notification reaches every subscriber, the
/// receivers must be all of them too. Where subscribers are addressed one by one, there is one
/// notification for each receiver, at a device that this receiver subscribed with; elsewhere there
/// is a single one, at a device of a receiver.
pub proof fn law_every_receiver_is_notified(
    runtime: RuntimeView,
    endpoint: LinkEndpointView,
    receivers: Seq<NodeId>,
    platform: NotifyPlatform,
)
    ensures
        runtime.notified_devices(endpoint, receivers, platform) is Some <==> {
            &&& endpoint == notify_fanout_view()
            &&& receivers.len() > 0
            &&& forall|i: int|
                0 <= i < receivers.len() ==> runtime.sessions.contains_key(#[trigger] receivers[i])
                    && runtime.sessions[receivers[i]].subscribers.len() > 0
            &&& platform == NotifyPlatform::Broadcast ==> forall|n: NodeId|
                runtime.sessions.contains_key(n) && (#[trigger] runtime.sessions[n]).subscribers.len()
                    > 0 ==> receivers.contains(n)
        },
        runtime.notified_devices(endpoint, receivers, platform) matches Some(devices) ==> {
            &&& platform == NotifyPlatform::Targeted ==> devices.len() == receivers.len()
            &&& platform == NotifyPlatform::Broadcast ==> devices.len() == 1
            &&& forall|i: int|
                0 <= i < devices.len() ==> #[trigger] devices[i]
                    == runtime.sessions[receivers[i]].subscribers[0]
            &&& forall|i: int|
                0 <= i < devices.len() ==> runtime.sessions[receivers[i]].subscribers.contains(
                    #[trigger] devices[i],
                )
        },
{
}

/// Whether events tell of a link to a node at an endpoint that fails.
pub open spec fn tells_of_fault(
    events: Seq<IngressEventView>,
    node_id: NodeId,
    endpoint: LinkEndpointView,
) -> bool {
    exists|i: int| 0 <= i < events.len() && is_fault(#[trigger] events[i], node_id, endpoint)
}

/// Whether an event says that the link to a node at an endpoint fails.
pub open spec fn is_fault(
    event: IngressEventView,
    node_id: NodeId,
    endpoint: LinkEndpointView,
) -> bool {
    match event {
        IngressEventView::LinkObserved { remote_node_id, link, .. } => remote_node_id == node_id
            && link.endpoint == endpoint && link.state.state == LinkRuntimeState::Faulted,
        IngressEventView::PayloadReceived { .. } => false,
    }
}

/// When a device is lost, the events tell of a failed link at the endpoint of every session of the
/// node that led to it, whichever its transport and its place among the sessions, and at the GATT
/// endpoint of a device that had subscribed. They tell of nothing else, and of each endpoint once;
/// so there is an event exactly if something of the node led to the device.
pub proof fn law_lost_device_faults_every_path(
    peer: PeerSessionsView,
    node_id: NodeId,
    device_id: Seq<char>,
)
    ensures
        forall|session: SessionView| #[trigger]
            holds_session(peer.paths, session) && leads_to(session, device_id) ==> tells_of_fault(
                fault_events(peer, node_id, device_id),
                node_id,
                session_place(session, device_id),
            ),
        peer.subscribers.contains(device_id) ==> tells_of_fault(
            fault_events(peer, node_id, device_id),
            node_id,
            gatt_endpoint_view(device_id),
        ),
        forall|i: int|
            0 <= i < fault_events(peer, node_id, device_id).len() ==> is_fault(
                #[trigger] fault_events(peer, node_id, device_id)[i],
                node_id,
                gatt_endpoint_view(device_id),
            ) || is_fault(
                fault_events(peer, node_id, device_id)[i],
                node_id,
                l2cap_endpoint_view(device_id),
            ),
        fault_events(peer, node_id, device_id).no_duplicates(),
        fault_events(peer, node_id, device_id).len() > 0 <==> {
            ||| exists|session: SessionView| #[trigger]
                holds_session(peer.paths, session) && leads_to(session, device_id)
            ||| peer.subscribers.contains(device_id)
        },
{
    let events = fault_events(peer, node_id, device_id);
    let listed = peer.endpoints_for(device_id);
    let gatt = gatt_endpoint_view(device_id);
    law_every_path_to_a_device_is_listed(peer, device_id, gatt);
    assert forall|session: SessionView| #[trigger]
        holds_session(peer.paths, session) && leads_to(session, device_id) implies tells_of_fault(
        events,
        node_id,
        session_place(session, device_id),
    ) by {
        let place = session_place(session, device_id);
        law_every_path_to_a_device_is_listed(peer, device_id, place);
        let k = listed.index_of(place);
        assert(is_fault(events[k], node_id, place));
    }
    if peer.subscribers.contains(device_id) {
        let k = listed.index_of(gatt);
        assert(is_fault(events[k], node_id, gatt));
    }
    assert forall|i: int| 0 <= i < events.len() implies is_fault(
        #[trigger] events[i],
        node_id,
        gatt,
    ) || is_fault(events[i], node_id, l2cap_endpoint_view(device_id)) by {
        law_every_path_to_a_device_is_listed(peer, device_id, listed[i]);
        assert(listed.contains(listed[i]));
    }
    assert forall|i: int, j: int| 0 <= i < j < events.len() implies events[i] != events[j] by {
        assert(listed[i] != listed[j]);
        assert(events[i]->LinkObserved_link.endpoint == listed[i]);
        assert(events[j]->LinkObserved_link.endpoint == listed[j]);
    }
}

/// Losing a device takes away exactly what led to it: a peer keeps its sessions unless one of them
/// or a subscription of its led to the device, a channel stays unless it belongs to the node that
/// the device was, and what is known of other devices stays.
pub proof fn law_disconnect_spares_the_others(runtime: RuntimeView, device_id: Seq<char>)
    ensures
        ({
            let after = runtime.after_disconnect(device_id);
            &&& forall|n: NodeId| #[trigger]
                after.sessions.contains_key(n) <==> runtime.sessions.contains_key(n)
                    && !runtime.sessions[n].subscribers.contains(device_id)
                    && forall|session: SessionView| #[trigger]
                    holds_session(runtime.sessions[n].paths, session) ==> !leads_to(
                        session,
                        device_id,
                    )
            &&& forall|n: NodeId| #[trigger]
                after.sessions.contains_key(n) ==> after.sessions[n] == runtime.sessions[n]
            &&& forall|id: u64| #[trigger]
                after.channels.contains_key(id) <==> runtime.channels.contains_key(id) && !(
                runtime.states.contains_key(device_id) && runtime.states[device_id]
                    == PeerIdentityView::Resolved(runtime.channels[id].node_id))
            &&& forall|id: u64| #[trigger]
                after.channels.contains_key(id) ==> after.channels[id] == runtime.channels[id]
            &&& forall|other: Seq<char>| #[trigger]
                after.states.contains_key(other) <==> runtime.states.contains_key(other) && other
                    != device_id
            &&& forall|other: Seq<char>| #[trigger]
                after.states.contains_key(other) ==> after.states[other] == runtime.states[other]
            &&& after == (RuntimeView {
                sessions: after.sessions,
                channels: after.channels,
                states: after.states,
                addresses: after.addresses,
                ..runtime
            })
        }),
{
    let after = runtime.after_disconnect(device_id);
    assert forall|n: NodeId| #[trigger]
        after.sessions.contains_key(n) <==> runtime.sessions.contains_key(n)
            && !runtime.sessions[n].subscribers.contains(device_id)
            && forall|session: SessionView| #[trigger]
            holds_session(runtime.sessions[n].paths, session) ==> !leads_to(
                session,
                device_id,
            ) by {
        law_references_miss_no_path(runtime.sessions[n], device_id);
    }
}

/// A device that was proven to be a node is known as that node from then on, and the node is found
/// there; a device that had been proven to be the same node before is not known any more, and
/// nothing else that is known changes.
pub proof fn law_proven_device_is_the_node(
    runtime: RuntimeView,
    device_id: Seq<char>,
    node_id: NodeId,
)
    ensures
        ({
            let after = runtime.with_resolved(device_id, node_id);
            &&& after.states.contains_key(device_id)
            &&& after.states[device_id] == PeerIdentityView::Resolved(node_id)
            &&& after.node_of(device_id) == Some(node_id)
            &&& after.addresses.contains_key(node_id) && after.addresses[node_id] == device_id
            &&& forall|other: Seq<char>|
                other != device_id && !(runtime.addresses.contains_key(node_id)
                    && runtime.addresses[node_id] == other) ==> (
                #[trigger] after.states.contains_key(other) <==> runtime.states.contains_key(other))
                    && after.states[other] == runtime.states[other]
            &&& runtime.addresses.contains_key(node_id) && runtime.addresses[node_id] != device_id
                ==> !after.states.contains_key(runtime.addresses[node_id])
            &&& after == (RuntimeView {
                states: after.states,
                addresses: after.addresses,
                ..runtime
            })
        }),
{
}

/// What a hint says of its device: where it was seen and which identities it stands for. It offers
/// GATT, and L2CAP only once asked.
pub proof fn law_hint_is_recorded(runtime: RuntimeView, device_id: Seq<char>, prefix: Seq<u8>)
    ensures
        ({
            let after = runtime.with_hint(device_id, prefix);
            &&& after.states.contains_key(device_id)
            &&& after.states[device_id] matches PeerIdentityView::Hint(hint)
            &&& hint.device_id == device_id
            &&& hint.node_id_prefix == prefix
            &&& hint.advertised_gatt
            &&& !hint.advertised_l2cap
            &&& forall|n: NodeId| #[trigger]
                after.addresses.contains_key(n) <==> runtime.addresses.contains_key(n) && !(
                runtime.states.contains_key(device_id) && runtime.states[device_id]
                    == PeerIdentityView::Resolved(n))
            &&& forall|n: NodeId| #[trigger]
                after.addresses.contains_key(n) ==> after.addresses[n] == runtime.addresses[n]
        }),
{
}

/// What a device without an identity leaves behind when it is dropped: nothing of its own, and
/// everything of the others.
pub proof fn law_dropped_device_is_unknown(runtime: RuntimeView, device_id: Seq<char>)
    ensures
        ({
            let after = runtime.without_device(device_id);
            &&& after.node_of(device_id) is None
            &&& forall|other: Seq<char>| #[trigger]
                after.states.contains_key(other) <==> runtime.states.contains_key(other) && other
                    != device_id
            &&& forall|other: Seq<char>| #[trigger]
                after.states.contains_key(other) ==> after.states[other] == runtime.states[other]
            &&& forall|n: NodeId| #[trigger]
                after.addresses.contains_key(n) <==> runtime.addresses.contains_key(n) && !(
                runtime.states.contains_key(device_id) && runtime.states[device_id]
                    == PeerIdentityView::Resolved(n))
            &&& after == (RuntimeView {
                states: after.states,
                addresses: after.addresses,
                ..runtime
            })
        }),
{
}

/// Only 32 bytes are an identity, and a device is awaited exactly if a hint of it is on record and
/// it was not proven to be a node yet; what is awaited is the prefix of that hint.
pub proof fn law_only_hinted_devices_are_awaited(
    runtime: RuntimeView,
    device_id: Seq<char>,
    identity: Option<Vec<u8>>,
)
    ensures
        shown_identity(identity) is Some <==> identity is Some && identity->0@.len() == 32,
        shown_identity(identity) is Some ==> shown_identity(identity)->0 == identity->0@,
        awaited_prefix(runtime, device_id) is Some <==> runtime.states.contains_key(device_id)
            && runtime.states[device_id] is Hint,
        awaited_prefix(runtime, device_id) is Some ==> runtime.states[device_id]->Hint_0
            .node_id_prefix == awaited_prefix(runtime, device_id)->0,
        runtime.node_of(device_id) is Some <==> runtime.states.contains_key(device_id)
            && runtime.states[device_id] is Resolved,
        runtime.node_of(device_id) matches Some(node_id) ==> runtime.states[device_id]
            == PeerIdentityView::Resolved(node_id),
{
}

/// A payload of a device that was proven to be a node is always attributed: to that node, at the
/// GATT endpoint of the device, byte for byte. One of any other device never is.
pub proof fn law_payloads_of_proven_nodes_are_delivered(
    runtime: RuntimeView,
    device_id: Seq<char>,
    payload: Seq<u8>,
)
    ensures
        runtime.gatt_payload(device_id, payload) is Some <==> runtime.states.contains_key(device_id)
            && runtime.states[device_id] is Resolved,
        runtime.gatt_payload(device_id, payload) matches Some(event) ==> {
            &&& event matches IngressEventView::PayloadReceived {
                from_node_id,
                endpoint,
                payload: delivered,
            }
            &&& runtime.states[device_id] == PeerIdentityView::Resolved(from_node_id)
            &&& endpoint_device(endpoint) == Some(device_id)
            &&& endpoint == gatt_endpoint_view(device_id)
            &&& delivered == payload
        },
{
    law_endpoint_names_its_device(device_id);
}

/// Installing a GATT connection touches that peer alone, and neither its subscriptions nor an L2CAP
/// channel that it prefers: a peer without such a channel is then reached over the connection.
pub proof fn law_installed_gatt_session_is_in_use(
    runtime: RuntimeView,
    node_id: NodeId,
    device_id: Seq<char>,
)
    ensures
        ({
            let after = runtime.with_gatt_session(node_id, device_id);
            let gatt = SessionView::GattCentral { device_id };
            &&& after.sessions.contains_key(node_id)
            &&& after.sessions[node_id].subscribers == runtime.peer(node_id).subscribers
            &&& !(runtime.peer(node_id).paths is L2capPreferred) ==> {
                &&& after.sessions[node_id].egress_for(device_id) == Some(gatt)
                &&& forall|session: SessionView| #[trigger]
                    holds_session(after.sessions[node_id].paths, session) <==> session == gatt
            }
            &&& runtime.peer(node_id).paths matches PathsView::L2capPreferred {
                session: preferred,
                fallback,
            } ==> {
                &&& after.sessions[node_id].paths.egress() == Some(preferred)
                &&& holds_session(after.sessions[node_id].paths, gatt) || fallback is Some
            }
            &&& forall|n: NodeId|
                n != node_id ==> (#[trigger] after.sessions.contains_key(n)
                    <==> runtime.sessions.contains_key(n)) && after.sessions[n]
                    == runtime.sessions[n]
            &&& after == (RuntimeView { sessions: after.sessions, ..runtime })
        }),
{
}

/// An L2CAP channel that was taken into use is the one that payloads to its peer leave over, is on
/// record under the identity that it was given, and falls back to a GATT session of the peer if
/// there was one. No other peer and no other channel is touched.
pub proof fn law_installed_channel_is_in_use(
    runtime: RuntimeView,
    node_id: NodeId,
    device_id: Seq<char>,
)
    ensures
        ({
            let after = runtime.with_l2cap_session(node_id, device_id);
            let given = runtime.next_channel_id;
            let before = runtime.peer(node_id).paths;
            &&& after.sessions.contains_key(node_id)
            &&& after.sessions[node_id].subscribers == runtime.peer(node_id).subscribers
            &&& after.sessions[node_id].egress_for(device_id) == Some(
                SessionView::L2cap { device_id, channel_id: BleChannelId(given) },
            )
            &&& forall|session: SessionView| #[trigger]
                holds_session(before, session) && session is GattCentral ==> exists|kept: SessionView|
                #[trigger]
                    holds_session(after.sessions[node_id].paths, kept) && kept is GattCentral
                        && holds_session(before, kept)
            &&& after.channels == runtime.channels.insert(given, ChannelView { node_id, device_id })
            &&& after.next_channel_id == if given < u64::MAX {
                given + 1
            } else {
                u64::MAX as int
            }
            &&& forall|n: NodeId|
                n != node_id ==> (#[trigger] after.sessions.contains_key(n)
                    <==> runtime.sessions.contains_key(n)) && after.sessions[n]
                    == runtime.sessions[n]
            &&& after == (RuntimeView {
                sessions: after.sessions,
                channels: after.channels,
                next_channel_id: after.next_channel_id,
                ..runtime
            })
        }),
{
    let after = runtime.with_l2cap_session(node_id, device_id);
    let before = runtime.peer(node_id).paths;
    let channel = SessionView::L2cap {
        device_id,
        channel_id: BleChannelId(runtime.next_channel_id),
    };
    law_promotion_keeps_a_gatt_path(before, channel);
    assert forall|session: SessionView| #[trigger]
        holds_session(before, session) && session is GattCentral implies exists|kept: SessionView|
    #[trigger]
        holds_session(after.sessions[node_id].paths, kept) && kept is GattCentral && holds_session(
            before,
            kept,
        ) by {
        let kept = before.promoted(channel)->L2capPreferred_fallback->0;
        assert(holds_session(after.sessions[node_id].paths, kept));
    }
}

/// Closing a channel takes it off the record and out of use, and nothing else: a peer that preferred
/// it goes on with its fallback or with nothing, every other peer keeps its paths, and every peer
/// keeps its subscriptions.
pub proof fn law_closing_a_channel_spares_the_others(
    runtime: RuntimeView,
    channel_id: BleChannelId,
)
    ensures
        ({
            let after = runtime.without_channel(channel_id);
            &&& after.channels == runtime.channels.remove(channel_id.0)
            &&& forall|n: NodeId| #[trigger]
                after.sessions.contains_key(n) <==> runtime.sessions.contains_key(n)
            &&& forall|n: NodeId| #[trigger]
                after.sessions.contains_key(n) ==> after.sessions[n].subscribers
                    == runtime.sessions[n].subscribers
            &&& forall|n: NodeId| #[trigger]
                after.sessions.contains_key(n) ==> match runtime.sessions[n].paths {
                    PathsView::L2capPreferred {
                        session: SessionView::L2cap { channel_id: preferred, .. },
                        fallback,
                    } => if preferred == channel_id {
                        after.sessions[n].paths.egress() == fallback
                    } else {
                        after.sessions[n].paths == runtime.sessions[n].paths
                    },
                    _ => after.sessions[n].paths == runtime.sessions[n].paths,
                }
            &&& after == (RuntimeView {
                sessions: after.sessions,
                channels: after.channels,
                ..runtime
            })
        }),
{
    let after = runtime.without_channel(channel_id);
    assert forall|n: NodeId| #[trigger] after.sessions.contains_key(n) implies match (
        runtime.sessions[n].paths
    ) {
        PathsView::L2capPreferred {
            session: SessionView::L2cap { channel_id: preferred, .. },
            fallback,
        } => if preferred == channel_id {
            after.sessions[n].paths.egress() == fallback
        } else {
            after.sessions[n].paths == runtime.sessions[n].paths
        },
        _ => after.sessions[n].paths == runtime.sessions[n].paths,
    } by {
        law_closed_channel_is_not_used(runtime.sessions[n].paths, channel_id);
    }
}

/// Whether an event says that the link to a node at an endpoint works.
pub open spec fn is_working_link(
    event: IngressEventView,
    node_id: NodeId,
    endpoint: LinkEndpointView,
) -> bool {
    match event {
        IngressEventView::LinkObserved { remote_node_id, link, .. } => remote_node_id == node_id
            && link.endpoint == endpoint && link.state.state == LinkRuntimeState::Active,
        IngressEventView::PayloadReceived { .. } => false,
    }
}

/// What closing a channel tells: of every peer that owned or preferred it and is left with a path,
/// that the link over this path works, whichever its transport; and nothing of anybody else.
pub proof fn law_closing_tells_of_every_path_left(
    runtime: RuntimeView,
    channel_id: BleChannelId,
    events: Seq<IngressEventView>,
)
    requires
        runtime.tells_of_closing(channel_id, events),
    ensures
        ({
            let after = runtime.without_channel(channel_id);
            &&& forall|n: NodeId|
                runtime.sessions.contains_key(n) && (#[trigger] runtime.sessions[n]).paths
                    != after.sessions[n].paths && after.sessions[n].paths.egress() is Some
                    ==> exists|i: int|
                    0 <= i < events.len() && is_working_link(
                        #[trigger] events[i],
                        n,
                        after.sessions[n].paths.egress()->0.reached_at(),
                    )
            &&& forall|n: NodeId|
                runtime.sessions.contains_key(n) && runtime.channels.contains_key(channel_id.0)
                    && runtime.channels[channel_id.0].node_id == n && (
                #[trigger] after.sessions[n]).paths.egress() is Some ==> exists|i: int|
                    0 <= i < events.len() && is_working_link(
                        #[trigger] events[i],
                        n,
                        after.sessions[n].paths.egress()->0.reached_at(),
                    )
            &&& forall|i: int|
                0 <= i < events.len() ==> {
                    &&& #[trigger] events[i] is LinkObserved
                    &&& events[i]->LinkObserved_link.state.state == LinkRuntimeState::Active
                    &&& after.sessions.contains_key(events[i]->LinkObserved_remote_node_id)
                    &&& after.sessions[events[i]->LinkObserved_remote_node_id].paths.egress()
                        is Some
                }
        }),
{
    let after = runtime.without_channel(channel_id);
    let told = choose|told: Seq<NodeId>| #[trigger]
        runtime.closing_tells(channel_id, told, events);
    assert forall|n: NodeId|
        runtime.sessions.contains_key(n) && (#[trigger] runtime.sessions[n]).paths
            != after.sessions[n].paths && after.sessions[n].paths.egress() is Some implies exists|
        i: int,
    |
        0 <= i < events.len() && is_working_link(
            #[trigger] events[i],
            n,
            after.sessions[n].paths.egress()->0.reached_at(),
        ) by {
        law_closed_channel_is_not_used(runtime.sessions[n].paths, channel_id);
        assert(runtime.loses_channel(channel_id, n));
        assert(told.contains(n));
        let i = told.index_of(n);
        assert(is_working_link(
            events[i],
            n,
            after.sessions[n].paths.egress()->0.reached_at(),
        ));
    }
    assert forall|n: NodeId|
        runtime.sessions.contains_key(n) && runtime.channels.contains_key(channel_id.0)
            && runtime.channels[channel_id.0].node_id == n && (
        #[trigger] after.sessions[n]).paths.egress() is Some implies exists|i: int|
        0 <= i < events.len() && is_working_link(
            #[trigger] events[i],
            n,
            after.sessions[n].paths.egress()->0.reached_at(),
        ) by {
        assert(runtime.loses_channel(channel_id, n));
        assert(told.contains(n));
        let i = told.index_of(n);
        assert(is_working_link(
            events[i],
            n,
            after.sessions[n].paths.egress()->0.reached_at(),
        ));
    }
    assert forall|i: int| 0 <= i < events.len() implies {
        &&& #[trigger] events[i] is LinkObserved
        &&& events[i]->LinkObserved_link.state.state == LinkRuntimeState::Active
        &&& after.sessions.contains_key(events[i]->LinkObserved_remote_node_id)
        &&& after.sessions[events[i]->LinkObserved_remote_node_id].paths.egress() is Some
    } by {
        assert(told.contains(told[i]));
    }
}

proof fn lemma_first_by_identity(nodes: Set<NodeId>) -> (first: NodeId)
    requires
        nodes.finite(),
        nodes.len() > 0,
    ensures
        nodes.contains(first),
        forall|other: NodeId| #[trigger] nodes.contains(other) ==> !other.before(first),
    decreases nodes.len(),
{
    let some = nodes.choose();
    let rest = nodes.remove(some);
    if rest.len() == 0 {
        NodeId::lemma_irreflexive(some);
        assert forall|other: NodeId| #[trigger] nodes.contains(other) implies !other.before(some) by {
            if other != some {
                assert(rest.contains(other));
            }
        }
        some
    } else {
        let least = lemma_first_by_identity(rest);
        NodeId::lemma_total(some, least);
        NodeId::lemma_irreflexive(some);
        let first = if some.before(least) {
            some
        } else {
            least
        };
        assert forall|other: NodeId| #[trigger] nodes.contains(other) implies !other.before(first) by {
            if other != some {
                assert(rest.contains(other));
                if other.before(some) && some.before(least) {
                    NodeId::lemma_transitive(other, some, least);
                }
            }
        }
        first
    }
}

/// A payload finds a way to a device exactly if the path that payloads to some peer leave over ends
/// there, whichever its transport.
pub proof fn law_device_is_reached_over_any_peer(runtime: RuntimeView, device_id: Seq<char>)
    requires
        runtime.sessions.dom().finite(),
    ensures
        runtime.has_egress(device_id) <==> exists|n: NodeId| #[trigger]
            runtime.sessions.contains_key(n) && runtime.sessions[n].paths.egress() is Some
                && leads_to(runtime.sessions[n].paths.egress()->0, device_id),
{
    let reaching = runtime.sessions.dom().filter(
        |n: NodeId| runtime.sessions[n].egress_for(device_id) is Some,
    );
    runtime.sessions.dom().lemma_len_filter(
        |n: NodeId| runtime.sessions[n].egress_for(device_id) is Some,
    );
    assert forall|n: NodeId| #[trigger] runtime.sessions.contains_key(n) implies (
    runtime.sessions[n].egress_for(device_id) is Some <==> runtime.sessions[n].paths.egress()
        is Some && leads_to(runtime.sessions[n].paths.egress()->0, device_id)) by {
        law_payloads_leave_over_a_held_session(runtime.sessions[n], device_id);
    }
    if runtime.has_egress(device_id) {
        let n = choose|n: NodeId| #[trigger] runtime.carries_first(device_id, n);
        assert(runtime.sessions.contains_key(n));
    }
    if exists|n: NodeId| #[trigger]
        runtime.sessions.contains_key(n) && runtime.sessions[n].paths.egress() is Some && leads_to(
            runtime.sessions[n].paths.egress()->0,
            device_id,
        ) {
        let n = choose|n: NodeId| #[trigger]
            runtime.sessions.contains_key(n) && runtime.sessions[n].paths.egress() is Some
                && leads_to(runtime.sessions[n].paths.egress()->0, device_id);
        assert(reaching.contains(n));
        if reaching.len() == 0 {
            reaching.lemma_len0_is_empty();
        }
        let first = lemma_first_by_identity(reaching);
        assert forall|other: NodeId|
            #![trigger runtime.sessions[other]]
            runtime.sessions.contains_key(other) && other.before(
                first,
            ) implies runtime.sessions[other].egress_for(device_id) is None by {
            if runtime.sessions[other].egress_for(device_id) is Some {
                assert(reaching.contains(other));
            }
        }
        assert(runtime.carries_first(device_id, first));
    }
}

/// Link events leave as soon as there is room: as many as the router takes, or all that wait.
pub proof fn law_deferred_events_leave_when_there_is_room(runtime: RuntimeView, accepted: nat)
    ensures
        runtime.leaving(accepted).len() == if accepted < runtime.deferred.len() {
            accepted
        } else {
            runtime.deferred.len()
        },
        forall|i: int|
            0 <= i < runtime.leaving(accepted).len() ==> #[trigger] runtime.leaving(accepted)[i]
                == runtime.deferred[i],
        accepted >= runtime.deferred.len() ==> runtime.flushed(accepted).deferred.len() == 0,
        runtime.flushed(accepted) == (RuntimeView {
            deferred: runtime.flushed(accepted).deferred,
            ..runtime
        }),
{
}

/// Discovering a device that shows a service of the discovery namespace asks for the claim on that
/// device and for nothing else: the attempt is absent only if that claim was refused, and otherwise it
/// is at the device. A device that shows no such service is passed over, and nothing changes.
pub proof fn law_discovery_attempts_every_unclaimed_peer()
    ensures
        forall|task: &mut BleRuntimeTask, device: BleDevice, attempt: Option<ConnectAttempt>|
            #[trigger] call_ensures(
                BleRuntimeTask::handle_device_discovered,
                (task, device),
                attempt,
            ) ==> {
                let hinted = exists|i: int|
                    0 <= i < device.services@.len() && in_discovery_namespace(
                        #[trigger] device.services@[i],
                    );
                &&& attempt is None ==> !hinted || claim_answer((*task)@.claims, device.id@, None)
                &&& attempt matches Some(a) ==> hinted && a.device_id@ == device.id@
                    && claim_answer((*task)@.claims, device.id@, Some(a.claim))
                &&& hinted ==> final(task)@.states.contains_key(device.id@)
                    && final(task)@.states[device.id@] is Hint
                &&& !hinted ==> final(task)@ == (*task)@
                &&& final(task)@.sessions == (*task)@.sessions
                &&& final(task)@.claims == (*task)@.claims
            },
{
    assert forall|task: &mut BleRuntimeTask, device: BleDevice, attempt: Option<ConnectAttempt>|
        #[trigger] call_ensures(
            BleRuntimeTask::handle_device_discovered,
            (task, device),
            attempt,
        ) implies {
        let hinted = exists|i: int|
            0 <= i < device.services@.len() && in_discovery_namespace(
                #[trigger] device.services@[i],
            );
        &&& attempt is None ==> !hinted || claim_answer((*task)@.claims, device.id@, None)
        &&& attempt matches Some(a) ==> hinted && a.device_id@ == device.id@ && claim_answer(
            (*task)@.claims,
            device.id@,
            Some(a.claim),
        )
        &&& hinted ==> final(task)@.states.contains_key(device.id@)
            && final(task)@.states[device.id@] is Hint
        &&& !hinted ==> final(task)@ == (*task)@
        &&& final(task)@.sessions == (*task)@.sessions
        &&& final(task)@.claims == (*task)@.claims
    } by {
        law_hint_is_found_anywhere(device.services@);
    }
}

/// A restored device is taken up unless the claim on it was refused, and is asked for its identity at
/// once exactly if it shows no service of the discovery namespace.
pub proof fn law_restored_devices_are_taken_up()
    ensures
        forall|task: &mut BleRuntimeTask, device: BleDevice, step: RestoredStep|
            #[trigger] call_ensures(
                BleRuntimeTask::handle_restored_device,
                (task, device),
                step,
            ) ==> {
                &&& step is Skip ==> claim_answer((*task)@.claims, device.id@, None)
                &&& step matches RestoredStep::Connect(a) ==> a.device_id@ == device.id@
                    && discovery_hint(device.services@) is Some && claim_answer(
                    (*task)@.claims,
                    device.id@,
                    Some(a.claim),
                )
                &&& step matches RestoredStep::Identify(a) ==> a.device_id@ == device.id@
                    && discovery_hint(device.services@) is None && claim_answer(
                    (*task)@.claims,
                    device.id@,
                    Some(a.claim),
                )
                &&& final(task)@.sessions == (*task)@.sessions
                &&& final(task)@.claims == (*task)@.claims
            },
{
}

/// Whether bytes that a device showed are the identity of a node.
pub open spec fn shows(identity: Option<Vec<u8>>, node_id: NodeId) -> bool {
    identity is Some && identity->0@ == node_id.0@
}

/// A connected device becomes a peer exactly if it shows an identity of full length whose first bytes
/// are those of the hint that it was asked for by; then it is known as that node. One that shows
/// another identity is dropped, one that nobody asked for is let be, and one that shows none has its
/// cache refreshed; none of these becomes a peer.
pub proof fn law_only_the_expected_identity_makes_a_peer()
    ensures
        forall|
            task: &mut BleRuntimeTask,
            device_id: DeviceId,
            identity: Option<Vec<u8>>,
            step: ConnectedStep,
        |
            #[trigger] call_ensures(
                BleRuntimeTask::handle_device_connected,
                (task, &device_id, identity),
                step,
            ) ==> {
                let usable = identity is Some && identity->0@.len() == 32;
                let known = (*task)@.states.contains_key(device_id@);
                let hinted = known && (*task)@.states[device_id@] is Hint;
                let expected = hinted && (*task)@.states[device_id@]->Hint_0.node_id_prefix
                    == identity->0@.take(6);
                &&& step is RefreshCache <==> !usable
                &&& step is Ignore <==> usable && !hinted
                &&& step is Disconnect <==> usable && hinted && !expected
                &&& step is Install <==> usable && expected
                &&& step matches ConnectedStep::Install { node_id } ==> shows(identity, node_id)
                    && final(task)@.node_of(device_id@) == Some(node_id)
                &&& step is Disconnect ==> !final(task)@.states.contains_key(device_id@)
                &&& step is RefreshCache || step is Ignore ==> final(task)@ == (*task)@
                &&& final(task)@.sessions == (*task)@.sessions
                &&& final(task)@.channels == (*task)@.channels
                &&& final(task)@.claims == (*task)@.claims
            },
{
}

/// A restored device becomes a peer exactly if it shows an identity of full length.
pub proof fn law_restored_identity_makes_a_peer()
    ensures
        forall|
            task: &mut BleRuntimeTask,
            device_id: DeviceId,
            identity: Option<Vec<u8>>,
            step: ConnectedStep,
        |
            #[trigger] call_ensures(
                BleRuntimeTask::handle_restored_identity,
                (task, &device_id, identity),
                step,
            ) ==> {
                let usable = identity is Some && identity->0@.len() == 32;
                &&& step is Install <==> usable
                &&& step is RefreshCache <==> !usable
                &&& step matches ConnectedStep::Install { node_id } ==> shows(identity, node_id)
                    && final(task)@.node_of(device_id@) == Some(node_id)
                &&& !usable ==> final(task)@ == (*task)@
                &&& final(task)@.sessions == (*task)@.sessions
                &&& final(task)@.claims == (*task)@.claims
            },
{
}

/// A session that is installed is told to the router as a working link at the endpoint of its
/// transport, whoever the peer is and whatever other paths it has.
pub proof fn law_installed_sessions_are_told()
    ensures
        forall|
            task: &mut BleRuntimeTask,
            node_id: NodeId,
            device_id: DeviceId,
            event: TransportIngressEvent,
        |
            #[trigger] call_ensures(
                BleRuntimeTask::install_gatt_session,
                (task, node_id, &device_id),
                event,
            ) ==> is_working_link(event@, node_id, gatt_endpoint_view(device_id@))
                && final(task)@.sessions.contains_key(node_id),
        forall|
            task: &mut BleRuntimeTask,
            node_id: NodeId,
            device_id: DeviceId,
            installed: L2capInstalled,
        |
            #[trigger] call_ensures(
                BleRuntimeTask::install_l2cap_session,
                (task, node_id, &device_id),
                installed,
            ) ==> {
                &&& is_working_link(installed.event@, node_id, l2cap_endpoint_view(device_id@))
                &&& installed.channel_id.0 == (*task)@.next_channel_id
                &&& final(task)@.channels.contains_key(installed.channel_id.0)
                &&& final(task)@.sessions.contains_key(node_id)
                &&& final(task)@.sessions[node_id].paths.egress() == Some(
                    SessionView::L2cap { device_id: device_id@, channel_id: installed.channel_id },
                )
            },
{
}

/// An L2CAP channel is taken into use exactly if the identity that came over it is the one that its
/// device was proven to be; otherwise nothing changes.
pub proof fn law_only_proven_nodes_open_channels()
    ensures
        forall|
            task: &mut BleRuntimeTask,
            device_id: DeviceId,
            identity: Option<NodeId>,
            installed: Option<L2capInstalled>,
        |
            #[trigger] call_ensures(
                BleRuntimeTask::handle_l2cap_accept,
                (task, &device_id, identity),
                installed,
            ) ==> {
                let proven = identity is Some && (*task)@.states.contains_key(device_id@)
                    && (*task)@.states[device_id@] == PeerIdentityView::Resolved(identity->0);
                &&& installed is Some <==> proven
                &&& installed matches Some(i) ==> is_working_link(
                    i.event@,
                    identity->0,
                    l2cap_endpoint_view(device_id@),
                ) && final(task)@.channels.contains_key(i.channel_id.0)
                &&& installed is None ==> final(task)@ == (*task)@
            },
{
}

/// When a device that was proven to be a node disconnects, the events tell of a failed link at the
/// endpoint of every session of that node that led to the device, so there is one if any did; the
/// cache is refreshed exactly after the error that calls for it. Nothing refers to the device then.
pub proof fn law_lost_device_is_told_and_forgotten()
    ensures
        forall|
            task: &mut BleRuntimeTask,
            device_id: DeviceId,
            cause: DisconnectCause,
            outcome: DisconnectOutcome,
        |
            #[trigger] call_ensures(
                BleRuntimeTask::handle_device_disconnected,
                (task, &device_id, cause),
                outcome,
            ) ==> {
                let events = event_views(outcome.events@);
                &&& (*task)@.states.contains_key(device_id@) && (*task)@.states[device_id@]
                    is Resolved ==> {
                    let node_id = (*task)@.states[device_id@]->Resolved_0;
                    &&& (*task)@.sessions.contains_key(node_id) ==> forall|session: SessionView|
                        #[trigger]
                        holds_session((*task)@.sessions[node_id].paths, session) && leads_to(
                            session,
                            device_id@,
                        ) ==> tells_of_fault(
                            events,
                            node_id,
                            session_place(session, device_id@),
                        ) && events.len() > 0
                    &&& (*task)@.sessions.contains_key(node_id)
                        && (*task)@.sessions[node_id].subscribers.contains(device_id@)
                        ==> tells_of_fault(events, node_id, gatt_endpoint_view(device_id@))
                }
                &&& !((*task)@.states.contains_key(device_id@) && (*task)@.states[device_id@]
                    is Resolved) ==> events.len() == 0
                &&& outcome.refresh_cache <==> cause is Gatt133
                &&& !final(task)@.states.contains_key(device_id@)
                &&& forall|n: NodeId| #[trigger]
                    final(task)@.sessions.contains_key(n) ==> (*task)@.sessions.contains_key(n)
                        && final(task)@.sessions[n] == (*task)@.sessions[n]
                &&& final(task)@.claims == (*task)@.claims
            },
{
    assert forall|
        task: &mut BleRuntimeTask,
        device_id: DeviceId,
        cause: DisconnectCause,
        outcome: DisconnectOutcome,
    |
        #[trigger] call_ensures(
            BleRuntimeTask::handle_device_disconnected,
            (task, &device_id, cause),
            outcome,
        ) && (*task)@.states.contains_key(device_id@) && (*task)@.states[device_id@]
            is Resolved && (*task)@.sessions.contains_key(
            (*task)@.states[device_id@]->Resolved_0,
        ) implies {
        let node_id = (*task)@.states[device_id@]->Resolved_0;
        let events = event_views(outcome.events@);
        &&& forall|session: SessionView| #[trigger]
            holds_session((*task)@.sessions[node_id].paths, session) && leads_to(
                session,
                device_id@,
            ) ==> tells_of_fault(events, node_id, session_place(session, device_id@))
                && events.len() > 0
        &&& (*task)@.sessions[node_id].subscribers.contains(device_id@) ==> tells_of_fault(
            events,
            node_id,
            gatt_endpoint_view(device_id@),
        )
    } by {
        let node_id = (*task)@.states[device_id@]->Resolved_0;
        law_lost_device_faults_every_path((*task)@.sessions[node_id], node_id, device_id@);
    }
    assert forall|
        task: &mut BleRuntimeTask,
        device_id: DeviceId,
        cause: DisconnectCause,
        outcome: DisconnectOutcome,
    |
        #[trigger] call_ensures(
            BleRuntimeTask::handle_device_disconnected,
            (task, &device_id, cause),
            outcome,
        ) implies event_views(outcome.events@).len() == outcome.events@.len() by {}
}

/// A remote central can always read who the node is, can read the PSM exactly while there is one, and
/// is refused every other read. What it writes is accepted exactly if it writes to the payload
/// characteristic and was proven to be a node; then the very bytes are handed on as those of that
/// node.
pub proof fn law_remote_centrals_are_answered(
    task: BleRuntimeTask,
    request: PeripheralRequest,
    reply: PeripheralReply,
)
    requires
        call_ensures(BleRuntimeTask::handle_peripheral_request, (&task, request), reply),
    ensures
        request matches PeripheralRequest::Read { char_uuid } ==> {
            &&& char_uuid == JACQUARD_NODE_ID_CHAR_UUID ==> reply is Value && reply->Value_0@
                == task@.local_node_id.0@
            &&& char_uuid == JACQUARD_PSM_CHAR_UUID && task@.local_psm is Some ==> reply is Value
                && reply->Value_0@ == psm_bytes(task@.local_psm->0)
            &&& reply is Reject <==> char_uuid != JACQUARD_NODE_ID_CHAR_UUID && (char_uuid
                != JACQUARD_PSM_CHAR_UUID || task@.local_psm is None)
        },
        request matches PeripheralRequest::Write { client_id, char_uuid, value } ==> {
            let proven = task@.states.contains_key(client_id@) && task@.states[client_id@]
                is Resolved;
            &&& reply is Accept <==> char_uuid == JACQUARD_C2P_CHAR_UUID && proven
            &&& !(reply is Accept) ==> reply is Reject
            &&& reply matches PeripheralReply::Accept(event) ==> is_payload(
                event@,
                task@.states[client_id@]->Resolved_0,
                client_id@,
                value@,
            )
        },
{
}

/// Whether an event hands on bytes of a node that came from a device over GATT.
pub open spec fn is_payload(
    event: IngressEventView,
    node_id: NodeId,
    device_id: Seq<char>,
    bytes: Seq<u8>,
) -> bool {
    match event {
        IngressEventView::PayloadReceived { from_node_id, endpoint, payload } => from_node_id
            == node_id && endpoint == gatt_endpoint_view(device_id) && payload == bytes,
        IngressEventView::LinkObserved { .. } => false,
    }
}

/// A notification is handed on exactly if it is of the payload characteristic and its device was
/// proven to be a node.
pub proof fn law_notified_payloads_are_handed_on(
    task: BleRuntimeTask,
    device_id: DeviceId,
    char_uuid: Uuid,
    value: Vec<u8>,
    event: Option<TransportIngressEvent>,
)
    requires
        call_ensures(
            BleRuntimeTask::handle_characteristic_notification,
            (&task, &device_id, char_uuid, value),
            event,
        ),
    ensures
        event is Some <==> char_uuid == JACQUARD_P2C_CHAR_UUID && task@.states.contains_key(
            device_id@,
        ) && task@.states[device_id@] is Resolved,
        event matches Some(e) ==> is_payload(
            e@,
            task@.states[device_id@]->Resolved_0,
            device_id@,
            value@,
        ),
{
}

/// A subscription of a device that was proven to be a node is recorded for that node and told as a
/// working link of the fanout endpoint, each time; a device is on record once. The subscription of any
/// other device is passed over. No path of the node and no other node is touched.
pub proof fn law_subscriptions_are_recorded_and_told()
    ensures
        forall|
            task: &mut BleRuntimeTask,
            client_id: DeviceId,
            event: Option<TransportIngressEvent>,
        |
            #[trigger] call_ensures(
                BleRuntimeTask::handle_p2c_subscription,
                (task, client_id),
                event,
            ) ==> {
                let proven = (*task)@.states.contains_key(client_id@)
                    && (*task)@.states[client_id@] is Resolved;
                let node_id = (*task)@.states[client_id@]->Resolved_0;
                &&& event is Some <==> proven
                &&& event matches Some(e) ==> {
                    &&& is_working_link(e@, node_id, notify_fanout_view())
                    &&& final(task)@.sessions.contains_key(node_id)
                    &&& final(task)@.sessions[node_id].subscribers.contains(client_id@)
                    &&& final(task)@.sessions[node_id].paths == (*task)@.peer(node_id).paths
                    &&& forall|other: Seq<char>|
                        other != client_id@ ==> (
                        #[trigger] final(task)@.sessions[node_id].subscribers.contains(other)
                            <==> (*task)@.peer(node_id).subscribers.contains(other))
                    &&& (*task)@.peer(node_id).subscribers.contains(client_id@)
                        ==> final(task)@.sessions[node_id].subscribers
                        == (*task)@.peer(node_id).subscribers
                    &&& forall|n: NodeId|
                        n != node_id ==> (#[trigger] final(task)@.sessions.contains_key(n)
                            <==> (*task)@.sessions.contains_key(n)) && final(task)@.sessions[n]
                            == (*task)@.sessions[n]
                }
                &&& event is None ==> final(task)@ == (*task)@
            },
{
    assert forall|
        task: &mut BleRuntimeTask,
        client_id: DeviceId,
        event: Option<TransportIngressEvent>,
    |
        #[trigger] call_ensures(
            BleRuntimeTask::handle_p2c_subscription,
            (task, client_id),
            event,
        ) && event is Some implies {
        let node_id = (*task)@.states[client_id@]->Resolved_0;
        let before = (*task)@.peer(node_id).subscribers;
        let after = final(task)@.sessions[node_id].subscribers;
        &&& after.contains(client_id@)
        &&& forall|other: Seq<char>|
            other != client_id@ ==> (#[trigger] after.contains(other) <==> before.contains(other))
    } by {
        let node_id = (*task)@.states[client_id@]->Resolved_0;
        let before = (*task)@.peer(node_id).subscribers;
        let after = final(task)@.sessions[node_id].subscribers;
        if !before.contains(client_id@) {
            assert(after == before.push(client_id@));
            assert(after[before.len() as int] == client_id@);
            assert forall|other: Seq<char>| other != client_id@ implies (
            #[trigger] after.contains(other) <==> before.contains(other)) by {
                if before.contains(other) {
                    let k = before.index_of(other);
                    assert(after[k] == other);
                }
                if after.contains(other) {
                    let k = after.index_of(other);
                    assert(before[k] == other);
                }
            }
        }
    }
}

/// A subscription that ended is told as a failed link of the fanout endpoint exactly if it was on
/// record for the node that its device was proven to be; the other subscriptions and the paths of that
/// node stay, and so does every other node.
pub proof fn law_ended_subscriptions_are_told()
    ensures
        forall|
            task: &mut BleRuntimeTask,
            client_id: DeviceId,
            event: Option<TransportIngressEvent>,
        |
            #[trigger] call_ensures(
                BleRuntimeTask::handle_p2c_unsubscription,
                (task, &client_id),
                event,
            ) ==> {
                let proven = (*task)@.states.contains_key(client_id@)
                    && (*task)@.states[client_id@] is Resolved;
                let node_id = (*task)@.states[client_id@]->Resolved_0;
                let before = (*task)@.peer(node_id);
                &&& event is Some <==> proven && before.subscribers.contains(client_id@)
                &&& event matches Some(e) ==> {
                    &&& is_fault(e@, node_id, notify_fanout_view())
                    &&& final(task)@.sessions.contains_key(node_id)
                    &&& final(task)@.sessions[node_id].paths == before.paths
                    &&& final(task)@.sessions[node_id].subscribers.len()
                        == before.subscribers.len() - 1
                    &&& forall|other: Seq<char>|
                        other != client_id@ ==> (#[trigger] before.subscribers.contains(other)
                            <==> final(task)@.sessions[node_id].subscribers.contains(other))
                    &&& forall|n: NodeId|
                        n != node_id ==> (#[trigger] final(task)@.sessions.contains_key(n)
                            <==> (*task)@.sessions.contains_key(n)) && final(task)@.sessions[n]
                            == (*task)@.sessions[n]
                }
                &&& event is None ==> final(task)@ == (*task)@
            },
{
    assert forall|
        task: &mut BleRuntimeTask,
        client_id: DeviceId,
        event: Option<TransportIngressEvent>,
    |
        #[trigger] call_ensures(
            BleRuntimeTask::handle_p2c_unsubscription,
            (task, &client_id),
            event,
        ) && event is Some implies {
        let node_id = (*task)@.states[client_id@]->Resolved_0;
        let before = (*task)@.peer(node_id).subscribers;
        let after = final(task)@.sessions[node_id].subscribers;
        &&& after.len() == before.len() - 1
        &&& forall|other: Seq<char>|
            other != client_id@ ==> (#[trigger] before.contains(other) <==> after.contains(other))
    } by {
        let node_id = (*task)@.states[client_id@]->Resolved_0;
        let before = (*task)@.peer(node_id).subscribers;
        law_unsubscribing_spares_the_others(before, client_id@);
        before.index_of_first_ensures(client_id@);
    }
}

/// What the peripheral role is told of leads to what it should: power to startup, a change of the
/// payload subscription to a link event if there is one to tell, and anything else to nothing.
pub proof fn law_peripheral_changes_are_acted_on()
    ensures
        forall|task: &mut BleRuntimeTask, event: PeripheralStateEvent, step: PeripheralStateStep|
            #[trigger] call_ensures(
                BleRuntimeTask::handle_peripheral_state_event,
                (task, event),
                step,
            ) ==> {
                &&& event matches PeripheralStateEvent::AdapterStateChanged { powered } ==> {
                    &&& step is TryStartup <==> powered
                    &&& step is Nothing <==> !powered
                    &&& powered ==> final(task)@.startup.gatt_service is Pending
                        && final(task)@.startup.advertising is Pending
                    &&& !powered ==> final(task)@.startup.gatt_service is WaitingForPower
                        && final(task)@.startup.advertising is WaitingForPower
                    &&& final(task)@.startup.scan == (*task)@.startup.scan
                    &&& final(task)@.sessions == (*task)@.sessions
                }
                &&& event matches PeripheralStateEvent::SubscriptionChanged {
                    client_id,
                    char_uuid,
                    subscribed,
                } ==> {
                    let proven = (*task)@.states.contains_key(client_id@)
                        && (*task)@.states[client_id@] is Resolved;
                    let node_id = (*task)@.states[client_id@]->Resolved_0;
                    let known = (*task)@.peer(node_id).subscribers.contains(client_id@);
                    &&& step is Control <==> char_uuid == JACQUARD_P2C_CHAR_UUID && proven && (
                    subscribed || known)
                    &&& !(step is Control) ==> step is Nothing && final(task)@ == (*task)@
                    &&& step matches PeripheralStateStep::Control(e) ==> {
                        &&& subscribed ==> is_working_link(e@, node_id, notify_fanout_view())
                        &&& !subscribed ==> is_fault(e@, node_id, notify_fanout_view())
                    }
                    &&& final(task)@.startup == (*task)@.startup
                }
            },
{
}

/// A frame of a channel that is on record is handed on as one of the node that owns the channel, at the
/// L2CAP endpoint of its device; other frames are dropped. A frame changes nothing, and a channel that
/// closed is off the record.
pub proof fn law_channel_frames_are_handed_on()
    ensures
        forall|task: &mut BleRuntimeTask, event: L2capRuntimeEvent, step: L2capStep|
            #[trigger] call_ensures(
                BleRuntimeTask::handle_l2cap_runtime_event,
                (task, event),
                step,
            ) ==> {
                &&& event matches L2capRuntimeEvent::FrameReceived { channel_id, payload } ==> {
                    let open = (*task)@.channels.contains_key(channel_id.0);
                    &&& step is Payload <==> open
                    &&& step is Nothing <==> !open
                    &&& step matches L2capStep::Payload(e) ==> {
                        &&& e@ matches IngressEventView::PayloadReceived {
                            from_node_id,
                            endpoint,
                            payload: bytes,
                        }
                        &&& from_node_id == (*task)@.channels[channel_id.0].node_id
                        &&& endpoint == l2cap_endpoint_view(
                            (*task)@.channels[channel_id.0].device_id,
                        )
                        &&& bytes == payload@
                    }
                    &&& final(task)@ == (*task)@
                }
                &&& event matches L2capRuntimeEvent::ChannelClosed { channel_id } ==> {
                    &&& step is Control
                    &&& !final(task)@.channels.contains_key(channel_id.0)
                }
            },
{
}

/// What the central role is told of leads to what it should: power to startup, a device to an attempt
/// at it unless it is claimed, a connection to a look at its identity, a lost device to failed links,
/// and a payload of a proven node to the router.
pub proof fn law_central_events_are_acted_on()
    ensures
        forall|task: &mut BleRuntimeTask, event: CentralEvent, step: CentralStep|
            #[trigger] call_ensures(
                BleRuntimeTask::handle_central_event,
                (task, event),
                step,
            ) ==> {
                &&& event matches CentralEvent::AdapterStateChanged { powered } ==> {
                    &&& step is TryStartup <==> powered
                    &&& step is Nothing <==> !powered
                    &&& final(task)@.startup.scan is Pending <==> powered
                    &&& final(task)@.startup.scan is WaitingForPower <==> !powered
                    &&& final(task)@.sessions == (*task)@.sessions
                }
                &&& event matches CentralEvent::DeviceDiscovered(device) ==> {
                    &&& step is Connect || step is Nothing
                    &&& step is Nothing ==> discovery_hint(device.services@) is None
                        || claim_answer((*task)@.claims, device.id@, None)
                    &&& step matches CentralStep::Connect(a) ==> a.device_id@ == device.id@
                        && claim_answer((*task)@.claims, device.id@, Some(a.claim))
                }
                &&& event matches CentralEvent::DeviceConnected { device_id } ==> {
                    &&& step matches CentralStep::ReadIdentity { device_id: asked }
                    &&& asked == device_id
                    &&& final(task)@ == (*task)@
                }
                &&& event matches CentralEvent::DeviceDisconnected { device_id, cause } ==> {
                    &&& step matches CentralStep::Disconnected { device_id: gone, outcome }
                    &&& gone == device_id
                    &&& outcome.refresh_cache <==> cause is Gatt133
                    &&& !final(task)@.states.contains_key(device_id@)
                }
                &&& event matches CentralEvent::CharacteristicNotification {
                    device_id,
                    char_uuid,
                    value,
                } ==> {
                    &&& step is Payload <==> char_uuid == JACQUARD_P2C_CHAR_UUID
                        && (*task)@.states.contains_key(device_id@)
                        && (*task)@.states[device_id@] is Resolved
                    &&& !(step is Payload) ==> step is Nothing
                    &&& step matches CentralStep::Payload(e) ==> is_payload(
                        e@,
                        (*task)@.states[device_id@]->Resolved_0,
                        device_id@,
                        value@,
                    )
                    &&& final(task)@ == (*task)@
                }
            },
{
}

/// A unicast payload leaves over the path to the device that its endpoint names and is given up only if
/// it names none. A multicast payload is notified, to one device of each receiver where receivers are
/// addressed one by one, exactly if all receivers subscribed. Nothing else leaves.
pub proof fn law_payloads_are_dispatched(
    task: BleRuntimeTask,
    intent: TransportDeliveryIntent,
    platform: NotifyPlatform,
    step: DispatchStep,
)
    requires
        call_ensures(BleRuntimeTask::dispatch_step, (&task, &intent, platform), step),
    ensures
        intent@ matches DeliveryIntentView::Unicast { endpoint } ==> {
            &&& step is Unicast <==> endpoint_device(endpoint) is Some
            &&& step matches DispatchStep::Unicast(dispatch) ==> Some(dispatch.device_id@)
                == endpoint_device(endpoint) && dispatch.downgraded_l2cap is None
            &&& !(step is Unicast) ==> step is Nothing
        },
        intent@ matches DeliveryIntentView::Multicast { endpoint, receivers, .. } ==> {
            let served = endpoint == notify_fanout_view() && receivers.len() > 0 && forall|i: int|
                0 <= i < receivers.len() ==> task@.sessions.contains_key(#[trigger] receivers[i])
                    && task@.sessions[receivers[i]].subscribers.len() > 0;
            &&& step is Notify || step is Nothing
            &&& step is Notify ==> served
            &&& platform == NotifyPlatform::Targeted && served ==> {
                &&& step matches DispatchStep::Notify(devices)
                &&& devices@.len() == receivers.len()
                &&& forall|i: int|
                    0 <= i < receivers.len() ==> task@.sessions[receivers[i]].subscribers.contains(
                        (#[trigger] devices@[i])@,
                    )
            }
            &&& platform == NotifyPlatform::Broadcast && step is Notify
                ==> step->Notify_0@.len() == 1 && receivers.len() > 0
                && task@.sessions[receivers[0]].subscribers.contains(step->Notify_0@[0]@)
        },
        intent@ is Broadcast ==> step is Nothing,
{
    if let DeliveryIntentView::Multicast { endpoint, receivers, .. } = intent@ {
        law_every_receiver_is_notified(task@, endpoint, receivers, platform);
        if let DispatchStep::Notify(devices) = step {
            let names = device_names(devices@);
            assert forall|i: int| 0 <= i < devices@.len() implies names[i] == (
            #[trigger] devices@[i])@ by {}
        }
    }
}

/// On a platform that addresses subscribers one by one, a multicast payload that is dispatched at all
/// is notified to a subscribed device of every receiver, and to no other device; and it is dispatched
/// whenever every receiver has one.
pub proof fn law_multicast_reaches_every_receiver(
    task: BleRuntimeTask,
    endpoint: LinkEndpoint,
    receivers: Vec<NodeId>,
    platform: NotifyPlatform,
    targets: Option<Vec<DeviceId>>,
)
    requires
        call_ensures(
            BleRuntimeTask::multicast_targets,
            (&task, &endpoint, &receivers, platform),
            targets,
        ),
        platform == NotifyPlatform::Targeted,
    ensures
        targets is Some <==> endpoint@ == notify_fanout_view() && receivers@.len() > 0 && forall|
            i: int,
        |
            0 <= i < receivers@.len() ==> task@.sessions.contains_key(#[trigger] receivers@[i])
                && task@.sessions[receivers@[i]].subscribers.len() > 0,
        targets matches Some(devices) ==> {
            &&& devices@.len() == receivers@.len()
            &&& forall|i: int|
                0 <= i < devices@.len() ==> task@.sessions[receivers@[i]].subscribers.contains(
                    (#[trigger] devices@[i])@,
                )
        },
{
    law_every_receiver_is_notified(task@, endpoint@, receivers@, platform);
    if let Some(devices) = targets {
        let names = device_names(devices@);
        assert forall|i: int| 0 <= i < devices@.len() implies names[i] == (
        #[trigger] devices@[i])@ by {}
    }
}

/// A channel that refuses a payload is closed and the payload is tried again, once for each channel;
/// only the channel that refused it just before ends the try.
pub proof fn law_refused_payload_is_retried_once()
    ensures
        forall|
            task: &mut BleRuntimeTask,
            dispatch: &mut UnicastDispatch,
            channel_id: BleChannelId,
            retry: UnicastRetry,
        |
            #[trigger] call_ensures(
                BleRuntimeTask::unicast_send_failed,
                (task, dispatch, channel_id),
                retry,
            ) ==> {
                let again = (*dispatch).downgraded_l2cap == Some(channel_id);
                &&& retry is GiveUp <==> again
                &&& retry is Retry <==> !again
                &&& final(dispatch).device_id@ == (*dispatch).device_id@
                &&& final(dispatch).downgraded_l2cap == Some(channel_id)
                &&& again ==> final(task)@ == (*task)@
                &&& !again ==> !final(task)@.channels.contains_key(channel_id.0)
                &&& !again ==> forall|n: NodeId| #[trigger]
                    final(task)@.sessions.contains_key(n)
                        ==> !final(task)@.sessions[n].paths.prefers_channel(channel_id)
            },
{
}

/// Link events that wait are kept in the order in which they came, leave from the oldest on as soon as
/// there is room, and are never lost.
pub proof fn law_link_events_are_never_lost()
    ensures
        forall|task: &mut BleRuntimeTask, event: TransportIngressEvent, nothing: ()|
            #[trigger] call_ensures(
                BleRuntimeTask::defer_control_event,
                (task, event),
                nothing,
            ) ==> final(task)@.deferred == (*task)@.deferred.push(event@)
                && final(task)@.sessions == (*task)@.sessions,
        forall|task: &mut BleRuntimeTask, accepted: usize, left: Vec<TransportIngressEvent>|
            #[trigger] call_ensures(
                BleRuntimeTask::flush_deferred_control_events,
                (task, accepted),
                left,
            ) ==> {
                &&& event_views(left@) + final(task)@.deferred == (*task)@.deferred
                &&& left@.len() == accepted || final(task)@.deferred.len() == 0
                &&& left@.len() <= accepted
                &&& final(task)@.sessions == (*task)@.sessions
            },
{
    assert forall|task: &mut BleRuntimeTask, accepted: usize, left: Vec<TransportIngressEvent>|
        #[trigger] call_ensures(
            BleRuntimeTask::flush_deferred_control_events,
            (task, accepted),
            left,
        ) implies {
        &&& event_views(left@) + final(task)@.deferred == (*task)@.deferred
        &&& left@.len() == accepted || final(task)@.deferred.len() == 0
        &&& left@.len() <= accepted
        &&& final(task)@.sessions == (*task)@.sessions
    } by {
        law_deferred_events_keep_their_order(
            (*task)@,
            accepted as nat,
            0,
            arbitrary::<IngressEventView>(),
        );
        law_deferred_events_leave_when_there_is_room((*task)@, accepted as nat);
        assert(event_views(left@).len() == left@.len());
    }
}

/// The devices that the platform restored are taken up first, each once and from the first on, and
/// startup runs only when none is left.
pub proof fn law_restored_devices_come_before_startup()
    ensures
        forall|task: &mut BleRuntimeTask, step: BringUpStep|
            #[trigger] call_ensures(BleRuntimeTask::bring_up_step, (task,), step) ==> {
                let waiting = (*task)@.restored_devices;
                &&& step is Startup <==> waiting.len() == 0
                &&& step matches BringUpStep::TakeUp(device) ==> waiting == seq![device]
                    + final(task)@.restored_devices
                &&& step is Startup ==> final(task)@ == (*task)@
            },
{
    assert forall|task: &mut BleRuntimeTask, step: BringUpStep|
        #[trigger] call_ensures(
            BleRuntimeTask::bring_up_step,
            (task,),
            step,
        ) && (*task)@.restored_devices.len() > 0 implies (*task)@.restored_devices =~= seq![
        (*task)@.restored_devices.first(),
    ] + final(task)@.restored_devices by {}
}

/// The PSM that is offered is that of a listener that opened, and the service is published exactly if
/// it is due and the platform did not restore it; a restored one counts as published.
pub proof fn law_startup_attempts_are_recorded()
    ensures
        forall|task: &mut BleRuntimeTask, outcome: ListenerOutcome, psm: Psm, nothing: ()|
            #[trigger] call_ensures(
                BleRuntimeTask::listener_attempted,
                (task, outcome, psm),
                nothing,
            ) ==> {
                &&& outcome is Opened ==> final(task)@.local_psm == Some(psm)
                &&& !(outcome is Opened) ==> final(task)@.local_psm == (*task)@.local_psm
                &&& final(task)@.startup.l2cap_listener is Started <==> outcome is Opened
                &&& final(task)@.startup.l2cap_listener is Unsupported <==> outcome is NotSupported
                &&& final(task)@.startup.l2cap_listener is Retry <==> outcome is Failed
            },
        forall|task: &mut BleRuntimeTask, wanted: bool|
            #[trigger] call_ensures(BleRuntimeTask::wants_service, (task,), wanted) ==> {
                let restored = (*task)@.restored_services.contains(
                    JACQUARD_IDENTITY_SERVICE_UUID,
                );
                let due = (*task)@.startup.service_due();
                &&& wanted <==> due && !restored
                &&& due && restored ==> final(task)@.startup.gatt_service is Started
                &&& !(due && restored) ==> final(task)@ == (*task)@
            },
        forall|task: &mut BleRuntimeTask, outcome: StartOutcome, nothing: ()|
            #[trigger] call_ensures(
                BleRuntimeTask::service_attempted,
                (task, outcome),
                nothing,
            ) ==> (final(task)@.startup.gatt_service is Retry <==> outcome is Failed)
                && final(task)@.startup.scan == (*task)@.startup.scan,
        forall|task: &mut BleRuntimeTask, outcome: StartOutcome, nothing: ()|
            #[trigger] call_ensures(
                BleRuntimeTask::advertising_attempted,
                (task, outcome),
                nothing,
            ) ==> (final(task)@.startup.advertising is Retry <==> outcome is Failed)
                && final(task)@.startup.gatt_service == (*task)@.startup.gatt_service,
        forall|task: &mut BleRuntimeTask, outcome: StartOutcome, nothing: ()|
            #[trigger] call_ensures(
                BleRuntimeTask::scan_attempted,
                (task, outcome),
                nothing,
            ) ==> (final(task)@.startup.scan is Retry <==> outcome is Failed)
                && final(task)@.startup.gatt_service == (*task)@.startup.gatt_service,
{
}

/// A payload to a device finds a path exactly if the path that payloads to some peer leave over ends at
/// the device, whichever its transport; the path that it finds ends there.
pub proof fn law_path_to_a_device_is_found(
    task: BleRuntimeTask,
    device_id: DeviceId,
    session: Option<BleSession>,
)
    requires
        call_ensures(
            BleRuntimeTask::egress_session_for_device,
            (&task, &device_id),
            session,
        ),
    ensures
        session is Some <==> exists|n: NodeId| #[trigger]
            task@.sessions.contains_key(n) && task@.sessions[n].paths.egress() is Some && leads_to(
                task@.sessions[n].paths.egress()->0,
                device_id@,
            ),
        session matches Some(found) ==> leads_to(found@, device_id@) && exists|n: NodeId| #[trigger]
            task@.sessions.contains_key(n) && task@.sessions[n].paths.egress() == Some(found@),
{
    assert forall|n: NodeId| #[trigger] task@.sessions.contains_key(n) implies (
    task@.sessions[n].egress_for(device_id@) is Some <==> task@.sessions[n].paths.egress() is Some
        && leads_to(task@.sessions[n].paths.egress()->0, device_id@)) && (
    task@.sessions[n].egress_for(device_id@) is Some ==> task@.sessions[n].egress_for(device_id@)
        == task@.sessions[n].paths.egress()) by {
        law_payloads_leave_over_a_held_session(task@.sessions[n], device_id@);
    }
    if let Some(found) = session {
        let n = choose|n: NodeId| #[trigger]
            task@.carries_first(device_id@, n) && task@.sessions[n].egress_for(device_id@) == Some(
                found@,
            );
        assert(task@.sessions.contains_key(n));
    }
}

/// A new runtime knows no device, has no session and no channel, and has nothing started; it is refused
/// exactly if its settings leave a queue without room.
pub proof fn law_new_runtime_knows_nothing(
    local_node_id: NodeId,
    config: BleConfig,
    restored_state: BleRestoredState,
    result: Result<BleRuntimeTask, BleLinkError>,
)
    requires
        call_ensures(
            BleRuntimeTask::new_with_restored_state,
            (local_node_id, config, restored_state),
            result,
        ),
    ensures
        result is Ok <==> config.ingress_capacity > 0 && config.command_capacity > 0,
        result matches Ok(task) ==> {
            &&& task@.local_node_id == local_node_id
            &&& task@.config == config
            &&& task@.local_psm is None
            &&& task@.restored_devices == restored_state.central_devices@
            &&& task@.restored_services == restored_state.peripheral_service_uuids@
            &&& task@.startup.listener_due() && task@.startup.scan_due()
            &&& forall|device_id: Seq<char>| !(#[trigger] task@.states.contains_key(device_id))
            &&& forall|n: NodeId| !(#[trigger] task@.addresses.contains_key(n))
            &&& forall|n: NodeId| !(#[trigger] task@.sessions.contains_key(n))
            &&& forall|id: u64| !(#[trigger] task@.channels.contains_key(id))
            &&& task@.deferred.len() == 0
            &&& task@.next_channel_id == 1
        },
{
}

/// The views of a runtime tell everything that it holds, item by item.
pub proof fn law_runtime_views_tell_every_item(
    sessions: Map<NodeId, PeerSessions>,
    channels: Map<u64, ActiveL2capChannel>,
    events: Seq<TransportIngressEvent>,
    n: NodeId,
    id: u64,
    i: int,
)
    requires
        0 <= i < events.len(),
    ensures
        session_views(sessions).contains_key(n) <==> sessions.contains_key(n),
        sessions.contains_key(n) ==> session_views(sessions)[n] == sessions[n]@,
        channel_views(channels).contains_key(id) <==> channels.contains_key(id),
        channels.contains_key(id) ==> channel_views(channels)[id].node_id == channels[id].node_id
            && channel_views(channels)[id].device_id == channels[id].device_id@,
        event_views(events).len() == events.len(),
        event_views(events)[i] == events[i]@,
{
}

/// The devices of some receivers are found exactly if there are receivers and each of them has a
/// subscribed device; they are found in the order of the receivers.
pub proof fn law_subscribed_devices_are_found(
    task: BleRuntimeTask,
    receivers: Vec<NodeId>,
    devices: Option<Vec<DeviceId>>,
)
    requires
        call_ensures(
            BleRuntimeTask::notify_subscriber_device_ids,
            (&task, &receivers),
            devices,
        ),
    ensures
        devices is Some <==> receivers@.len() > 0 && forall|i: int|
            0 <= i < receivers@.len() ==> task@.sessions.contains_key(#[trigger] receivers@[i])
                && task@.sessions[receivers@[i]].subscribers.len() > 0,
        devices matches Some(found) ==> found@.len() == receivers@.len() && forall|i: int|
            0 <= i < found@.len() ==> (#[trigger] found@[i])@
                == task@.sessions[receivers@[i]].subscribers[0],
{
    if let Some(found) = devices {
        let names = device_names(found@);
        assert(names.len() == found@.len());
        assert forall|i: int| 0 <= i < found@.len() implies (#[trigger] found@[i])@
            == task@.sessions[receivers@[i]].subscribers[0] by {
            assert(names[i] == found@[i]@);
        }
    }
}

/// A device is known as a node exactly if it was proven to be that node.
pub proof fn law_devices_are_known_by_proof(
    task: BleRuntimeTask,
    device_id: DeviceId,
    node_id: Option<NodeId>,
)
    requires
        call_ensures(
            BleRuntimeTask::resolved_node_id_for_device,
            (&task, &device_id),
            node_id,
        ),
    ensures
        node_id is Some <==> task@.states.contains_key(device_id@) && task@.states[device_id@]
            is Resolved,
        node_id is Some ==> task@.states[device_id@] == PeerIdentityView::Resolved(node_id->0),
{
}

/// A peer without an entry has no path and no subscription; any other one has what its entry says.
pub proof fn law_unknown_peers_have_no_path(runtime: RuntimeView, node_id: NodeId)
    ensures
        runtime.sessions.contains_key(node_id) ==> runtime.peer(node_id)
            == runtime.sessions[node_id],
        !runtime.sessions.contains_key(node_id) ==> {
            &&& runtime.peer(node_id).subscribers.len() == 0
            &&& forall|session: SessionView|
                !(#[trigger] holds_session(runtime.peer(node_id).paths, session))
        },
{
}

/// Of several peers whose paths lead to a device, the first by identity carries the payload.
pub proof fn law_first_peer_carries_the_payload(
    runtime: RuntimeView,
    device_id: Seq<char>,
    node_id: NodeId,
    other: NodeId,
)
    requires
        runtime.carries_first(device_id, node_id),
        runtime.sessions.contains_key(other),
        runtime.sessions[other].paths.egress() is Some,
        leads_to(runtime.sessions[other].paths.egress()->0, device_id),
    ensures
        runtime.sessions.contains_key(node_id),
        runtime.sessions[node_id].paths.egress() is Some,
        leads_to(runtime.sessions[node_id].paths.egress()->0, device_id),
        other == node_id || node_id.before(other),
{
    law_payloads_leave_over_a_held_session(runtime.sessions[other], device_id);
    law_payloads_leave_over_a_held_session(runtime.sessions[node_id], device_id);
    NodeId::lemma_total(node_id, other);
    assert(runtime.sessions[other].egress_for(device_id) is Some);
}

/// What closing a channel tells, it tells once of each peer and in the order of their identities.
pub proof fn law_closing_tells_in_order(
    runtime: RuntimeView,
    channel_id: BleChannelId,
    events: Seq<IngressEventView>,
    i: int,
    j: int,
)
    requires
        runtime.tells_of_closing(channel_id, events),
        0 <= i < j < events.len(),
    ensures
        events[i] is LinkObserved,
        events[j] is LinkObserved,
        events[i]->LinkObserved_remote_node_id.before(events[j]->LinkObserved_remote_node_id),
{
    let told = choose|told: Seq<NodeId>| #[trigger]
        runtime.closing_tells(channel_id, told, events);
    assert(told[i].before(told[j]));
    assert(events[i]->LinkObserved_remote_node_id == told[i]);
    assert(events[j]->LinkObserved_remote_node_id == told[j]);
}

} // verus!
