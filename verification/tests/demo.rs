//! Invites, application frames, relaying, and what a host shows of the topology.

use jq_ble::authoring::{active_route, topology};
use jq_ble::endpoint::{ByteCount, DeviceId, EndpointLocator, LinkEndpoint, TransportKind};
use jq_ble::errors::{
    BleBridgeError, BleClientError, RouteError, RouteRuntimeError, RouteSelectionError,
    TransportError,
};
use jq_ble::framing::{decode_application_frame, encode_application_frame};
use jq_ble::gatt::gatt_endpoint;
use jq_ble::identity::{NodeId, RouteId, RoutingEngineId, Tick};
use jq_ble::invite::{JacquardPeerInviteError, decode_peer_invite, encode_peer_invite};
use jq_ble::link::{
    Belief, DurationMs, FactSourceClass, Link, LinkProfile, LinkRuntimeState, LinkState,
    Observation, OriginAuthenticationClass, PartitionRecoveryClass, RatioPermille,
    RepairCapability, RoutingEvidenceClass,
};
use jq_ble::routing::ble_node;
use jq_ble::service::{
    HostSlot, HostSlotError, IntroducedPeers, JacquardIntroducedPeer, PumpStep, RelayRetryPolicy,
    RelayStep, pump_step, relay_retryable, sanitize_topology,
};
use jq_ble::topology::{DestinationId, MeshEdge, MeshNode};

fn node_id(byte: u8) -> NodeId {
    NodeId([byte; 32])
}

#[test]
fn peer_invite_round_trips_through_deep_link() {
    let node_id = node_id(7);
    let invite = encode_peer_invite(node_id);
    assert_eq!(decode_peer_invite(&invite).expect("decode invite"), node_id);
}

#[test]
fn peer_invite_accepts_plain_hex_node_ids() {
    let node_id = node_id(9);
    let plain = hex::encode(node_id.0);
    assert_eq!(decode_peer_invite(&plain).expect("decode plain"), node_id);
}

#[test]
fn peer_invite_rejects_wrong_scheme() {
    let err = decode_peer_invite("wrong-scheme:///add-peer/deadbeef")
        .expect_err("wrong scheme should fail");
    assert!(matches!(err, JacquardPeerInviteError::InvalidScheme { .. }));
}

#[test]
fn application_frame_preserves_claimed_source_for_relay() {
    let claimed_source = node_id(1);
    let destination = node_id(3);
    let payload = encode_application_frame(claimed_source, destination, b"relay");
    let frame = decode_application_frame(&payload).expect("decode application frame");

    assert_eq!(frame.from_node_id, claimed_source);
    assert_eq!(frame.destination_node_id, destination);
    assert_eq!(frame.payload, b"relay");
}

#[test]
fn an_invite_spells_out_the_identity() {
    assert_eq!(
        encode_peer_invite(node_id(0xab)),
        format!("jq-ble:///add-peer/{}", "ab".repeat(32))
    );
    let short = format!("  jq-ble://add-peer/ {}  ", "AB".repeat(32));
    assert_eq!(decode_peer_invite(&short).expect("white space is trimmed"), node_id(0xab));
}

#[test]
fn invites_are_refused_for_what_is_wrong_with_them() {
    assert_eq!(decode_peer_invite("  \t"), Err(JacquardPeerInviteError::Empty));
    assert!(matches!(
        decode_peer_invite("jq-ble:///remove-peer/00"),
        Err(JacquardPeerInviteError::InvalidFormat)
    ));
    assert!(matches!(
        decode_peer_invite("jq-ble:///add-peer/00"),
        Err(JacquardPeerInviteError::InvalidNodeIdLength { found: 2 })
    ));
    assert!(matches!(
        decode_peer_invite(&"zz".repeat(32)),
        Err(JacquardPeerInviteError::InvalidNodeIdHex(_))
    ));
    match decode_peer_invite("wrong://x") {
        Err(JacquardPeerInviteError::InvalidScheme { found, .. }) => assert_eq!(found, "wrong"),
        other => panic!("unexpected result: {other:?}"),
    }
}

#[test]
fn five_node_line_relays_end_to_end_without_exposing_intermediaries_to_endpoints() {
    let line = [node_id(1), node_id(2), node_id(3), node_id(4), node_id(5)];
    for (from, to, text) in [(0, 4, "unknown-intermediary"), (4, 0, "return-path")] {
        let mut bytes = encode_application_frame(line[from], line[to], text.as_bytes());
        let path: Vec<usize> = if from < to { (from + 1..=to).collect() } else { (to..from).rev().collect() };
        let mut previous = line[from];
        for at in path {
            match pump_step(line[at], previous, bytes.clone()) {
                PumpStep::Deliver(message) => {
                    assert_eq!(at, to, "only the endpoint may see the payload");
                    assert_eq!(message.from_node_id, line[from]);
                    assert_eq!(message.transport_from_node_id, previous);
                    assert_eq!(message.payload, text.as_bytes());
                }
                PumpStep::Relay { relay, frame } => {
                    assert_ne!(at, to);
                    assert_eq!(relay.from_node_id, line[from]);
                    assert_eq!(relay.destination_node_id, line[to]);
                    bytes = frame;
                }
                PumpStep::Discard => panic!("a frame is not discarded"),
            }
            previous = line[at];
        }
    }
}

#[test]
fn bytes_that_are_no_frame_are_discarded() {
    assert!(matches!(
        pump_step(node_id(1), node_id(2), b"JQCONTROL plane".to_vec()),
        PumpStep::Discard
    ));
    let mut cut = encode_application_frame(node_id(1), node_id(2), b"");
    cut.pop();
    assert!(matches!(pump_step(node_id(1), node_id(2), cut), PumpStep::Discard));
}

#[test]
fn only_passing_errors_are_worth_another_attempt() {
    for transport in [TransportError::Unavailable, TransportError::TimedOut] {
        assert!(relay_retryable(&BleClientError::Transport(transport)));
        assert!(relay_retryable(&BleClientError::Route(RouteError::Transport(transport))));
        assert!(relay_retryable(&BleClientError::Bridge(BleBridgeError::Transport(transport))));
        assert!(relay_retryable(&BleClientError::Bridge(BleBridgeError::Route(
            RouteError::Transport(transport)
        ))));
    }
    assert!(relay_retryable(&BleClientError::Route(RouteError::Selection(
        RouteSelectionError::NoCandidate
    ))));
    assert!(!relay_retryable(&BleClientError::Bridge(BleBridgeError::Route(
        RouteError::Selection(RouteSelectionError::NoCandidate)
    ))));
    assert!(!relay_retryable(&BleClientError::Transport(TransportError::Rejected)));
    assert!(!relay_retryable(&BleClientError::Route(RouteError::Runtime(
        RouteRuntimeError::StaleOwner
    ))));
    assert!(!relay_retryable(&BleClientError::RuntimeStopped));
}

#[test]
fn relaying_gives_up_after_the_last_attempt() {
    let policy = RelayRetryPolicy {
        interval_ms: 1,
        max_attempts: 3,
    };
    let busy = Err(BleClientError::Transport(TransportError::Unavailable));
    assert!(policy.attempts_any());
    assert_eq!(policy.after_attempt(0, busy), RelayStep::Wait);
    assert_eq!(policy.after_attempt(1, busy), RelayStep::Wait);
    assert_eq!(policy.after_attempt(2, busy), RelayStep::Dropped);
    assert_eq!(policy.after_attempt(2, Ok(())), RelayStep::Relayed);
    assert_eq!(
        policy.after_attempt(0, Err(BleClientError::RuntimePanicked)),
        RelayStep::Dropped
    );
    assert_eq!(RelayRetryPolicy::default().interval_ms, 25);
    assert_eq!(RelayRetryPolicy::default().max_attempts, 200);
}

fn link_to(byte: u8) -> Observation<Link> {
    Observation {
        value: Link {
            endpoint: gatt_endpoint(&DeviceId::named(&format!("device-{byte}"))),
            profile: LinkProfile {
                latency_floor_ms: DurationMs(25),
                repair_capability: RepairCapability::TransportRetransmit,
                partition_recovery: PartitionRecoveryClass::LocalReconnect,
            },
            state: LinkState {
                state: LinkRuntimeState::Active,
                median_rtt_ms: Belief::Absent,
                transfer_rate_bytes_per_sec: Belief::Absent,
                stability_horizon_ms: Belief::Absent,
                loss_permille: RatioPermille(0),
                delivery_confidence_permille: Belief::Absent,
                symmetry_permille: Belief::Absent,
            },
        },
        source_class: FactSourceClass::Local,
        evidence_class: RoutingEvidenceClass::DirectObservation,
        origin_authentication: OriginAuthenticationClass::Unauthenticated,
        observed_at_tick: Tick(1),
    }
}

#[test]
fn a_host_shows_only_what_its_node_can_see() {
    let described = |byte| {
        ble_node(
            node_id(byte),
            LinkEndpoint::new(
                TransportKind::BleGatt,
                EndpointLocator::Opaque(vec![byte]),
                ByteCount(512),
            ),
            Tick(1),
        )
    };
    let route = |byte: u8, to: u8| {
        active_route(
            RouteId([byte; 16]),
            node_id(1),
            DestinationId::Node(node_id(to)),
            node_id(to),
            RoutingEngineId::from_contract_bytes([0; 16]),
            Tick(1),
        )
        .reachable(2)
        .with_protocol_mix(vec![TransportKind::BleGatt])
        .build()
    };
    let snapshot = topology(node_id(1), Tick(4))
        .with_node(MeshNode::local(node_id(1), described(1)))
        .with_node(MeshNode::remote(node_id(2), described(2)))
        .with_node(MeshNode::remote(node_id(3), described(3)))
        .with_edge(MeshEdge::new(node_id(1), node_id(2), link_to(2)))
        .with_edge(MeshEdge::new(node_id(2), node_id(1), link_to(1)))
        .with_edge(MeshEdge::new(node_id(2), node_id(3), link_to(3)))
        .with_active_route(route(7, 2))
        .with_active_route(route(8, 3))
        .build()
        .expect("build");
    let shown = sanitize_topology(snapshot);
    assert_eq!(shown.observed_at_tick, Tick(4));
    assert_eq!(shown.nodes.len(), 2);
    assert!(shown.node(&node_id(3)).is_none());
    assert_eq!(shown.edges.len(), 1);
    assert!(shown.edge(node_id(1), node_id(2)).is_some());
    assert!(shown.active_route(&RouteId([7; 16])).is_some());
    assert!(shown.active_route(&RouteId([8; 16])).is_none());
    let copy = shown.duplicate();
    assert!(sanitize_topology(shown).same(&copy), "nothing is left to strip");
}

#[test]
fn peers_are_introduced_once_and_listed_in_order() {
    let mut peers = IntroducedPeers::new();
    assert!(peers.introduce(node_id(5)));
    assert!(peers.introduce(node_id(2)));
    assert!(!peers.introduce(node_id(5)));
    assert_eq!(
        peers.list(),
        vec![
            JacquardIntroducedPeer { node_id: node_id(2) },
            JacquardIntroducedPeer { node_id: node_id(5) },
        ]
    );
}

#[test]
fn a_host_runs_one_service() {
    let mut slot = HostSlot::empty();
    assert_eq!(slot.service(), Err(HostSlotError::NotStarted));
    assert_eq!(slot.check_free(), Ok(()));
    assert_eq!(slot.install(node_id(1)), Ok(()));
    let taken = HostSlotError::AlreadyStarted {
        local_node_id: node_id(1),
    };
    assert_eq!(slot.check_free(), Err(taken));
    assert_eq!(slot.install(node_id(2)), Err(taken));
    assert_eq!(slot.service(), Ok(node_id(1)));
}
