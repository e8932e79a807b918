//! Discovery hints, GATT services, endpoints, L2CAP frames, sessions and delivery support.

use jq_ble::cast::{
    BLE_GATT_CONFIDENCE, BLE_L2CAP_CONFIDENCE, CastDeliveryPolicy, CastEvidenceMeta,
    CastEvidencePolicy, UnicastDeliverySupport, cast_evidence_meta,
    link_observation_from_ble_event, raw_ble_link_faulted_event, raw_ble_link_observed_event,
    shape_ble_unicast_delivery_support,
};
use jq_ble::config::{BleConfig, BleLinkError};
use jq_ble::endpoint::{ByteCount, DeviceId, EndpointLocator, LinkEndpoint, TransportKind};
use jq_ble::gatt::{
    JACQUARD_C2P_CHAR_UUID, JACQUARD_IDENTITY_SERVICE_UUID, JACQUARD_NODE_ID_CHAR_UUID,
    JACQUARD_P2C_CHAR_UUID, JACQUARD_PSM_CHAR_UUID, Psm, device_id_from_endpoint,
    discovery_service_uuid, encode_psm_value, gatt_endpoint, gatt_fallback_service,
    gatt_l2cap_service, gatt_notify_fanout_endpoint, hint_matches_node_id, identity_gatt_service,
    l2cap_endpoint, node_id_prefix, parse_discovery_hint, parse_psm_value,
};
use jq_ble::identity::{NodeId, OrderStamp, Tick};
use jq_ble::l2cap::{L2capFrame, decode_l2cap_frame, encode_l2cap_frame, parse_node_id};
use jq_ble::link::{
    Belief, DurationMs, LinkRuntimeState, RatioPermille, TransportIngressEvent,
    TransportObservation,
};
use jq_ble::session::{BleChannelId, BleNotifySubscriber, BleSession, PeerSessions};
use jq_ble::startup::{
    AdapterPowerState, BleStartupState, ListenerOutcome, StartOutcome, StartupStep,
};

fn endpoint(kind: TransportKind, mtu: u64) -> LinkEndpoint {
    LinkEndpoint::new(
        kind,
        EndpointLocator::ScopedBytes {
            scope: "ble".to_owned(),
            bytes: vec![2],
        },
        ByteCount(mtu),
    )
}

fn support_for(
    endpoint: &LinkEndpoint,
    meta: CastEvidenceMeta,
    policy: CastDeliveryPolicy,
) -> Option<UnicastDeliverySupport> {
    shape_ble_unicast_delivery_support(NodeId([1; 32]), NodeId([2; 32]), endpoint, meta, policy)
}

#[test]
fn ble_sessions_map_to_unicast_support() {
    for (kind, mtu, confidence, bidirectional) in [
        (
            TransportKind::BleGatt,
            512,
            RatioPermille(BLE_GATT_CONFIDENCE),
            RatioPermille(0),
        ),
        (
            TransportKind::BleL2cap,
            1472,
            RatioPermille(BLE_L2CAP_CONFIDENCE),
            RatioPermille(BLE_L2CAP_CONFIDENCE),
        ),
    ] {
        let endpoint = endpoint(kind, mtu);
        let support = support_for(
            &endpoint,
            cast_evidence_meta(Tick(7), OrderStamp(1)),
            CastDeliveryPolicy::default(),
        )
        .expect("support");

        assert_eq!(support.sender, NodeId([1; 32]));
        assert_eq!(support.receiver, NodeId([2; 32]));
        assert_eq!(support.payload_bytes_max, ByteCount(mtu));
        assert_eq!(support.confidence_permille, confidence);
        assert_eq!(support.bidirectional_confidence_permille, bidirectional);
    }
}

#[test]
fn stale_low_confidence_and_insufficient_mtu_evidence_are_omitted() {
    let endpoint = endpoint(TransportKind::BleGatt, 32);
    let strict = CastDeliveryPolicy {
        evidence: CastEvidencePolicy {
            evidence_age_ms_max: DurationMs(1),
            confidence_floor: RatioPermille(900),
            payload_bytes_required: ByteCount(512),
            ..CastDeliveryPolicy::default().evidence
        },
        ..CastDeliveryPolicy::default()
    };

    let stale_meta = CastEvidenceMeta {
        observed_at_tick: Tick(7),
        evidence_age_ms: DurationMs(2),
        valid_for_ms: DurationMs(30_000),
        order: OrderStamp(3),
    };
    assert!(support_for(&endpoint, stale_meta, strict).is_none());

    let fresh_meta = cast_evidence_meta(Tick(7), OrderStamp(4));
    assert!(support_for(&endpoint, fresh_meta, strict).is_none());
}

#[test]
fn a_path_that_must_work_both_ways_needs_a_confirmation() {
    let both_ways = CastDeliveryPolicy {
        require_bidirectional: true,
        ..CastDeliveryPolicy::default()
    };
    let meta = cast_evidence_meta(Tick(7), OrderStamp(1));
    assert!(support_for(&endpoint(TransportKind::BleGatt, 512), meta, both_ways).is_none());
    let support = support_for(&endpoint(TransportKind::BleL2cap, 1472), meta, both_ways)
        .expect("L2CAP is confirmed both ways");
    assert_eq!(support.confidence_permille, RatioPermille(900));
}

#[test]
fn a_link_event_becomes_a_link_with_the_confidence_of_its_transport() {
    let device = DeviceId::named("device");
    let event = raw_ble_link_observed_event(NodeId([2; 32]), gatt_endpoint(&device));
    let observation =
        link_observation_from_ble_event(NodeId([1; 32]), event, Tick(5), OrderStamp(0));
    match observation {
        TransportObservation::LinkObserved {
            remote_node_id,
            observation,
        } => {
            assert_eq!(remote_node_id, NodeId([2; 32]));
            assert_eq!(observation.observed_at_tick, Tick(5));
            assert_eq!(observation.value.state.state, LinkRuntimeState::Active);
            assert_eq!(
                observation.value.state.delivery_confidence_permille,
                Belief::certain(RatioPermille(700), Tick(5))
            );
        }
        other => panic!("unexpected observation: {other:?}"),
    }
    match raw_ble_link_faulted_event(NodeId([2; 32]), gatt_endpoint(&device)) {
        TransportIngressEvent::LinkObserved { link, .. } => {
            assert_eq!(link.state.state, LinkRuntimeState::Faulted);
        }
        other => panic!("unexpected event: {other:?}"),
    }
}

#[test]
fn discovery_uuid_round_trips_hint_prefix() {
    let node_id = NodeId([7; 32]);
    let services = vec![discovery_service_uuid(&node_id)];

    let parsed = parse_discovery_hint(&services);

    assert_eq!(parsed, Some(node_id_prefix(&node_id)));
}

#[test]
fn identity_service_contains_raw_node_id() {
    let node_id = NodeId([9; 32]);
    let service = identity_gatt_service(&node_id);

    assert_eq!(service.uuid, JACQUARD_IDENTITY_SERVICE_UUID);
    assert_eq!(service.characteristics.len(), 1);
    assert_eq!(service.characteristics[0].uuid, JACQUARD_NODE_ID_CHAR_UUID);
    assert_eq!(service.characteristics[0].value, node_id.0.to_vec());
}

#[test]
fn gatt_fallback_service_exposes_identity_and_transport_characteristics() {
    let node_id = NodeId([4; 32]);
    let service = gatt_fallback_service(&node_id);

    assert_eq!(service.uuid, JACQUARD_IDENTITY_SERVICE_UUID);
    assert_eq!(service.characteristics.len(), 3);
    assert_eq!(service.characteristics[0].uuid, JACQUARD_NODE_ID_CHAR_UUID);
    assert_eq!(service.characteristics[0].value, node_id.0.to_vec());
    assert_eq!(service.characteristics[1].uuid, JACQUARD_C2P_CHAR_UUID);
    assert_eq!(service.characteristics[2].uuid, JACQUARD_P2C_CHAR_UUID);
}

#[test]
fn l2cap_service_exposes_psm_characteristic() {
    let node_id = NodeId([4; 32]);
    let service = gatt_l2cap_service(&node_id, Psm(0x1001));

    assert_eq!(service.characteristics.len(), 4);
    assert_eq!(service.characteristics[3].uuid, JACQUARD_PSM_CHAR_UUID);
    assert_eq!(service.characteristics[3].value, 0x1001_u16.to_le_bytes());
}

#[test]
fn parse_psm_value_reads_little_endian_psm() {
    assert_eq!(parse_psm_value(&[0x01, 0x10]), Some(Psm(0x1001)));
    assert_eq!(parse_psm_value(&[0x00, 0x00]), None);
    assert_eq!(parse_psm_value(&[0x01]), None);
}

#[test]
fn psm_values_round_trip() {
    assert_eq!(encode_psm_value(Psm(0x00c1)), vec![0xc1, 0x00]);
    assert_eq!(parse_psm_value(&encode_psm_value(Psm(0x00c1))), Some(Psm(0x00c1)));
}

#[test]
fn hints_carry_the_first_six_bytes_of_an_identity() {
    let mut bytes = [0_u8; 32];
    for (i, byte) in bytes.iter_mut().enumerate() {
        *byte = i as u8 + 1;
    }
    let node_id = NodeId(bytes);
    assert_eq!(node_id_prefix(&node_id), [1, 2, 3, 4, 5, 6]);
    assert_eq!(
        discovery_service_uuid(&node_id),
        0x6a617200_0102_0304_0506_000000000000
    );
    assert!(hint_matches_node_id([1, 2, 3, 4, 5, 6], &node_id));
    assert!(!hint_matches_node_id([1, 2, 3, 4, 5, 7], &node_id));
    assert_eq!(parse_discovery_hint(&[JACQUARD_IDENTITY_SERVICE_UUID]), None);
    assert_eq!(parse_discovery_hint(&[]), None);
    assert_eq!(
        parse_discovery_hint(&[JACQUARD_IDENTITY_SERVICE_UUID, discovery_service_uuid(&node_id)]),
        Some([1, 2, 3, 4, 5, 6])
    );
}

#[test]
fn endpoints_name_the_device_that_they_reach() {
    let device = DeviceId::named("11:22:33:44:55:66");
    assert_eq!(device_id_from_endpoint(&gatt_endpoint(&device)), Some(device.clone()));
    assert_eq!(device_id_from_endpoint(&l2cap_endpoint(&device)), Some(device));
    assert_eq!(device_id_from_endpoint(&gatt_notify_fanout_endpoint()), None);
    assert_eq!(
        device_id_from_endpoint(&LinkEndpoint::new(
            TransportKind::BleGatt,
            EndpointLocator::ScopedBytes {
                scope: "ble".to_owned(),
                bytes: vec![0xff, 0xfe],
            },
            ByteCount(512),
        )),
        None
    );
}

#[test]
fn l2cap_frames_round_trip_and_wait_for_the_rest() {
    let frame = encode_l2cap_frame(b"payload").expect("short enough");
    assert_eq!(frame, b"\x07\x00payload".to_vec());
    match decode_l2cap_frame(&frame) {
        L2capFrame::Complete { payload, consumed } => {
            assert_eq!(payload, b"payload".to_vec());
            assert_eq!(consumed, 9);
        }
        other => panic!("unexpected frame: {other:?}"),
    }
    assert!(matches!(decode_l2cap_frame(&frame[..8]), L2capFrame::Incomplete));
    assert!(matches!(decode_l2cap_frame(&[1]), L2capFrame::Incomplete));
    assert!(matches!(decode_l2cap_frame(&[0xff, 0xff]), L2capFrame::Oversized));
    assert!(encode_l2cap_frame(&[0; 1472]).is_some());
    assert!(encode_l2cap_frame(&[0; 1473]).is_none());
}

#[test]
fn identities_on_the_wire_have_32_bytes() {
    assert_eq!(parse_node_id(&[5; 32]), Ok(NodeId([5; 32])));
    assert_eq!(parse_node_id(&[5; 31]), Err(31));
}

#[test]
fn l2cap_is_preferred_and_falls_back_to_gatt() {
    let device = DeviceId::named("device");
    let mut sessions = PeerSessions::gatt_only(BleSession::GattCentral {
        device_id: device.clone(),
    });
    sessions.promote_l2cap(BleSession::L2cap {
        device_id: device.clone(),
        channel_id: BleChannelId(4),
    });
    assert_eq!(
        sessions.preferred_egress().map(|session| session.endpoint()),
        Some(l2cap_endpoint(&device))
    );
    let egress = sessions.downgrade_l2cap(BleChannelId(9));
    assert_eq!(
        egress.map(|session| session.endpoint()),
        Some(l2cap_endpoint(&device)),
        "another channel changes nothing"
    );
    let egress = sessions.downgrade_l2cap(BleChannelId(4));
    assert_eq!(
        egress.map(|session| session.endpoint()),
        Some(gatt_endpoint(&device))
    );
}

#[test]
fn a_subscription_is_no_way_out() {
    let device = DeviceId::named("device");
    let mut sessions = PeerSessions::gatt_notify_fanout(BleNotifySubscriber {
        device_id: device.clone(),
    });
    assert!(sessions.preferred_egress().is_none());
    assert!(sessions.egress_for_device(&device).is_none());
    assert!(sessions.references_device(&device));
    assert_eq!(sessions.notify_subscriber_device_id(), Some(&device));
    assert!(sessions.remove_gatt_subscription(&device));
    assert!(!sessions.remove_gatt_subscription(&device));
    assert_eq!(sessions.notify_subscriber_device_id(), None);
}

#[test]
fn startup_steps_follow_each_other_and_start_over_with_the_power() {
    let mut startup = BleStartupState::default();
    assert!(startup.wants_listener());
    assert!(!startup.wants_service(false), "the service waits for the listener");
    startup.listener_attempted(ListenerOutcome::Opened);
    assert!(startup.wants_service(false));
    assert!(!startup.wants_advertising(), "advertising waits for the service");
    startup.service_attempted(StartOutcome::Started);
    assert!(startup.wants_advertising());
    startup.advertising_attempted(StartOutcome::AlreadyAdvertising);
    assert_eq!(startup.advertising, StartupStep::Started);
    assert!(startup.wants_scan());
    startup.scan_attempted(StartOutcome::Failed);
    assert!(startup.retry_due());
    startup.peripheral_power_changed(AdapterPowerState::PoweredOff);
    assert!(!startup.wants_advertising());
    startup.peripheral_power_changed(AdapterPowerState::PoweredOn);
    assert!(startup.wants_listener());
    startup.listener_attempted(ListenerOutcome::NotSupported);
    startup.peripheral_power_changed(AdapterPowerState::PoweredOn);
    assert!(!startup.wants_listener(), "what the platform lacks is not tried again");
    assert_eq!(AdapterPowerState::from(true), AdapterPowerState::PoweredOn);
}

#[test]
fn a_ble_configuration_has_queues() {
    let config = BleConfig::default();
    assert_eq!(config.ingress_capacity, 1024);
    assert_eq!(config.command_capacity, 64);
    assert_eq!(config.validate(), Ok(()));
    let no_ingress = BleConfig {
        ingress_capacity: 0,
        ..BleConfig::default()
    };
    assert_eq!(no_ingress.validate(), Err(BleLinkError::ZeroIngressCapacity));
    let no_commands = BleConfig {
        command_capacity: 0,
        ..BleConfig::default()
    };
    assert_eq!(no_commands.validate(), Err(BleLinkError::ZeroCommandCapacity));
    assert_eq!(
        BleLinkError::ZeroIngressCapacity.message(),
        "ble ingress capacity must be non-zero"
    );
}
