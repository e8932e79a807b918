//! The BLE runtime: identities are proven before links are reported, requests are answered, L2CAP
//! channels come and go, and multicast reaches subscribers only.

use jacquard_core::TransportIngressEvent as CoreIngressEvent;
use jacquard_host_support::{
    TransportIngressClass, TransportIngressReceiver, TransportIngressSender,
    transport_ingress_mailbox,
};
use jq_ble::config::BleConfig;
use jq_ble::delivery::{TransportDeliveryIntent, TransportDeliveryMode};
use jq_ble::endpoint::{DeviceId, LinkEndpoint, TransportKind};
use jq_ble::gatt::{
    JACQUARD_C2P_CHAR_UUID, JACQUARD_IDENTITY_SERVICE_UUID, JACQUARD_NODE_ID_CHAR_UUID,
    JACQUARD_P2C_CHAR_UUID, JACQUARD_PSM_CHAR_UUID, discovery_service_uuid, gatt_endpoint,
    gatt_notify_fanout_endpoint, hint_matches_node_id, l2cap_endpoint, parse_discovery_hint,
};
use jq_ble::identity::{BroadcastDomainId, MulticastGroupId, NodeId};
use jq_ble::l2cap::{L2capFrame, decode_l2cap_frame, encode_l2cap_frame};
use jq_ble::link::{LinkRuntimeState, TransportIngressEvent};
use jq_ble::notify::NotifyPlatform;
use jq_ble::runtime::{
    BleDevice, BleRestoredState, BleRuntimeTask, BringUpStep, CentralEvent, CentralStep,
    ConnectedStep, DisconnectCause, DispatchStep, L2capRuntimeEvent, L2capStep, PeripheralReply,
    PeripheralRequest, PeripheralStateEvent, PeripheralStateStep, RestoredStep, UnicastRetry,
};
use jq_ble::session::{BleChannelId, BleSession, PeerSessions};

fn runtime(local: u8) -> BleRuntimeTask {
    BleRuntimeTask::new(NodeId([local; 32]), BleConfig::default()).expect("build runtime")
}

fn advertiser(device: &str, node_id: &NodeId) -> BleDevice {
    BleDevice {
        id: DeviceId::named(device),
        services: vec![discovery_service_uuid(node_id)],
    }
}

fn link_kind(event: &TransportIngressEvent) -> (TransportKind, LinkRuntimeState) {
    match event {
        TransportIngressEvent::LinkObserved { link, .. } => {
            (link.endpoint.transport_kind.clone(), link.state.state)
        }
        other => panic!("unexpected ingress event: {other:?}"),
    }
}

fn payload_of(event: &TransportIngressEvent) -> (NodeId, LinkEndpoint, Vec<u8>) {
    match event {
        TransportIngressEvent::PayloadReceived {
            from_node_id,
            endpoint,
            payload,
        } => (*from_node_id, endpoint.clone(), payload.clone()),
        other => panic!("unexpected ingress event: {other:?}"),
    }
}

#[test]
fn unresolved_advertisement_hints_do_not_emit_link_observed() {
    let mut task = runtime(1);
    let step = task.handle_central_event(CentralEvent::DeviceDiscovered(advertiser(
        "peer",
        &NodeId([3; 32]),
    )));
    assert!(matches!(step, CentralStep::Connect(_)));
    assert!(!task.testing_identity_resolved_for_device(&DeviceId::named("peer")));
    assert_eq!(task.testing_session_count(), 0);
    let unread = task.handle_device_connected(&DeviceId::named("peer"), None);
    assert!(matches!(unread, ConnectedStep::RefreshCache));
    assert_eq!(task.testing_session_count(), 0);
}

#[test]
fn gatt_only_peers_resolve_identity_before_link_observed() {
    let remote_node_id = NodeId([5; 32]);
    let device = DeviceId::named("peer");
    let mut task = runtime(1);
    let _attempt = task.handle_device_discovered(advertiser("peer", &remote_node_id));
    match task.handle_device_connected(&device, Some(remote_node_id.0.to_vec())) {
        ConnectedStep::Install { node_id } => assert_eq!(node_id, remote_node_id),
        other => panic!("unexpected step: {other:?}"),
    }
    assert!(task.testing_identity_resolved_for_device(&device));
    let event = task.install_gatt_session(remote_node_id, &device);
    match &event {
        TransportIngressEvent::LinkObserved {
            remote_node_id: observed,
            ..
        } => assert_eq!(observed, &remote_node_id),
        other => panic!("unexpected ingress event: {other:?}"),
    }
    assert!(task.testing_has_egress_session_for_device(&device));
}

#[test]
fn hint_mismatch_fails_closed() {
    let hinted_node_id = NodeId([7; 32]);
    let resolved_node_id = NodeId([8; 32]);
    let device = DeviceId::named("peer");
    let mut task = runtime(1);
    let _attempt = task.handle_device_discovered(advertiser("peer", &hinted_node_id));
    let step = task.handle_device_connected(&device, Some(resolved_node_id.0.to_vec()));
    assert!(matches!(step, ConnectedStep::Disconnect));
    assert!(!task.testing_identity_resolved_for_device(&device));
    assert_eq!(task.testing_session_count(), 0);
}

#[test]
fn peripheral_side_node_id_reads_respond_with_local_identity() {
    let task = runtime(4);
    let reply = task.handle_peripheral_request(PeripheralRequest::Read {
        char_uuid: JACQUARD_NODE_ID_CHAR_UUID,
    });
    match reply {
        PeripheralReply::Value(value) => assert_eq!(value, vec![4; 32]),
        other => panic!("unexpected reply: {other:?}"),
    }
    let no_psm = task.handle_peripheral_request(PeripheralRequest::Read {
        char_uuid: JACQUARD_PSM_CHAR_UUID,
    });
    assert!(matches!(no_psm, PeripheralReply::Reject));
}

#[test]
fn unresolved_peripheral_writes_fail_closed() {
    let task = runtime(4);
    let reply = task.handle_peripheral_request(PeripheralRequest::Write {
        client_id: DeviceId::named("mock-central"),
        char_uuid: JACQUARD_C2P_CHAR_UUID,
        value: b"should-fail".to_vec(),
    });
    assert!(
        matches!(reply, PeripheralReply::Reject),
        "unresolved client writes must be rejected"
    );
}

#[test]
fn resolved_peripheral_writes_emit_payload_and_ack() {
    let remote_node_id = NodeId([9; 32]);
    let mut task = runtime(4);
    task.testing_seed_resolved_peer(DeviceId::named("mock-central"), remote_node_id);
    let reply = task.handle_peripheral_request(PeripheralRequest::Write {
        client_id: DeviceId::named("mock-central"),
        char_uuid: JACQUARD_C2P_CHAR_UUID,
        value: b"inbound".to_vec(),
    });
    match reply {
        PeripheralReply::Accept(event) => assert_eq!(
            payload_of(&event),
            (
                remote_node_id,
                gatt_endpoint(&DeviceId::named("mock-central")),
                b"inbound".to_vec()
            )
        ),
        other => panic!("unexpected reply: {other:?}"),
    }
}

#[test]
fn central_opened_l2cap_upgrade_emits_updates_and_carries_framed_payloads() {
    let remote_node_id = NodeId([6; 32]);
    let device = DeviceId::named("mock-peripheral");
    let mut task = runtime(1);
    let _attempt = task.handle_device_discovered(advertiser("mock-peripheral", &remote_node_id));
    let step = task.handle_device_connected(&device, Some(remote_node_id.0.to_vec()));
    assert!(matches!(step, ConnectedStep::Install { .. }));
    let gatt = task.install_gatt_session(remote_node_id, &device);
    let l2cap = task.install_l2cap_session(remote_node_id, &device);
    assert_eq!(
        vec![link_kind(&gatt).0, link_kind(&l2cap.event).0],
        vec![TransportKind::BleGatt, TransportKind::BleL2cap]
    );

    match task.egress_session_for_device(&device) {
        Some(BleSession::L2cap { channel_id, .. }) => assert_eq!(channel_id, l2cap.channel_id),
        other => panic!("unexpected session: {other:?}"),
    }
    let framed = encode_l2cap_frame(b"upgraded-outbound").expect("frame");
    assert!(matches!(
        decode_l2cap_frame(&framed),
        L2capFrame::Complete { payload, .. } if payload == b"upgraded-outbound"
    ));

    let inbound = task.handle_l2cap_runtime_event(L2capRuntimeEvent::FrameReceived {
        channel_id: l2cap.channel_id,
        payload: b"from-remote".to_vec(),
    });
    match inbound {
        L2capStep::Payload(event) => assert_eq!(
            payload_of(&event),
            (
                remote_node_id,
                l2cap_endpoint(&DeviceId::named("mock-peripheral")),
                b"from-remote".to_vec()
            )
        ),
        other => panic!("unexpected step: {other:?}"),
    }

    let closed = task.handle_l2cap_runtime_event(L2capRuntimeEvent::ChannelClosed {
        channel_id: l2cap.channel_id,
    });
    match closed {
        L2capStep::Control(events) => {
            assert_eq!(events.len(), 1);
            assert_eq!(link_kind(&events[0]).0, TransportKind::BleGatt);
        }
        other => panic!("unexpected step: {other:?}"),
    }
}

#[test]
fn accepted_l2cap_channels_register_and_downgrade_to_gatt_on_close() {
    let remote_node_id = NodeId([7; 32]);
    let device = DeviceId::named("mock-central");
    let mut task = runtime(4);
    task.testing_seed_resolved_peer(device.clone(), remote_node_id);
    task.testing_seed_sessions(
        remote_node_id,
        PeerSessions::gatt_only(BleSession::GattCentral {
            device_id: device.clone(),
        }),
    );
    assert!(
        task.handle_l2cap_accept(&device, Some(NodeId([8; 32]))).is_none(),
        "a channel of somebody else is not accepted"
    );
    let accepted = task
        .handle_l2cap_accept(&device, Some(remote_node_id))
        .expect("accept the channel");
    assert_eq!(link_kind(&accepted.event).0, TransportKind::BleL2cap);
    assert!(task.has_channel(accepted.channel_id));
    let inbound = task.handle_l2cap_runtime_event(L2capRuntimeEvent::FrameReceived {
        channel_id: accepted.channel_id,
        payload: b"accepted-frame".to_vec(),
    });
    match inbound {
        L2capStep::Payload(event) => assert_eq!(
            payload_of(&event),
            (remote_node_id, l2cap_endpoint(&device), b"accepted-frame".to_vec())
        ),
        other => panic!("unexpected step: {other:?}"),
    }
    let downgrade = task.handle_l2cap_channel_closed(accepted.channel_id);
    assert_eq!(downgrade.len(), 1);
    assert_eq!(link_kind(&downgrade[0]).0, TransportKind::BleGatt);
    assert!(!task.has_channel(accepted.channel_id));
    assert!(task.handle_l2cap_channel_closed(accepted.channel_id).is_empty());
}

/// A link event as the mailbox carries it.
fn core_link_event(event: &TransportIngressEvent) -> CoreIngressEvent {
    let TransportIngressEvent::LinkObserved { remote_node_id, link, .. } = event else {
        panic!("unexpected ingress event: {event:?}");
    };
    let transport_kind = match link.endpoint.transport_kind {
        TransportKind::BleGatt => jacquard_core::TransportKind::BleGatt,
        TransportKind::BleL2cap => jacquard_core::TransportKind::BleL2cap,
        _ => panic!("unexpected transport: {link:?}"),
    };
    CoreIngressEvent::LinkObserved {
        remote_node_id: jacquard_core::NodeId(remote_node_id.0),
        link: jacquard_core::LinkBuilder::new(jacquard_core::LinkEndpoint::new(
            transport_kind,
            jacquard_core::EndpointLocator::Opaque(Vec::new()),
            jacquard_core::ByteCount(link.endpoint.mtu_bytes.0),
        ))
        .build(),
        source_class: jacquard_core::FactSourceClass::Local,
        evidence_class: jacquard_core::RoutingEvidenceClass::DirectObservation,
        origin_authentication: jacquard_core::OriginAuthenticationClass::Unauthenticated,
    }
}

fn is_refused(sender: &TransportIngressSender, event: &TransportIngressEvent) -> bool {
    sender
        .emit(TransportIngressClass::Control, core_link_event(event))
        .is_err()
}

/// Hands a link event over, or keeps it for later.
fn emit_control(
    task: &mut BleRuntimeTask,
    sender: &TransportIngressSender,
    event: TransportIngressEvent,
) {
    if is_refused(sender, &event) {
        task.defer_control_event(event);
    }
}

/// Hands over what was kept, up to the first event that is still refused.
fn flush(task: &mut BleRuntimeTask, sender: &TransportIngressSender) -> usize {
    let mut accepted = 0;
    while let Some(event) = task.deferred_control_event(accepted) {
        if is_refused(sender, event) {
            break;
        }
        accepted += 1;
    }
    task.flush_deferred_control_events(accepted).len()
}

fn drained_kinds(receiver: &mut TransportIngressReceiver) -> Vec<jacquard_core::TransportKind> {
    receiver
        .drain()
        .events
        .into_iter()
        .map(|event| match event {
            CoreIngressEvent::LinkObserved { link, .. } => link.endpoint.transport_kind,
            other => panic!("unexpected ingress event: {other:?}"),
        })
        .collect()
}

#[test]
fn control_path_events_are_retried_after_ingress_overflow() {
    let mut task = runtime(1);
    let device = DeviceId::named("remote-peer");
    let (sender, mut receiver, _notifier) = transport_ingress_mailbox(1);
    let gatt = task.install_gatt_session(NodeId([6; 32]), &device);
    emit_control(&mut task, &sender, gatt);
    assert!(!task.has_deferred_control_events());
    let l2cap = task.install_l2cap_session(NodeId([6; 32]), &device);
    emit_control(&mut task, &sender, l2cap.event);
    assert!(task.has_deferred_control_events(), "the mailbox is full");
    assert_eq!(flush(&mut task, &sender), 0);
    assert!(task.has_deferred_control_events(), "the mailbox is still full");

    assert_eq!(drained_kinds(&mut receiver), vec![jacquard_core::TransportKind::BleGatt]);
    assert_eq!(flush(&mut task, &sender), 1);
    assert!(!task.has_deferred_control_events());
    assert_eq!(drained_kinds(&mut receiver), vec![jacquard_core::TransportKind::BleL2cap]);

    let inbound = task.handle_l2cap_runtime_event(L2capRuntimeEvent::FrameReceived {
        channel_id: l2cap.channel_id,
        payload: b"payload-before-close".to_vec(),
    });
    let payload = match inbound {
        L2capStep::Payload(event) => payload_of(&event).2,
        other => panic!("unexpected step: {other:?}"),
    };
    sender
        .emit(
            TransportIngressClass::Payload,
            CoreIngressEvent::PayloadReceived {
                from_node_id: jacquard_core::NodeId([6; 32]),
                endpoint: jacquard_core::LinkEndpoint::new(
                    jacquard_core::TransportKind::BleL2cap,
                    jacquard_core::EndpointLocator::Opaque(Vec::new()),
                    jacquard_core::ByteCount(1),
                ),
                payload,
            },
        )
        .expect("there is room for the payload");
    let closed = task.handle_l2cap_runtime_event(L2capRuntimeEvent::ChannelClosed {
        channel_id: l2cap.channel_id,
    });
    match closed {
        L2capStep::Control(events) => {
            for event in events {
                emit_control(&mut task, &sender, event);
            }
        }
        other => panic!("unexpected step: {other:?}"),
    }
    assert!(task.has_deferred_control_events(), "the payload fills the mailbox");
    let drained = receiver.drain();
    assert_eq!(drained.events.len(), 1);
    assert!(matches!(
        &drained.events[0],
        CoreIngressEvent::PayloadReceived { payload, .. } if payload == b"payload-before-close"
    ));
    assert_eq!(flush(&mut task, &sender), 1);
    assert_eq!(drained_kinds(&mut receiver), vec![jacquard_core::TransportKind::BleGatt]);
}

#[test]
fn kept_events_leave_in_order_and_the_rest_stays() {
    let mut task = runtime(1);
    let (sender, mut receiver, _notifier) = transport_ingress_mailbox(2);
    let device = DeviceId::named("remote-peer");
    let first = task.install_gatt_session(NodeId([6; 32]), &device);
    let second = task.install_l2cap_session(NodeId([6; 32]), &device).event;
    let third = task.install_gatt_session(NodeId([7; 32]), &device);
    task.defer_control_event(first);
    task.defer_control_event(second);
    task.defer_control_event(third);
    assert_eq!(flush(&mut task, &sender), 2);
    assert_eq!(
        drained_kinds(&mut receiver),
        vec![
            jacquard_core::TransportKind::BleGatt,
            jacquard_core::TransportKind::BleL2cap
        ]
    );
    match task.deferred_control_event(0) {
        Some(TransportIngressEvent::LinkObserved { remote_node_id, .. }) => {
            assert_eq!(remote_node_id, &NodeId([7; 32]));
        }
        other => panic!("unexpected event: {other:?}"),
    }
    assert!(task.deferred_control_event(1).is_none());
    assert_eq!(task.flush_deferred_control_events(5).len(), 1);
    assert!(!task.has_deferred_control_events());
}

#[test]
fn a_channel_that_nobody_registered_is_given_up_all_the_same() {
    let node_id = NodeId([2; 32]);
    let near = DeviceId::named("near");
    let far = DeviceId::named("far");
    let mut task = runtime(1);
    task.testing_seed_resolved_peer(near.clone(), node_id);
    let _ = task.install_gatt_session(node_id, &near);
    let l2cap = task.install_l2cap_session(node_id, &near);
    task.testing_seed_resolved_peer(far.clone(), node_id);
    let gone = task.handle_device_disconnected(&far, DisconnectCause::LinkLoss);
    assert!(!gone.refresh_cache);
    assert!(!task.has_channel(l2cap.channel_id), "the channels of the node are dropped");
    assert!(
        matches!(
            task.egress_session_for_device(&near),
            Some(BleSession::L2cap { channel_id, .. }) if channel_id == l2cap.channel_id
        ),
        "the session does not know yet"
    );
    let mut dispatch = task.begin_unicast(&gatt_endpoint(&near)).expect("a device is named");
    match task.unicast_send_failed(&mut dispatch, l2cap.channel_id) {
        UnicastRetry::Retry(events) => {
            assert_eq!(events.len(), 1);
            assert_eq!(
                link_kind(&events[0]),
                (TransportKind::BleGatt, LinkRuntimeState::Active)
            );
        }
        other => panic!("unexpected retry: {other:?}"),
    }
    assert!(matches!(
        task.egress_session_for_device(&near),
        Some(BleSession::GattCentral { device_id }) if device_id == near
    ));
}

#[test]
fn every_intent_is_dispatched_in_its_own_way() {
    let mut task = runtime(1);
    let device = DeviceId::named("subscriber");
    let node_id = NodeId([2; 32]);
    task.testing_seed_resolved_peer(device.clone(), node_id);
    let _ = task.handle_p2c_subscription(device.clone());
    let unicast = TransportDeliveryIntent::unicast(gatt_endpoint(&device));
    match task.dispatch_step(&unicast, NotifyPlatform::Targeted) {
        DispatchStep::Unicast(dispatch) => {
            assert_eq!(dispatch.device_id, device);
            assert!(dispatch.downgraded_l2cap.is_none());
        }
        other => panic!("unexpected step: {other:?}"),
    }
    let nowhere = TransportDeliveryIntent::unicast(gatt_notify_fanout_endpoint());
    assert!(matches!(
        task.dispatch_step(&nowhere, NotifyPlatform::Targeted),
        DispatchStep::Nothing
    ));
    let multicast = |receivers| TransportDeliveryIntent::Multicast {
        endpoint: gatt_notify_fanout_endpoint(),
        group_id: MulticastGroupId([4; 16]),
        receivers,
    };
    match task.dispatch_step(&multicast(vec![node_id]), NotifyPlatform::Targeted) {
        DispatchStep::Notify(devices) => assert_eq!(devices, vec![device.clone()]),
        other => panic!("unexpected step: {other:?}"),
    }
    assert!(matches!(
        task.dispatch_step(&multicast(vec![NodeId([9; 32])]), NotifyPlatform::Targeted),
        DispatchStep::Nothing
    ));
    let broadcast = TransportDeliveryIntent::Broadcast {
        endpoint: gatt_notify_fanout_endpoint(),
        domain_id: BroadcastDomainId([4; 16]),
    };
    assert_eq!(broadcast.mode(), TransportDeliveryMode::Broadcast);
    assert_eq!(broadcast.endpoint(), &gatt_notify_fanout_endpoint());
    assert!(matches!(
        task.dispatch_step(&broadcast, NotifyPlatform::Broadcast),
        DispatchStep::Nothing
    ));
}

#[test]
fn a_node_advertises_a_hint_of_itself_and_its_service() {
    let task = runtime(4);
    let uuids = task.advertised_service_uuids();
    assert_eq!(
        uuids,
        vec![
            discovery_service_uuid(&NodeId([4; 32])),
            JACQUARD_IDENTITY_SERVICE_UUID
        ]
    );
    let hint = parse_discovery_hint(&uuids).expect("one of them is a hint");
    assert!(hint_matches_node_id(hint, &NodeId([4; 32])));
    assert!(!hint_matches_node_id(hint, &NodeId([5; 32])));
    assert!(parse_discovery_hint(&uuids[1..]).is_none());
}

#[test]
fn disconnect_clears_gatt_session_state_per_device_id_policy() {
    let mut task = runtime(1);
    let device_id = DeviceId::named("mock-peripheral");
    let node_id = NodeId([2; 32]);
    task.testing_seed_resolved_peer(device_id.clone(), node_id);
    task.testing_seed_sessions(
        node_id,
        PeerSessions::gatt_only(BleSession::GattCentral {
            device_id: device_id.clone(),
        }),
    );

    let step = task.handle_central_event(CentralEvent::DeviceDisconnected {
        device_id: device_id.clone(),
        cause: DisconnectCause::LinkLoss,
    });
    match step {
        CentralStep::Disconnected { outcome, .. } => {
            assert_eq!(outcome.events.len(), 1);
            assert_eq!(
                link_kind(&outcome.events[0]),
                (TransportKind::BleGatt, LinkRuntimeState::Faulted)
            );
        }
        _ => panic!("unexpected step"),
    }

    assert!(!task.testing_identity_resolved_for_device(&device_id));
    assert_eq!(task.testing_session_count(), 0);
    assert!(!task.testing_has_egress_session_for_device(&device_id));
}

#[test]
fn a_broken_channel_is_replaced_once() {
    let mut task = runtime(1);
    let device = DeviceId::named("peer");
    let node_id = NodeId([2; 32]);
    let _ = task.install_gatt_session(node_id, &device);
    let l2cap = task.install_l2cap_session(node_id, &device);
    let mut dispatch = task
        .begin_unicast(&l2cap_endpoint(&device))
        .expect("the endpoint names a device");
    match task.unicast_send_failed(&mut dispatch, l2cap.channel_id) {
        UnicastRetry::Retry(events) => {
            assert_eq!(events.len(), 1);
            assert_eq!(link_kind(&events[0]).0, TransportKind::BleGatt);
        }
        other => panic!("unexpected retry: {other:?}"),
    }
    assert!(matches!(
        task.egress_session_for_device(&device),
        Some(BleSession::GattCentral { .. })
    ));
    assert!(matches!(
        task.unicast_send_failed(&mut dispatch, l2cap.channel_id),
        UnicastRetry::GiveUp
    ));
    assert!(task.begin_unicast(&gatt_notify_fanout_endpoint()).is_none());
}

#[test]
fn notifications_reach_subscribers_only() {
    let mut task = runtime(1);
    let device = DeviceId::named("subscriber");
    let node_id = NodeId([2; 32]);
    let subscribe = || PeripheralStateEvent::SubscriptionChanged {
        client_id: DeviceId::named("subscriber"),
        char_uuid: JACQUARD_P2C_CHAR_UUID,
        subscribed: true,
    };
    assert!(matches!(
        task.handle_peripheral_state_event(subscribe()),
        PeripheralStateStep::Nothing
    ));
    task.testing_seed_resolved_peer(device.clone(), node_id);
    match task.handle_peripheral_state_event(subscribe()) {
        PeripheralStateStep::Control(TransportIngressEvent::LinkObserved { link, .. }) => {
            assert_eq!(link.endpoint, gatt_notify_fanout_endpoint());
        }
        other => panic!("unexpected step: {other:?}"),
    }
    assert!(!task.testing_has_egress_session_for_device(&device));
    let fanout = gatt_notify_fanout_endpoint();
    assert_eq!(
        task.multicast_targets(&fanout, &vec![node_id], NotifyPlatform::Targeted),
        Some(vec![device.clone()])
    );
    assert_eq!(
        task.multicast_targets(&fanout, &vec![node_id], NotifyPlatform::Broadcast),
        Some(vec![device.clone()])
    );
    assert_eq!(
        task.multicast_targets(
            &fanout,
            &vec![node_id, NodeId([3; 32])],
            NotifyPlatform::Targeted
        ),
        None
    );
    assert_eq!(
        task.multicast_targets(&gatt_endpoint(&device), &vec![node_id], NotifyPlatform::Targeted),
        None
    );
    let other_device = DeviceId::named("another subscriber");
    task.testing_seed_resolved_peer(other_device.clone(), NodeId([3; 32]));
    let _ = task.handle_p2c_subscription(other_device.clone());
    assert_eq!(
        task.multicast_targets(&fanout, &vec![node_id], NotifyPlatform::Broadcast),
        None,
        "a broadcast would reach a node that is not meant"
    );
    let gone = task.handle_p2c_unsubscription(&other_device);
    match gone {
        Some(event) => assert_eq!(link_kind(&event).1, LinkRuntimeState::Faulted),
        None => panic!("the end of a subscription is reported"),
    }
}

#[test]
fn restored_devices_are_taken_up_once() {
    let node_id = NodeId([6; 32]);
    let mut task = BleRuntimeTask::new_with_restored_state(
        NodeId([1; 32]),
        BleConfig::default(),
        BleRestoredState {
            central_devices: vec![
                advertiser("advertising", &node_id),
                BleDevice {
                    id: DeviceId::named("silent"),
                    services: vec![],
                },
            ],
            peripheral_service_uuids: vec![],
        },
    )
    .expect("build runtime");
    let advertising = match task.bring_up_step() {
        BringUpStep::TakeUp(device) => device,
        other => panic!("unexpected step: {other:?}"),
    };
    assert_eq!(advertising.id, DeviceId::named("advertising"));
    match task.handle_restored_device(advertising) {
        RestoredStep::Connect(attempt) => {
            assert_eq!(attempt.device_id, DeviceId::named("advertising"));
        }
        _ => panic!("the device still advertises"),
    }
    let silent = match task.bring_up_step() {
        BringUpStep::TakeUp(device) => device,
        other => panic!("unexpected step: {other:?}"),
    };
    match task.handle_restored_device(silent) {
        RestoredStep::Identify(attempt) => {
            assert_eq!(attempt.device_id, DeviceId::named("silent"));
        }
        _ => panic!("the advertisement is lost"),
    }
    assert!(matches!(task.bring_up_step(), BringUpStep::Startup));
    assert!(matches!(task.bring_up_step(), BringUpStep::Startup));
    match task.handle_restored_identity(&DeviceId::named("silent"), Some(node_id.0.to_vec())) {
        ConnectedStep::Install { node_id: found } => assert_eq!(found, node_id),
        other => panic!("unexpected step: {other:?}"),
    }
}

#[test]
fn a_device_is_connected_by_one_attempt_at_a_time() {
    let node_id = NodeId([6; 32]);
    let mut task = runtime(1);
    let first = task
        .handle_device_discovered(advertiser("peer", &node_id))
        .expect("nobody else connects");
    assert_eq!(first.device_id, DeviceId::named("peer"));
    assert_eq!(first.claim.key(), "peer");
    assert!(task.handle_device_discovered(advertiser("peer", &node_id)).is_none());
    assert!(
        matches!(
            task.handle_restored_device(advertiser("peer", &node_id)),
            RestoredStep::Skip
        ),
        "a restored device is claimed under the same key"
    );
    let elsewhere = task
        .handle_device_discovered(advertiser("elsewhere", &node_id))
        .expect("another device is not claimed");
    assert_eq!(elsewhere.claim.key(), "elsewhere");
    drop(first);
    assert!(task.handle_device_discovered(advertiser("peer", &node_id)).is_some());
}

#[test]
fn channels_get_numbers_of_their_own() {
    let mut task = runtime(1);
    let device = DeviceId::named("peer");
    let first = task.install_l2cap_session(NodeId([2; 32]), &device);
    let second = task.install_l2cap_session(NodeId([3; 32]), &device);
    assert_eq!(first.channel_id, BleChannelId(1));
    assert_eq!(second.channel_id, BleChannelId(2));
}

#[test]
fn nothing_is_started_on_an_adapter_without_power() {
    let mut task = runtime(1);
    assert!(task.startup().wants_listener());
    assert!(task.startup().wants_scan());
    task.peripheral_unpowered();
    assert!(!task.startup().wants_listener());
    assert!(!task.wants_service());
    assert!(!task.startup().wants_advertising());
    assert!(task.startup().wants_scan());
    task.central_unpowered();
    assert!(!task.startup().wants_scan());
    assert!(!task.startup().retry_due());
}
