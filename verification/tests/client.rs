//! Sending, multicast, what the application sees, and the topology that a client shows.

use jacquard_core as router;
use jacquard_core::{
    BackendRouteId, EndpointLocator as CoreLocator, Node, TransportKind as CoreKind,
};
use jacquard_mem_node_profile::{NodeIdentity, NodePreset, NodePresetOptions};
use jacquard_mercator::{MERCATOR_CAPABILITIES, MERCATOR_ENGINE_ID};
use jq_ble::client::{
    JacquardBleSendStage, address_to_neighbor, duration_for_tick_hint, incoming_payloads,
    multicast_receipt, plan_multicast, queue_payload_on_route, wants_follow_up,
};
use jq_ble::bridge::{
    BleBridgeProgress, BleBridgeRoundReport, BleBridgeWaitState, RouterRoundOutcome,
    RoutingTickChange, RoutingTickHint,
};
use jq_ble::cast::{raw_ble_link_faulted_event, raw_ble_link_observed_event};
use jq_ble::delivery::{TransportDeliveryIntent, TransportDeliveryMode};
use jq_ble::endpoint::{ByteCount, EndpointLocator, LinkEndpoint, TransportKind};
use jq_ble::errors::{
    BleClientError, RouteAdmissionRejection, RouteError, RouteRuntimeError, RouteSelectionError,
    TransportError,
};
use jq_ble::framing::{decode_client_payload_for_testing, encode_client_payload_for_testing};
use jq_ble::gatt::gatt_notify_fanout_endpoint;
use jq_ble::host::{ObservedLink, ObservedTopology};
use jq_ble::identity::{
    EdgeKey, MulticastGroupId, NodeId, RouteId, RoutingEngineId, Tick,
};
use jq_ble::link::{
    Belief, DurationMs, Estimate, FactSourceClass, Link, LinkProfile, LinkRuntimeState, LinkState,
    Observation, OriginAuthenticationClass, PartitionRecoveryClass, RatioPermille,
    RepairCapability, RoutingEvidenceClass, TransportObservation,
};
use jq_ble::multicast::{
    MulticastAdmission, admit_notify_multicast, gatt_notify_multicast_support,
    is_multicast_fanout_observation,
};
use jq_ble::ordered_map::OrderedMap;
use jq_ble::projector::{ReportEffect, TopologyProjector, mesh_snapshot_from};
use jq_ble::routing::{
    Configuration, RouteProtectionClass, default_objective, default_profile, initial_topology,
    policy_inputs_for, service_endpoint,
};
use jq_ble::send::{ActivatedRoute, RouteCache, SendAction, SendState, SendTask};
use jq_ble::topology::{
    ActiveRouteDelivery, MeshTopology, RouteShapeVisibility,
};
use jq_ble::world::{core_link, plain_link};

fn node_id(byte: u8) -> NodeId {
    NodeId([byte; 32])
}

fn ble_endpoint(byte: u8, transport_kind: TransportKind) -> LinkEndpoint {
    LinkEndpoint::new(
        transport_kind,
        EndpointLocator::ScopedBytes {
            scope: "ble".to_owned(),
            bytes: vec![byte],
        },
        ByteCount(512),
    )
}

fn link(endpoint: LinkEndpoint, runtime_state: LinkRuntimeState) -> Link {
    Link {
        endpoint,
        profile: LinkProfile {
            latency_floor_ms: DurationMs(25),
            repair_capability: RepairCapability::TransportRetransmit,
            partition_recovery: PartitionRecoveryClass::LocalReconnect,
        },
        state: LinkState {
            state: runtime_state,
            median_rtt_ms: Belief::Absent,
            transfer_rate_bytes_per_sec: Belief::Absent,
            stability_horizon_ms: Belief::Absent,
            loss_permille: RatioPermille(0),
            delivery_confidence_permille: Belief::Absent,
            symmetry_permille: Belief::Absent,
        },
    }
}

fn link_observed(
    remote_node_id: NodeId,
    endpoint: LinkEndpoint,
    runtime_state: LinkRuntimeState,
    observed_at_tick: Tick,
) -> TransportObservation {
    TransportObservation::LinkObserved {
        remote_node_id,
        observation: Observation {
            value: link(endpoint, runtime_state),
            source_class: FactSourceClass::Local,
            evidence_class: RoutingEvidenceClass::DirectObservation,
            origin_authentication: OriginAuthenticationClass::Unauthenticated,
            observed_at_tick,
        },
    }
}

fn payload_received(from_node_id: NodeId, payload: Vec<u8>) -> TransportObservation {
    TransportObservation::PayloadReceived {
        from_node_id,
        endpoint: ble_endpoint(2, TransportKind::BleGatt),
        payload,
        observed_at_tick: Tick(2),
    }
}

fn projector_of(topology: Observation<Configuration>) -> TopologyProjector {
    let mut projector = TopologyProjector::new(node_id(1), topology);
    assert!(
        !projector.ingest_engine_capabilities(MERCATOR_CAPABILITIES),
        "there is no route that could look different"
    );
    projector
}

/// The topology that is shown once a projector was told of an observation, if it changed.
fn tell(
    projector: &mut TopologyProjector,
    observation: &TransportObservation,
) -> Option<MeshTopology> {
    projector
        .ingest_transport_observation(observation)
        .then_some(projector.snapshot())
}

fn connectivity() -> router::ConnectivityPosture {
    router::ConnectivityPosture {
        repair: router::RouteRepairClass::Repairable,
        partition: router::RoutePartitionClass::PartitionTolerant,
    }
}

fn assumptions() -> router::AdmissionAssumptions {
    router::AdmissionAssumptions {
        message_flow_assumption: router::MessageFlowAssumptionClass::BestEffort,
        failure_model: router::FailureModelClass::Benign,
        runtime_envelope: router::RuntimeEnvelopeClass::Canonical,
        node_density_class: router::NodeDensityClass::Moderate,
        connectivity_regime: router::ConnectivityRegime::Stable,
        adversary_regime: router::AdversaryRegime::Cooperative,
        claim_strength: router::ClaimStrength::ConservativeUnderProfile,
    }
}

fn admission(
    destination: router::DestinationId,
    hop_count_hint: router::Belief<u8>,
    witness: &router::RouteWitness,
) -> router::RouteAdmission {
    let protection = router::RouteProtectionClass::LinkProtected;
    router::RouteAdmission {
        backend_ref: router::BackendRouteRef {
            engine: MERCATOR_ENGINE_ID,
            backend_route_id: BackendRouteId(vec![1, 2, 3]),
        },
        objective: router::RoutingObjective {
            destination,
            service_kind: router::RouteServiceKind::Move,
            target_protection: protection,
            protection_floor: protection,
            target_connectivity: connectivity(),
            hold_fallback_policy: router::HoldFallbackPolicy::Allowed,
            latency_budget_ms: router::Limit::Bounded(router::DurationMs(250)),
            protection_priority: router::PriorityPoints(10),
            connectivity_priority: router::PriorityPoints(20),
        },
        profile: router::SelectedRoutingParameters {
            selected_protection: protection,
            selected_connectivity: connectivity(),
            deployment_profile: router::OperatingMode::DenseInteractive,
            diversity_floor: router::DiversityFloor(1),
            routing_engine_fallback_policy: router::RoutingEngineFallbackPolicy::Allowed,
            route_replacement_policy: router::RouteReplacementPolicy::Allowed,
        },
        admission_check: router::RouteAdmissionCheck {
            decision: router::AdmissionDecision::Admissible,
            profile: assumptions(),
            productive_step_bound: router::Limit::Bounded(3),
            total_step_bound: router::Limit::Bounded(6),
            route_cost: router::RouteCost {
                message_count_max: router::Limit::Bounded(8),
                byte_count_max: router::Limit::Bounded(router::ByteCount(512)),
                hop_count: 2,
                repair_attempt_count_max: router::Limit::Bounded(2),
                hold_bytes_reserved: router::Limit::Bounded(router::ByteCount(128)),
                work_step_count_max: router::Limit::Bounded(12),
            },
        },
        summary: router::RouteSummary {
            engine: MERCATOR_ENGINE_ID,
            protection,
            connectivity: connectivity(),
            protocol_mix: vec![CoreKind::BleL2cap, CoreKind::Custom("mule".to_owned())],
            hop_count_hint,
            valid_for: router::TimeWindow::new(router::Tick(4), router::Tick(20)).expect("window"),
        },
        witness: witness.clone(),
    }
}

/// A route of the local node, as the router takes it into use at tick 4 and validates it at tick 6.
fn materialized(
    byte: u8,
    destination: router::DestinationId,
    hop_count_hint: router::Belief<u8>,
) -> router::MaterializedRoute {
    let stamp = || router::RouteIdentityStamp {
        route_id: router::RouteId([byte; 16]),
        topology_epoch: router::RouteEpoch(2),
        materialized_at_tick: router::Tick(4),
        publication_id: router::PublicationId([byte; 16]),
    };
    let protection = router::RouteProtectionClass::LinkProtected;
    let witness = router::RouteWitness {
        protection: router::ObjectiveVsDelivered {
            objective: protection,
            delivered: protection,
        },
        connectivity: router::ObjectiveVsDelivered {
            objective: connectivity(),
            delivered: connectivity(),
        },
        admission_profile: assumptions(),
        topology_epoch: router::RouteEpoch(2),
        degradation: router::RouteDegradation::None,
    };
    router::MaterializedRoute::from_installation(
        router::RouteMaterializationInput {
            handle: router::RouteHandle { stamp: stamp() },
            admission: admission(destination, hop_count_hint, &witness),
            lease: lease_of(1),
        },
        router::RouteInstallation {
            materialization_proof: router::RouteMaterializationProof {
                stamp: stamp(),
                witness: router::Fact {
                    value: witness,
                    basis: router::FactBasis::Published,
                    established_at_tick: router::Tick(4),
                },
            },
            last_lifecycle_event: router::RouteLifecycleEvent::Activated,
            health: router::RouteHealth {
                reachability_state: router::ReachabilityState::Reachable,
                stability_score: router::HealthScore(900),
                congestion_penalty_points: router::PenaltyPoints(4),
                last_validated_at_tick: router::Tick(6),
            },
            progress: router::RouteProgressContract {
                productive_step_count_max: router::Limit::Bounded(4),
                total_step_count_max: router::Limit::Bounded(8),
                last_progress_at_tick: router::Tick(4),
                state: router::RouteProgressState::Satisfied,
            },
        },
    )
}

fn lease_of(byte: u8) -> router::RouteLease {
    router::RouteLease {
        owner_node_id: router::NodeId([byte; 32]),
        lease_epoch: router::RouteEpoch(2),
        valid_for: router::TimeWindow::new(router::Tick(4), router::Tick(12)).expect("window"),
    }
}

fn core_node(byte: u8) -> router::DestinationId {
    router::DestinationId::Node(router::NodeId([byte; 32]))
}

fn hops(count: u8) -> router::Belief<u8> {
    router::Belief::certain(count, router::Tick(1))
}

fn outcome_of(canonical_mutation: router::RouterCanonicalMutation) -> RouterRoundOutcome {
    RouterRoundOutcome {
        topology_epoch: 1,
        engine_change: RoutingTickChange::NoChange,
        next_round_hint: RoutingTickHint::WithinTicks(Tick(3)),
        canonical_mutation,
    }
}

fn route_capable_node(byte: u8, endpoint: jacquard_core::LinkEndpoint, tick: u64) -> Node {
    NodePreset::route_capable_for_engines(
        NodePresetOptions::new(
            NodeIdentity::new(
                jacquard_core::NodeId([byte; 32]),
                jacquard_core::ControllerId([byte; 32]),
            ),
            endpoint,
            jacquard_core::Tick(tick),
        ),
        &[MERCATOR_ENGINE_ID],
    )
    .build()
}

fn two_node_projector() -> TopologyProjector {
    let mut projector = projector_of(initial_topology(node_id(1), Tick(1)));
    let seen = link_observed(
        node_id(2),
        ble_endpoint(2, TransportKind::BleGatt),
        LinkRuntimeState::Active,
        Tick(2),
    );
    tell(&mut projector, &seen).expect("the link is shown");
    projector
}

#[test]
fn topology_api_tracks_discovery_upgrade_and_disconnect_like_events() {
    let local_node_id = node_id(1);
    let remote_node_id = node_id(9);
    let mut projector = projector_of(initial_topology(local_node_id, Tick(1)));
    assert_eq!(projector.snapshot().nodes.len(), 1);

    let gatt = link_observed(
        remote_node_id,
        ble_endpoint(9, TransportKind::BleGatt),
        LinkRuntimeState::Active,
        Tick(2),
    );
    let gatt_snapshot = tell(&mut projector, &gatt).expect("gatt topology update");
    assert!(gatt_snapshot.node(&remote_node_id).is_some());
    let gatt_edge = gatt_snapshot
        .edge(local_node_id, remote_node_id)
        .expect("gatt edge");
    assert_eq!(gatt_edge.transport_kind(), &TransportKind::BleGatt);
    assert_eq!(
        gatt_edge.observation.value.profile.latency_floor_ms,
        DurationMs(25)
    );
    assert!(tell(&mut projector, &gatt).is_none(), "nothing new was heard");

    let l2cap = link_observed(
        remote_node_id,
        ble_endpoint(9, TransportKind::BleL2cap),
        LinkRuntimeState::Active,
        Tick(3),
    );
    let l2cap_snapshot = tell(&mut projector, &l2cap).expect("l2cap topology update");
    assert_eq!(
        l2cap_snapshot
            .edge(local_node_id, remote_node_id)
            .expect("l2cap edge")
            .transport_kind(),
        &TransportKind::BleL2cap
    );

    let downgraded = link_observed(
        remote_node_id,
        ble_endpoint(9, TransportKind::BleGatt),
        LinkRuntimeState::Degraded,
        Tick(4),
    );
    let downgraded_snapshot = tell(&mut projector, &downgraded).expect("downgraded update");
    let downgraded_edge = downgraded_snapshot
        .edge(local_node_id, remote_node_id)
        .expect("downgraded edge");
    assert_eq!(downgraded_edge.transport_kind(), &TransportKind::BleGatt);
    assert_eq!(
        downgraded_edge.observation.value.state.state,
        LinkRuntimeState::Degraded
    );
}

#[test]
fn a_node_heard_of_for_the_first_time_is_described_by_its_link() {
    let socket = EndpointLocator::Socket {
        host: "relay".to_owned(),
        port: 7,
    };
    let cases = vec![
        (
            TransportKind::BleL2cap,
            EndpointLocator::Opaque(vec![4]),
            CoreKind::BleL2cap,
            CoreLocator::Opaque(vec![4]),
        ),
        (
            TransportKind::Custom("mule".to_owned()),
            socket,
            CoreKind::Custom("mule".to_owned()),
            CoreLocator::Socket {
                host: "relay".to_owned(),
                port: 7,
            },
        ),
        (
            TransportKind::BleGatt,
            ble_endpoint(5, TransportKind::BleGatt).locator,
            CoreKind::BleGatt,
            CoreLocator::ScopedBytes {
                scope: "ble".to_owned(),
                bytes: vec![5],
            },
        ),
    ];
    for (kind, locator, core_kind, core_locator) in cases {
        let mut projector = projector_of(initial_topology(node_id(1), Tick(1)));
        let endpoint = LinkEndpoint::new(kind, locator, ByteCount(244));
        let seen = link_observed(node_id(2), endpoint, LinkRuntimeState::Active, Tick(5));
        let shown = tell(&mut projector, &seen).expect("the link is shown");
        let core_endpoint = jacquard_core::LinkEndpoint::new(
            core_kind,
            core_locator,
            jacquard_core::ByteCount(244),
        );
        let expected = route_capable_node(2, core_endpoint, 5);
        assert_eq!(shown.node(&node_id(2)).expect("the node is shown").node, expected);
        let later = link_observed(
            node_id(2),
            ble_endpoint(9, TransportKind::BleL2cap),
            LinkRuntimeState::Active,
            Tick(6),
        );
        let shown = tell(&mut projector, &later).expect("the link changed");
        assert_eq!(
            shown.node(&node_id(2)).expect("the node is shown").node,
            expected,
            "what is known of a node stays"
        );
    }
}

#[test]
fn topology_snapshot_surfaces_active_route_after_send() {
    let remote_node_id = node_id(2);
    let mut projector = two_node_projector();
    let route = materialized(3, core_node(2), hops(1));
    assert!(projector.ingest_materialized_route(&route));
    assert!(!projector.ingest_materialized_route(&route), "the same again is no change");
    let updated = projector.snapshot();
    assert_eq!(updated.active_routes.len(), 1);
    let active_route = updated.active_routes.value_at(0);
    assert_eq!(active_route.terminal_node_id, remote_node_id);
    assert_eq!(active_route.protocol_mix, vec![TransportKind::BleGatt]);
    assert!(matches!(
        active_route.delivery,
        ActiveRouteDelivery::Direct { next_hop_node_id } if next_hop_node_id == remote_node_id
    ));
    assert_eq!(active_route.observed_at_tick, Tick(6));
    assert_eq!(active_route.shape_visibility, RouteShapeVisibility::CorridorEnvelope);
    assert_eq!(active_route.route_id, RouteId([3; 16]));
    assert_eq!(
        active_route.engine,
        RoutingEngineId::from_contract_bytes(*b"jacquard.mercatr")
    );
    assert_eq!(updated.observed_at_tick, Tick(4), "time moves on to the route");
}

#[test]
fn topology_snapshot_does_not_overclaim_an_ambiguous_multi_hop_route() {
    let mut projector = two_node_projector();
    assert!(projector.ingest_materialized_route(&materialized(3, core_node(2), hops(2))));
    let updated = projector.snapshot();
    let active_route = updated.active_routes.value_at(0);
    assert!(matches!(
        active_route.delivery,
        ActiveRouteDelivery::Reachable { hop_count_hint } if hop_count_hint >= 2
    ));
    assert_eq!(
        active_route.protocol_mix,
        vec![TransportKind::BleL2cap, TransportKind::Custom("mule".to_owned())]
    );
}

#[test]
fn routes_over_failed_links_or_to_strangers_are_not_called_direct() {
    let mut projector = two_node_projector();
    let failed = link_observed(
        node_id(2),
        ble_endpoint(2, TransportKind::BleGatt),
        LinkRuntimeState::Faulted,
        Tick(5),
    );
    assert!(tell(&mut projector, &failed).is_some());
    let unknown = router::Belief::Absent;
    let service = router::DestinationId::Service(router::ServiceId(b"service".to_vec()));
    assert!(projector.ingest_materialized_route(&materialized(3, core_node(2), unknown)));
    assert!(!projector.ingest_materialized_route(&materialized(4, core_node(7), unknown)));
    assert!(!projector.ingest_materialized_route(&materialized(5, service, unknown)));
    assert!(projector.ingest_materialized_route(&materialized(6, core_node(1), unknown)));
    let shown = projector.snapshot();
    assert_eq!(shown.active_routes.len(), 2);
    assert_eq!(
        shown.active_route(&RouteId([3; 16])).expect("shown").delivery,
        ActiveRouteDelivery::Reachable { hop_count_hint: 1 }
    );
    let local = shown.active_route(&RouteId([6; 16])).expect("shown");
    assert_eq!(local.delivery, ActiveRouteDelivery::Local);
    assert!(local.protocol_mix.is_empty());
}

#[test]
fn a_payload_moves_time_on_and_nothing_else() {
    let mut projector = projector_of(initial_topology(node_id(1), Tick(1)));
    let payload = payload_received(node_id(2), b"anything".to_vec());
    assert!(projector.ingest_transport_observation(&payload));
    assert!(!projector.ingest_transport_observation(&payload));
    assert_eq!(projector.topology_observation().observed_at_tick, router::Tick(2));
    assert_eq!(projector.topology_observation().value.nodes.len(), 1);
    assert_eq!(projector.snapshot().observed_at_tick, Tick(2));
}

#[test]
fn a_projector_says_exactly_when_the_shown_topology_changed() {
    let mut projector = projector_of(initial_topology(node_id(1), Tick(1)));
    assert!(projector.ingest_materialized_route(&materialized(3, core_node(1), hops(1))));
    let before = projector.snapshot();
    assert_eq!(before.observed_at_tick, Tick(4));
    let gatt = link_observed(
        node_id(2),
        ble_endpoint(2, TransportKind::BleGatt),
        LinkRuntimeState::Active,
        Tick(2),
    );
    assert!(projector.ingest_transport_observation(&gatt));
    let after = projector.snapshot();
    assert!(!after.same(&before));
    assert_eq!(after.observed_at_tick, Tick(2), "the host takes the time of the mesh");
    assert!(!projector.ingest_transport_observation(&gatt));
    assert!(projector.snapshot().same(&after));
    assert!(!projector.ingest_transport_observation(&payload_received(
        node_id(2),
        b"at the same tick".to_vec()
    )));
}

#[test]
fn routes_take_the_shape_that_their_engine_shows() {
    let mut projector = TopologyProjector::new(node_id(1), initial_topology(node_id(1), Tick(1)));
    assert!(projector.ingest_materialized_route(&materialized(3, core_node(1), hops(1))));
    let shape = |projector: &TopologyProjector| {
        projector
            .snapshot()
            .active_route(&RouteId([3; 16]))
            .expect("shown")
            .shape_visibility
    };
    assert_eq!(shape(&projector), RouteShapeVisibility::Opaque);
    let mut other = MERCATOR_CAPABILITIES;
    other.engine = router::RoutingEngineId::from_contract_bytes([9; 16]);
    assert!(!projector.ingest_engine_capabilities(other));
    assert_eq!(shape(&projector), RouteShapeVisibility::Opaque);
    assert!(projector.ingest_engine_capabilities(MERCATOR_CAPABILITIES));
    assert_eq!(shape(&projector), RouteShapeVisibility::CorridorEnvelope);
    assert!(!projector.ingest_engine_capabilities(MERCATOR_CAPABILITIES));
}

#[test]
fn rounds_replace_hand_over_and_expire_routes() {
    let mut projector = two_node_projector();
    assert!(projector.ingest_materialized_route(&materialized(3, core_node(2), hops(1))));
    let nothing = outcome_of(router::RouterCanonicalMutation::None);
    assert!(!projector.ingest_round_outcome(&nothing));
    let replaced = outcome_of(router::RouterCanonicalMutation::RouteReplaced {
        previous_route_id: router::RouteId([3; 16]),
        route: Box::new(materialized(4, core_node(2), hops(1))),
    });
    assert!(projector.ingest_round_outcome(&replaced));
    assert!(projector.snapshot().active_route(&RouteId([3; 16])).is_none());
    assert!(projector.snapshot().active_route(&RouteId([4; 16])).is_some());
    let handed_over = |to: u8| {
        outcome_of(router::RouterCanonicalMutation::LeaseTransferred {
            route_id: router::RouteId([4; 16]),
            handoff: router::RouteSemanticHandoff {
                route_id: router::RouteId([4; 16]),
                from_node_id: router::NodeId([1; 32]),
                to_node_id: router::NodeId([to; 32]),
                handoff_epoch: router::RouteEpoch(2),
                receipt_id: router::ReceiptId([1; 16]),
            },
            lease: lease_of(to),
        })
    };
    assert!(projector.ingest_round_outcome(&handed_over(2)));
    let shown = projector.snapshot();
    let route = shown.active_route(&RouteId([4; 16])).expect("shown");
    assert_eq!(route.owner_node_id, node_id(2));
    assert_eq!(route.delivery, ActiveRouteDelivery::Local);
    assert!(projector.ingest_round_outcome(&handed_over(7)), "a stranger is not shown");
    assert_eq!(projector.snapshot().active_routes.len(), 0);
    assert!(projector.ingest_round_outcome(&handed_over(1)));
    let expired = outcome_of(router::RouterCanonicalMutation::RouteExpired {
        route_id: router::RouteId([4; 16]),
    });
    assert!(projector.ingest_round_outcome(&expired));
    assert!(!projector.ingest_round_outcome(&expired));
    assert_eq!(projector.snapshot().active_routes.len(), 0);
}

#[test]
fn reports_tell_the_router_and_the_application_what_they_need_to_know() {
    let mut projector = projector_of(initial_topology(node_id(1), Tick(1)));
    let report = |ingested_transport_observations, canonical_mutation| BleBridgeRoundReport {
        router_outcome: outcome_of(canonical_mutation),
        ingested_transport_observations,
        flushed_transport_commands: 0,
        dropped_transport_observations: 0,
    };
    let seen = |state| {
        link_observed(
            node_id(2),
            ble_endpoint(2, TransportKind::BleGatt),
            state,
            Tick(2),
        )
    };
    let nothing = ReportEffect {
        tell_router: false,
        publish_topology: false,
    };
    let everything = ReportEffect {
        tell_router: true,
        publish_topology: true,
    };
    let none = || router::RouterCanonicalMutation::None;
    assert_eq!(projector.ingest_report(&report(vec![], none())), nothing);
    let heard = report(vec![seen(LinkRuntimeState::Active)], none());
    assert_eq!(projector.ingest_report(&heard), everything);
    assert_eq!(projector.ingest_report(&heard), nothing);
    assert!(projector.ingest_materialized_route(&materialized(3, core_node(2), hops(1))));
    let expired = || router::RouterCanonicalMutation::RouteExpired {
        route_id: router::RouteId([3; 16]),
    };
    assert_eq!(
        projector.ingest_report(&report(vec![], expired())),
        ReportEffect {
            tell_router: false,
            publish_topology: true,
        }
    );
    let there_and_back = vec![
        seen(LinkRuntimeState::Degraded),
        seen(LinkRuntimeState::Active),
    ];
    assert_eq!(
        projector.ingest_report(&report(there_and_back, none())),
        everything,
        "a change that was undone in the same round is a change"
    );
}

#[test]
fn the_router_is_told_of_the_mesh_as_it_is_known() {
    let mut projector = two_node_projector();
    let mesh = projector.topology_observation();
    assert_eq!(mesh.observed_at_tick, router::Tick(2));
    assert_eq!(mesh.source_class, router::FactSourceClass::Local);
    assert_eq!(
        mesh.evidence_class,
        router::RoutingEvidenceClass::DirectObservation
    );
    assert_eq!(
        mesh.origin_authentication,
        router::OriginAuthenticationClass::Controlled
    );
    assert_eq!(mesh.value.epoch, router::RouteEpoch(1));
    assert_eq!(mesh.value.environment.reachable_neighbor_count, 0);
    assert_eq!(mesh.value.nodes.len(), 2);
    let key = (router::NodeId([1; 32]), router::NodeId([2; 32]));
    let link = &mesh.value.links[&key];
    assert_eq!(link.endpoint.transport_kind, CoreKind::BleGatt);
    let full = full_link();
    let seen = TransportObservation::LinkObserved {
        remote_node_id: node_id(2),
        observation: Observation {
            value: full.clone(),
            source_class: FactSourceClass::Remote,
            evidence_class: RoutingEvidenceClass::PeerClaim,
            origin_authentication: OriginAuthenticationClass::Authenticated,
            observed_at_tick: Tick(3),
        },
    };
    assert!(projector.ingest_transport_observation(&seen));
    assert_eq!(projector.topology_observation().value.links[&key], core_full_link());
    let shown = projector.snapshot();
    let edge = shown.edge(node_id(1), node_id(2)).expect("shown");
    assert_eq!(edge.observation.value, full);
    assert_eq!(edge.observation.evidence_class, RoutingEvidenceClass::PeerClaim);
}

fn estimate<T>(value: T, confidence: u16, tick: u64) -> Belief<T> {
    Belief::Estimated(Estimate {
        value,
        confidence_permille: RatioPermille(confidence),
        updated_at_tick: Tick(tick),
    })
}

/// A link of which everything is known.
fn full_link() -> Link {
    Link {
        endpoint: LinkEndpoint::new(
            TransportKind::Custom("mule".to_owned()),
            EndpointLocator::Socket {
                host: "relay".to_owned(),
                port: 7,
            },
            ByteCount(99),
        ),
        profile: LinkProfile {
            latency_floor_ms: DurationMs(8),
            repair_capability: RepairCapability::ApplicationRetransmit,
            partition_recovery: PartitionRecoveryClass::EndToEndRecoverable,
        },
        state: LinkState {
            state: LinkRuntimeState::Suspended,
            median_rtt_ms: estimate(DurationMs(11), 901, 21),
            transfer_rate_bytes_per_sec: estimate(12, 902, 22),
            stability_horizon_ms: estimate(DurationMs(13), 903, 23),
            loss_permille: RatioPermille(25),
            delivery_confidence_permille: estimate(RatioPermille(14), 904, 24),
            symmetry_permille: estimate(RatioPermille(15), 905, 25),
        },
    }
}

fn core_full_link() -> router::Link {
    let estimated = |confidence, tick| (router::RatioPermille(confidence), router::Tick(tick));
    let (rtt, rate) = (estimated(901, 21), estimated(902, 22));
    let (horizon, confidence) = (estimated(903, 23), estimated(904, 24));
    let symmetry = estimated(905, 25);
    router::Link {
        endpoint: router::LinkEndpoint::new(
            CoreKind::Custom("mule".to_owned()),
            CoreLocator::Socket {
                host: "relay".to_owned(),
                port: 7,
            },
            router::ByteCount(99),
        ),
        profile: router::LinkProfile {
            latency_floor_ms: router::DurationMs(8),
            repair_capability: router::RepairCapability::ApplicationRetransmit,
            partition_recovery: router::PartitionRecoveryClass::EndToEndRecoverable,
        },
        state: router::LinkState {
            state: router::LinkRuntimeState::Suspended,
            median_rtt_ms: router::Belief::estimated(router::DurationMs(11), rtt.0, rtt.1),
            transfer_rate_bytes_per_sec: router::Belief::estimated(12, rate.0, rate.1),
            stability_horizon_ms: router::Belief::estimated(
                router::DurationMs(13),
                horizon.0,
                horizon.1,
            ),
            loss_permille: router::RatioPermille(25),
            delivery_confidence_permille: router::Belief::estimated(
                router::RatioPermille(14),
                confidence.0,
                confidence.1,
            ),
            symmetry_permille: router::Belief::estimated(
                router::RatioPermille(15),
                symmetry.0,
                symmetry.1,
            ),
        },
    }
}

#[test]
fn links_survive_the_way_to_the_router_and_back() {
    assert_eq!(core_link(&full_link()), core_full_link());
    assert_eq!(plain_link(&core_full_link()), full_link());
    let kinds = [
        TransportKind::BleGatt,
        TransportKind::BleL2cap,
        TransportKind::WifiAware,
        TransportKind::WifiLan,
        TransportKind::Quic,
        TransportKind::TcpRelay,
        TransportKind::LoraP2p,
    ];
    let states = [
        LinkRuntimeState::Active,
        LinkRuntimeState::Degraded,
        LinkRuntimeState::Suspended,
        LinkRuntimeState::Faulted,
    ];
    for kind in kinds {
        for state in states {
            let mut bare = link(ble_endpoint(4, kind.clone()), state);
            bare.profile.repair_capability = RepairCapability::NoRepair;
            bare.profile.partition_recovery = PartitionRecoveryClass::NoRecovery;
            assert_eq!(plain_link(&core_link(&bare)), bare);
        }
    }
}

#[test]
fn a_link_that_only_the_host_observed_is_shown_as_the_host_saw_it() {
    let mut links: OrderedMap<EdgeKey, ObservedLink> = OrderedMap::new();
    let key = EdgeKey {
        from_node_id: node_id(2),
        to_node_id: node_id(3),
    };
    links.insert(
        key,
        ObservedLink {
            link: full_link(),
            observed_at_tick: Tick(8),
        },
    );
    let observed = ObservedTopology {
        local_node_id: node_id(1),
        observed_at_tick: Tick(9),
        nodes: OrderedMap::new(),
        links,
        active_routes: OrderedMap::new(),
    };
    let shown = mesh_snapshot_from(&OrderedMap::new(), &observed);
    let edge = shown.edge(node_id(2), node_id(3)).expect("shown");
    assert_eq!(edge.observation.value, full_link());
    assert_eq!(edge.observation.observed_at_tick, Tick(8));
    assert_eq!(
        edge.observation.origin_authentication,
        OriginAuthenticationClass::Unauthenticated
    );
}

fn encoded_route(path: &[u8]) -> Vec<u8> {
    // version, epoch, destination node, primary path, no alternates, support score
    let mut bytes = vec![2];
    bytes.extend_from_slice(&7_u64.to_be_bytes());
    bytes.push(0);
    bytes.extend_from_slice(&[2; 32]);
    bytes.push(path.len() as u8);
    for byte in path {
        bytes.extend_from_slice(&[*byte; 32]);
    }
    bytes.push(0);
    bytes.push(0);
    bytes.extend_from_slice(&900_u16.to_be_bytes());
    bytes
}

#[test]
fn the_first_hop_of_a_route_is_read_out_of_its_name() {
    let projector = two_node_projector();
    let topology = projector.snapshot();
    let name = encoded_route(&[1, 2]);
    let core_name = BackendRouteId(name.clone());
    assert_eq!(
        jacquard_mercator::selected_neighbor_from_backend_route_id(&core_name),
        Some(jacquard_core::NodeId([2; 32])),
        "the name is one that the engine could have given"
    );
    let queued = queue_payload_on_route(&topology, node_id(1), &name).expect("there is an edge");
    assert_eq!(queued.next_hop_node_id, node_id(2));
    assert_eq!(queued.intent.endpoint(), &ble_endpoint(2, TransportKind::BleGatt));
    let no_route = BleClientError::Route(RouteError::Selection(RouteSelectionError::NoCandidate));
    assert_eq!(
        queue_payload_on_route(&topology, node_id(1), &b"garbage".to_vec()).err(),
        Some(no_route)
    );
    assert_eq!(
        address_to_neighbor(&topology, node_id(1), Some(node_id(8))).err(),
        Some(no_route)
    );
    assert_eq!(address_to_neighbor(&topology, node_id(1), None).err(), Some(no_route));
}

#[test]
fn send_flushes_a_payload_through_the_client_boundary() {
    let remote_node_id = node_id(2);
    let topology = two_node_projector().snapshot();
    let mut cache = RouteCache::new();

    let (task, action) = SendTask::begin(&cache, node_id(1), remote_node_id);
    assert!(matches!(action, SendAction::Activate));
    let (task, action) = task.route_activated(
        Ok(ActivatedRoute {
            route_id: RouteId([5; 16]),
            backend_route_id: encoded_route(&[1, 2]),
        }),
        true,
    );
    assert!(matches!(action, SendAction::Forward(route_id) if route_id == RouteId([5; 16])));
    let (task, action) = task.payload_forwarded(&mut cache, &topology, Ok(()));
    assert!(matches!(action, SendAction::HandOver));
    let intent = task.intent().expect("an intent is ready");
    assert_eq!(intent.mode(), TransportDeliveryMode::Unicast);
    assert_eq!(cache.routes.len(), 0, "a route is remembered once it carried something");
    let (task, action) = task.payload_handed_over(&mut cache, Ok(()));
    assert!(matches!(action, SendAction::DriveRound));
    assert_eq!(cache.routes.get(&remote_node_id), Some(&RouteId([5; 16])));
    let (task, action) = task.round_driven(Ok(()));
    assert!(matches!(task.state, SendState::Finished));
    let SendAction::Finish {
        result,
        publish_topology,
    } = action
    else {
        panic!("the send is over");
    };
    assert!(publish_topology);
    let receipt = result.expect("send through client");
    assert_eq!(receipt.destination_node_id, remote_node_id);
    assert_eq!(receipt.next_hop_node_id, remote_node_id);
    assert_eq!(receipt.delivery_mode, TransportDeliveryMode::Unicast);
    assert_eq!(receipt.stage, JacquardBleSendStage::QueuedForTransport);
    assert_eq!(receipt.endpoint, ble_endpoint(2, TransportKind::BleGatt));

    let framed = encode_client_payload_for_testing(b"hello over jacquard ble");
    assert_eq!(
        decode_client_payload_for_testing(&framed),
        Some(b"hello over jacquard ble".to_vec())
    );
}

#[test]
fn a_route_that_went_stale_is_forgotten_and_replaced() {
    let topology = two_node_projector().snapshot();
    let mut cache = RouteCache::new();
    cache.routes.insert(node_id(2), RouteId([5; 16]));

    let (task, action) = SendTask::begin(&cache, node_id(1), node_id(2));
    assert!(matches!(action, SendAction::LookUp(route_id) if route_id == RouteId([5; 16])));
    let (gone, action) = SendTask::begin(&cache, node_id(1), node_id(2)).0.route_looked_up(None);
    assert!(matches!(action, SendAction::Activate));
    assert!(matches!(gone.state, SendState::Activating));
    assert_eq!(cache.routes.len(), 1);

    let (task, action) = {
        drop(action);
        task.route_looked_up(Some(encoded_route(&[1, 2])))
    };
    assert!(matches!(action, SendAction::Forward(_)));
    let stale = RouteError::Runtime(RouteRuntimeError::LeaseExpired);
    let (task, action) = task.payload_forwarded(&mut cache, &topology, Err(stale));
    assert!(matches!(action, SendAction::Activate));
    assert_eq!(cache.routes.len(), 0);
    let (_, action) = task.route_activated(
        Err(RouteError::Selection(RouteSelectionError::NoCandidate)),
        false,
    );
    match action {
        SendAction::Finish {
            result,
            publish_topology,
        } => {
            assert_eq!(
                result.err(),
                Some(BleClientError::Route(RouteError::Selection(
                    RouteSelectionError::NoCandidate
                )))
            );
            assert!(!publish_topology);
        }
        other => panic!("unexpected action: {other:?}"),
    }
}

#[test]
fn a_transport_that_is_full_fails_the_send() {
    let topology = two_node_projector().snapshot();
    let mut cache = RouteCache::new();
    cache.routes.insert(node_id(2), RouteId([5; 16]));
    let (task, _) = SendTask::begin(&cache, node_id(1), node_id(2));
    let (task, _) = task.route_looked_up(Some(encoded_route(&[1, 2])));
    let (task, _) = task.payload_forwarded(&mut cache, &topology, Ok(()));
    let (_, action) = task.payload_handed_over(&mut cache, Err(TransportError::Unavailable));
    match action {
        SendAction::Finish { result, .. } => assert_eq!(
            result.err(),
            Some(BleClientError::Transport(TransportError::Unavailable))
        ),
        other => panic!("unexpected action: {other:?}"),
    }
    assert_eq!(cache.routes.len(), 1, "the route is not to blame");
}

#[test]
fn send_multicast_flushes_an_admitted_multicast_intent() {
    let receivers = vec![node_id(2), node_id(3)];
    let group_id = MulticastGroupId([9; 16]);
    let intent = plan_multicast(node_id(1), group_id, &receivers)
        .expect("send multicast through client");
    let receipt = multicast_receipt(group_id, receivers.clone(), &intent);

    assert_eq!(receipt.group_id, group_id);
    assert_eq!(receipt.receivers, receivers);
    assert_eq!(receipt.delivery_mode, TransportDeliveryMode::Multicast);
    assert_eq!(receipt.stage, JacquardBleSendStage::QueuedForTransport);
    assert_eq!(receipt.endpoint, gatt_notify_fanout_endpoint());

    match &intent {
        TransportDeliveryIntent::Multicast {
            group_id: frame_group,
            receivers: frame_receivers,
            ..
        } => {
            assert_eq!(*frame_group, group_id);
            assert_eq!(*frame_receivers, receipt.receivers);
        }
        other => panic!("expected multicast intent, got {other:?}"),
    }
}

#[test]
fn groups_that_are_empty_or_too_large_are_not_admitted() {
    let group_id = MulticastGroupId([9; 16]);
    let refused = Some(BleClientError::DeliveryAdmission(
        RouteAdmissionRejection::DeliveryAssumptionUnsupported,
    ));
    assert_eq!(plan_multicast(node_id(1), group_id, &vec![]).err(), refused);
    let nine: Vec<NodeId> = (1..=9).map(node_id).collect();
    assert_eq!(plan_multicast(node_id(1), group_id, &nine).err(), refused);
    let eight: Vec<NodeId> = (1..=8).rev().map(node_id).collect();
    match plan_multicast(node_id(1), group_id, &eight) {
        Ok(TransportDeliveryIntent::Multicast { receivers, .. }) => {
            assert_eq!(receivers, (1..=8).map(node_id).collect::<Vec<NodeId>>());
        }
        other => panic!("unexpected plan: {other:?}"),
    }
}

#[test]
fn a_group_is_admitted_only_for_receivers_that_are_supported() {
    let group_id = MulticastGroupId([9; 16]);
    let support = |receivers: Vec<NodeId>| {
        gatt_notify_multicast_support(
            node_id(1),
            group_id,
            &receivers,
            Tick(3),
            jq_ble::identity::OrderStamp(0),
        )
        .expect("supported")
    };
    let twice = support(vec![node_id(3), node_id(2), node_id(3)]);
    assert_eq!(twice.receivers, vec![node_id(2), node_id(3)]);
    assert!(admit_notify_multicast(group_id, &vec![node_id(3)], twice).is_ok());
    let rejection = RouteAdmissionRejection::DeliveryAssumptionUnsupported;
    assert_eq!(
        admit_notify_multicast(group_id, &vec![node_id(4)], support(vec![node_id(2)])).err(),
        Some(rejection)
    );
    assert_eq!(
        admit_notify_multicast(
            MulticastGroupId([8; 16]),
            &vec![node_id(2)],
            support(vec![node_id(2)])
        )
        .err(),
        Some(rejection)
    );
}

#[test]
fn only_subscribers_are_reached_by_a_group() {
    let group_id = MulticastGroupId([9; 16]);
    let subscribed = raw_ble_link_observed_event(node_id(2), gatt_notify_fanout_endpoint())
        .observe_at(Tick(4));
    let elsewhere =
        raw_ble_link_observed_event(node_id(3), ble_endpoint(3, TransportKind::BleGatt))
            .observe_at(Tick(5));
    let gone = raw_ble_link_faulted_event(node_id(2), gatt_notify_fanout_endpoint())
        .observe_at(Tick(6));
    assert!(is_multicast_fanout_observation(&subscribed));
    assert!(!is_multicast_fanout_observation(&elsewhere));

    let mut admission = MulticastAdmission::new();
    admission.ingest_transport_observation(&subscribed);
    admission.ingest_transport_observation(&elsewhere);
    let receivers = vec![node_id(2)];
    let support = admission
        .support_for(node_id(1), group_id, &receivers)
        .expect("a subscriber is reached");
    assert_eq!(support.receivers, receivers);
    assert_eq!(admission.latest_observed_tick(&receivers), Tick(4));
    assert_eq!(admission.latest_observed_tick(&vec![node_id(3)]), Tick(0));
    let rejection = RouteAdmissionRejection::DeliveryAssumptionUnsupported;
    assert_eq!(
        admission
            .support_for(node_id(1), group_id, &vec![node_id(2), node_id(3)])
            .err(),
        Some(rejection)
    );
    assert_eq!(
        admission.support_for(node_id(1), group_id, &vec![]).err(),
        Some(rejection)
    );
    admission.ingest_transport_observation(&gone);
    assert_eq!(
        admission.support_for(node_id(1), group_id, &receivers).err(),
        Some(rejection)
    );
}

#[test]
fn user_payloads_starting_with_jqclient_are_delivered_while_unframed_control_bytes_stay_hidden() {
    let remote_node_id = node_id(2);
    let incoming = incoming_payloads(&vec![
        payload_received(
            remote_node_id,
            encode_client_payload_for_testing(b"JQCLIENT user payload"),
        ),
        payload_received(remote_node_id, b"JQCONTROL plane".to_vec()),
        link_observed(
            remote_node_id,
            ble_endpoint(2, TransportKind::BleGatt),
            LinkRuntimeState::Active,
            Tick(2),
        ),
        payload_received(node_id(3), encode_client_payload_for_testing(b"")),
    ]);
    assert_eq!(incoming.len(), 2);
    assert_eq!(incoming[0].from_node_id, remote_node_id);
    assert_eq!(incoming[0].payload, b"JQCLIENT user payload");
    assert_eq!(incoming[1].from_node_id, node_id(3));
    assert!(incoming[1].payload.is_empty());
    assert_eq!(decode_client_payload_for_testing(b"JQCLIEN"), None);
}

#[test]
fn ticks_are_slept_for_their_length() {
    assert_eq!(duration_for_tick_hint(25_000_000, Tick(4)), 100_000_000);
    assert_eq!(duration_for_tick_hint(25_000_000, Tick(0)), 0);
    assert_eq!(
        duration_for_tick_hint(1, Tick(u64::MAX)),
        u128::from(u32::MAX)
    );
    let longest = u128::from(u64::MAX) * 1_000_000_000 + 999_999_999;
    assert_eq!(duration_for_tick_hint(longest, Tick(2)), longest);
}

#[test]
fn another_round_follows_only_if_the_router_asks_for_it() {
    let outcome = |hint| RouterRoundOutcome {
        topology_epoch: 1,
        engine_change: RoutingTickChange::PrivateStateUpdated,
        next_round_hint: hint,
        canonical_mutation: jacquard_core::RouterCanonicalMutation::None,
    };
    let advanced = |hint| {
        BleBridgeProgress::Advanced(Box::new(BleBridgeRoundReport {
            router_outcome: outcome(hint),
            ingested_transport_observations: vec![],
            flushed_transport_commands: 0,
            dropped_transport_observations: 0,
        }))
    };
    assert!(wants_follow_up(&advanced(RoutingTickHint::Immediate)));
    assert!(!wants_follow_up(&advanced(RoutingTickHint::HostDefault)));
    assert!(!wants_follow_up(&BleBridgeProgress::Waiting(BleBridgeWaitState {
        next_round_hint: RoutingTickHint::Immediate,
        pending_transport_observations: 0,
        pending_transport_commands: 0,
        dropped_transport_observations: 0,
        notifier_snapshot: 0,
    })));
}

#[test]
fn a_client_starts_alone_and_asks_for_protected_links() {
    let topology = initial_topology(node_id(1), Tick(3));
    assert_eq!(topology.observed_at_tick, Tick(3));
    assert_eq!(topology.value.epoch, 1);
    assert_eq!(topology.value.nodes.len(), 1);
    assert_eq!(topology.value.links.len(), 0);
    assert_eq!(
        topology.origin_authentication,
        OriginAuthenticationClass::Controlled
    );
    let inputs = policy_inputs_for(&topology, node_id(1));
    let local_endpoint = jacquard_core::LinkEndpoint::new(
        jacquard_core::TransportKind::BleGatt,
        jacquard_core::EndpointLocator::Opaque(vec![1; 32]),
        jacquard_core::ByteCount(512),
    );
    assert_eq!(inputs.local_node.value, route_capable_node(1, local_endpoint, 3));
    assert_eq!(
        inputs.local_node.value.controller_id,
        jacquard_core::ControllerId([1; 32])
    );
    assert_eq!(inputs.local_environment.value.reachable_neighbor_count, 0);
    assert_eq!(inputs.median_rtt_ms, DurationMs(40));
    assert_eq!(inputs.loss_permille, RatioPermille(50));
    assert_eq!(inputs.direct_reachability_score, 900);
    assert_eq!(default_profile().diversity_floor, 1);
    assert!(!default_profile().engine_fallback_allowed);
    let objective = default_objective(node_id(2));
    assert_eq!(objective.destination, node_id(2));
    assert_eq!(objective.target_protection, RouteProtectionClass::LinkProtected);
    assert_eq!(objective.latency_budget_ms, Some(DurationMs(250)));
    assert_eq!(
        service_endpoint(node_id(1)).locator,
        EndpointLocator::Opaque(vec![1; 32])
    );
}
