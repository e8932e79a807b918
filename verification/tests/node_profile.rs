//! Structure of [`MeshTopology`] as the builders make it: local, direct and reachable delivery, and
//! every reason for which a topology is refused.

use jacquard_core::Node;
use jacquard_testkit::topology as reference_topology;
use jq_ble::authoring::{active_route, topology};
use jq_ble::endpoint::{ByteCount, EndpointLocator, LinkEndpoint, TransportKind};
use jq_ble::identity::{NodeId, RouteId, RoutingEngineId, Tick};
use jq_ble::link::{
    Belief, DurationMs, FactSourceClass, Link, LinkProfile, LinkRuntimeState, LinkState,
    Observation, OriginAuthenticationClass, PartitionRecoveryClass, RatioPermille,
    RepairCapability, RoutingEvidenceClass,
};
use jq_ble::topology::{
    ActiveRouteDelivery, DestinationId, MeshEdge, MeshNode, MeshTopologyBuildError,
    RouteShapeVisibility,
};

fn node(byte: u8) -> Node {
    reference_topology::node(byte).pathway().build()
}

fn edge(
    from_byte: u8,
    to_byte: u8,
    transport_kind: TransportKind,
    observed_at_tick: Tick,
) -> MeshEdge {
    MeshEdge::new(
        NodeId([from_byte; 32]),
        NodeId([to_byte; 32]),
        Observation {
            value: Link {
                endpoint: LinkEndpoint::new(
                    transport_kind,
                    EndpointLocator::Opaque(vec![to_byte]),
                    ByteCount(128),
                ),
                profile: LinkProfile {
                    latency_floor_ms: DurationMs(8),
                    repair_capability: RepairCapability::TransportRetransmit,
                    partition_recovery: PartitionRecoveryClass::LocalReconnect,
                },
                state: LinkState {
                    state: LinkRuntimeState::Active,
                    median_rtt_ms: Belief::Absent,
                    transfer_rate_bytes_per_sec: Belief::Absent,
                    stability_horizon_ms: Belief::Absent,
                    loss_permille: RatioPermille(0),
                    delivery_confidence_permille: Belief::certain(
                        RatioPermille(950),
                        observed_at_tick,
                    ),
                    symmetry_permille: Belief::Absent,
                },
            },
            source_class: FactSourceClass::Local,
            evidence_class: RoutingEvidenceClass::DirectObservation,
            origin_authentication: OriginAuthenticationClass::Unauthenticated,
            observed_at_tick,
        },
    )
}

fn engine() -> RoutingEngineId {
    RoutingEngineId::from_contract_bytes(*b"jq-ble-demo---01")
}

#[test]
fn local_delivery_is_represented_honestly() {
    let local_node_id = NodeId([1; 32]);
    let route_id = RouteId([1; 16]);
    let topology = topology(local_node_id, Tick(7))
        .with_node(MeshNode::local(local_node_id, node(1)))
        .with_active_route(
            active_route(
                route_id,
                local_node_id,
                DestinationId::Node(local_node_id),
                local_node_id,
                engine(),
                Tick(7),
            )
            .local()
            .build(),
        )
        .build()
        .expect("build local topology");

    let active_route = topology
        .active_route(&route_id)
        .expect("local route present");
    assert!(matches!(active_route.delivery, ActiveRouteDelivery::Local));
    assert!(active_route.protocol_mix.is_empty());
    assert_eq!(active_route.hop_node_ids(), vec![local_node_id]);
}

#[test]
fn direct_delivery_stays_coherent_with_ble_gatt_edge() {
    let local_node_id = NodeId([1; 32]);
    let remote_node_id = NodeId([2; 32]);
    let route_id = RouteId([2; 16]);
    let topology = topology(local_node_id, Tick(9))
        .with_node(MeshNode::local(local_node_id, node(1)))
        .with_node(MeshNode::remote(remote_node_id, node(2)))
        .with_edge(edge(1, 2, TransportKind::BleGatt, Tick(9)))
        .with_active_route(
            active_route(
                route_id,
                local_node_id,
                DestinationId::Node(remote_node_id),
                remote_node_id,
                engine(),
                Tick(9),
            )
            .direct(remote_node_id)
            .with_protocol_mix(vec![TransportKind::BleGatt])
            .build(),
        )
        .build()
        .expect("build direct topology");

    let active_route = topology
        .active_route(&route_id)
        .expect("direct route present");
    assert_eq!(
        active_route.hop_node_ids(),
        vec![local_node_id, remote_node_id]
    );
    assert_eq!(active_route.protocol_mix, vec![TransportKind::BleGatt]);
    assert_eq!(
        topology
            .edge(local_node_id, remote_node_id)
            .expect("edge present")
            .transport_kind(),
        &TransportKind::BleGatt
    );
}

#[test]
fn reachable_delivery_does_not_overclaim_multi_hop_path_structure() {
    let local_node_id = NodeId([1; 32]);
    let relay_node_id = NodeId([2; 32]);
    let remote_node_id = NodeId([3; 32]);
    let route_id = RouteId([3; 16]);
    let topology = topology(local_node_id, Tick(11))
        .with_node(MeshNode::local(local_node_id, node(1)))
        .with_node(MeshNode::remote(relay_node_id, node(2)))
        .with_node(MeshNode::remote(remote_node_id, node(3)))
        .with_edge(edge(1, 2, TransportKind::BleGatt, Tick(11)))
        .with_edge(edge(2, 3, TransportKind::BleL2cap, Tick(11)))
        .with_active_route(
            active_route(
                route_id,
                local_node_id,
                DestinationId::Node(remote_node_id),
                remote_node_id,
                engine(),
                Tick(11),
            )
            .reachable(2)
            .with_shape_visibility(RouteShapeVisibility::NextHopOnly)
            .with_protocol_mix(vec![TransportKind::BleGatt, TransportKind::BleL2cap])
            .build(),
        )
        .build()
        .expect("build reachable topology");

    let active_route = topology
        .active_route(&route_id)
        .expect("reachable route present");
    assert_eq!(
        active_route.hop_node_ids(),
        vec![local_node_id, remote_node_id]
    );
    assert_eq!(
        active_route.protocol_mix,
        vec![TransportKind::BleGatt, TransportKind::BleL2cap]
    );
    assert!(matches!(
        active_route.delivery,
        ActiveRouteDelivery::Reachable { hop_count_hint: 2 }
    ));
}

#[test]
fn reachable_delivery_accepts_non_authoritative_protocol_mix_without_path_validation() {
    let local_node_id = NodeId([1; 32]);
    let relay_node_id = NodeId([2; 32]);
    let remote_node_id = NodeId([3; 32]);
    let route_id = RouteId([4; 16]);
    let topology = topology(local_node_id, Tick(13))
        .with_node(MeshNode::local(local_node_id, node(1)))
        .with_node(MeshNode::remote(relay_node_id, node(2)))
        .with_node(MeshNode::remote(remote_node_id, node(3)))
        .with_edge(edge(1, 2, TransportKind::BleGatt, Tick(13)))
        .with_edge(edge(2, 3, TransportKind::BleL2cap, Tick(13)))
        .with_active_route(
            active_route(
                route_id,
                local_node_id,
                DestinationId::Node(remote_node_id),
                remote_node_id,
                engine(),
                Tick(13),
            )
            .reachable(3)
            .with_protocol_mix(vec![TransportKind::BleGatt])
            .build(),
        )
        .build()
        .expect("reachable delivery should not validate an inferred path");

    let active_route = topology.active_route(&route_id).expect("reachable route");
    assert_eq!(active_route.protocol_mix, vec![TransportKind::BleGatt]);
}

#[test]
fn reachable_delivery_requires_a_multi_hop_hint() {
    let local_node_id = NodeId([1; 32]);
    let remote_node_id = NodeId([2; 32]);
    let route_id = RouteId([5; 16]);
    let error = topology(local_node_id, Tick(15))
        .with_node(MeshNode::local(local_node_id, node(1)))
        .with_node(MeshNode::remote(remote_node_id, node(2)))
        .with_active_route(
            active_route(
                route_id,
                local_node_id,
                DestinationId::Node(remote_node_id),
                remote_node_id,
                engine(),
                Tick(15),
            )
            .reachable(1)
            .build(),
        )
        .build()
        .expect_err("reachable delivery should require more than one hop");

    assert_eq!(
        error,
        MeshTopologyBuildError::ReachableDeliveryRequiresMultiHop { route_id }
    );
}

fn local() -> NodeId {
    NodeId([1; 32])
}

fn remote() -> NodeId {
    NodeId([2; 32])
}

fn refusal(builder: jq_ble::authoring::MeshTopologyBuilder) -> MeshTopologyBuildError {
    builder.build().expect_err("the topology is refused")
}

fn two_nodes() -> jq_ble::authoring::MeshTopologyBuilder {
    topology(local(), Tick(1))
        .with_node(MeshNode::local(local(), node(1)))
        .with_node(MeshNode::remote(remote(), node(2)))
}

fn route_to(terminal: NodeId) -> jq_ble::authoring::ActiveRouteBuilder {
    active_route(
        RouteId([8; 16]),
        local(),
        DestinationId::Node(terminal),
        terminal,
        engine(),
        Tick(1),
    )
}

#[test]
fn a_topology_without_its_local_node_is_refused() {
    assert_eq!(
        refusal(topology(local(), Tick(1))),
        MeshTopologyBuildError::MissingLocalNode { node_id: local() }
    );
    assert_eq!(
        refusal(topology(local(), Tick(1)).with_node(MeshNode::remote(local(), node(1)))),
        MeshTopologyBuildError::MissingLocalNode { node_id: local() }
    );
}

#[test]
fn nodes_edges_and_routes_appear_once() {
    assert_eq!(
        refusal(two_nodes().with_node(MeshNode::remote(remote(), node(3)))),
        MeshTopologyBuildError::DuplicateNode { node_id: remote() }
    );
    assert_eq!(
        refusal(
            two_nodes()
                .with_edge(edge(1, 2, TransportKind::BleGatt, Tick(1)))
                .with_edge(edge(1, 2, TransportKind::BleL2cap, Tick(2)))
        ),
        MeshTopologyBuildError::DuplicateEdge {
            from_node_id: local(),
            to_node_id: remote(),
        }
    );
    assert_eq!(
        refusal(
            two_nodes()
                .with_active_route(route_to(local()).local().build())
                .with_active_route(route_to(local()).local().build())
        ),
        MeshTopologyBuildError::DuplicateRoute {
            route_id: RouteId([8; 16])
        }
    );
}

#[test]
fn edges_join_nodes_that_are_known() {
    assert_eq!(
        refusal(two_nodes().with_edge(edge(1, 9, TransportKind::BleGatt, Tick(1)))),
        MeshTopologyBuildError::EdgeReferencesUnknownNode {
            from_node_id: local(),
            to_node_id: NodeId([9; 32]),
            missing_node_id: NodeId([9; 32]),
        }
    );
}

#[test]
fn routes_join_nodes_that_are_known() {
    let stranger = NodeId([9; 32]);
    assert_eq!(
        refusal(
            two_nodes().with_active_route(
                active_route(
                    RouteId([8; 16]),
                    stranger,
                    DestinationId::Node(local()),
                    local(),
                    engine(),
                    Tick(1),
                )
                .reachable(2)
                .build()
            )
        ),
        MeshTopologyBuildError::RouteOwnerMissing {
            route_id: RouteId([8; 16]),
            owner_node_id: stranger,
        }
    );
    assert_eq!(
        refusal(two_nodes().with_active_route(route_to(stranger).reachable(2).build())),
        MeshTopologyBuildError::RouteTerminalMissing {
            route_id: RouteId([8; 16]),
            terminal_node_id: stranger,
        }
    );
}

#[test]
fn local_delivery_stays_local() {
    assert_eq!(
        refusal(two_nodes().with_active_route(route_to(remote()).local().build())),
        MeshTopologyBuildError::LocalDeliveryTargetsRemote {
            route_id: RouteId([8; 16]),
            owner_node_id: local(),
            terminal_node_id: remote(),
        }
    );
    assert_eq!(
        refusal(
            two_nodes().with_active_route(
                route_to(local())
                    .local()
                    .with_protocol_mix(vec![TransportKind::BleGatt])
                    .build()
            )
        ),
        MeshTopologyBuildError::LocalDeliveryHasProtocolMix {
            route_id: RouteId([8; 16])
        }
    );
}

#[test]
fn direct_delivery_names_its_terminal_and_uses_its_edge() {
    assert_eq!(
        refusal(two_nodes().with_active_route(route_to(remote()).direct(local()).build())),
        MeshTopologyBuildError::DirectDeliveryNextHopMismatch {
            route_id: RouteId([8; 16]),
            next_hop_node_id: local(),
            terminal_node_id: remote(),
        }
    );
    assert_eq!(
        refusal(two_nodes().with_active_route(route_to(remote()).direct(remote()).build())),
        MeshTopologyBuildError::RouteMissingEdge {
            route_id: RouteId([8; 16]),
            from_node_id: local(),
            to_node_id: remote(),
        }
    );
    assert_eq!(
        refusal(
            two_nodes()
                .with_edge(edge(1, 2, TransportKind::BleL2cap, Tick(1)))
                .with_active_route(
                    route_to(remote())
                        .direct(remote())
                        .with_protocol_mix(vec![TransportKind::BleGatt])
                        .build()
                )
        ),
        MeshTopologyBuildError::RouteProtocolMixMissingTransport {
            route_id: RouteId([8; 16]),
            transport_kind: TransportKind::BleL2cap,
        }
    );
}

#[test]
fn direct_delivery_needs_two_ends() {
    let looped = edge(1, 1, TransportKind::BleGatt, Tick(1));
    assert_eq!(
        refusal(
            two_nodes().with_edge(looped).with_active_route(
                route_to(local())
                    .direct(local())
                    .with_protocol_mix(vec![TransportKind::BleGatt])
                    .build()
            )
        ),
        MeshTopologyBuildError::DirectDeliveryCollapsesToLocal {
            route_id: RouteId([8; 16])
        }
    );
    assert_eq!(
        refusal(two_nodes().with_active_route(route_to(local()).direct(local()).build())),
        MeshTopologyBuildError::DirectDeliveryCollapsesToLocal {
            route_id: RouteId([8; 16])
        }
    );
    assert_eq!(
        refusal(two_nodes().with_active_route(route_to(local()).direct(remote()).build())),
        MeshTopologyBuildError::DirectDeliveryNextHopMismatch {
            route_id: RouteId([8; 16]),
            next_hop_node_id: remote(),
            terminal_node_id: local(),
        }
    );
}

#[test]
fn reachable_delivery_needs_two_ends() {
    assert_eq!(
        refusal(two_nodes().with_active_route(route_to(local()).reachable(2).build())),
        MeshTopologyBuildError::ReachableDeliveryCollapsesToDirect {
            route_id: RouteId([8; 16])
        }
    );
}

#[test]
fn a_topology_keeps_every_part_that_it_was_given() {
    let built = two_nodes()
        .with_edge(edge(2, 1, TransportKind::BleGatt, Tick(1)))
        .with_edge(edge(1, 2, TransportKind::BleL2cap, Tick(2)))
        .with_active_route(route_to(local()).local().build())
        .build()
        .expect("build");
    assert_eq!(built.nodes.len(), 2);
    assert_eq!(built.node(&remote()).expect("kept").node, node(2));
    assert_eq!(built.edges.len(), 2);
    assert_eq!(
        built.edge(local(), remote()).expect("kept").transport_kind(),
        &TransportKind::BleL2cap
    );
    assert_eq!(
        built.edge(remote(), local()).expect("kept").transport_kind(),
        &TransportKind::BleGatt
    );
    assert_eq!(built.active_routes.len(), 1);
    assert!(built.active_route(&RouteId([8; 16])).is_some());
}

#[test]
fn a_copy_of_a_topology_is_the_same_and_a_change_is_noticed() {
    let first = two_nodes()
        .with_edge(edge(1, 2, TransportKind::BleGatt, Tick(1)))
        .build()
        .expect("build");
    let second = two_nodes()
        .with_edge(edge(1, 2, TransportKind::BleL2cap, Tick(1)))
        .build()
        .expect("build");
    assert!(first.same(&first.duplicate()));
    assert!(!first.same(&second));
    let described = MeshNode::remote(remote(), node(2));
    let copy = described.duplicate();
    assert_eq!(copy.node, node(2));
    assert!(described.same(&copy));
    assert!(!described.same(&MeshNode::remote(remote(), node(3))), "the profile counts");
}
