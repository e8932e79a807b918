//! Rounds of the host bridge: stamping, waiting, and the order of what is taken in and sent.

use std::cell::RefCell;
use std::rc::Rc;

use jq_ble::bridge::{
    BleBridgeConfig, BleBridgeIo, BleBridgeProgress, BleBridgeRouter, BleBridgeTickSource,
    BleBridgeWaitDecision, BleBridgeWaitState, BleHostBridge, MonotonicBleTickSource,
    RouterRoundOutcome, RoutingTickChange, RoutingTickHint, stage_events,
};
use jq_ble::cast::raw_ble_link_observed_event;
use jq_ble::effects::BleRuntimeState;
use jq_ble::endpoint::{ByteCount, EndpointLocator, LinkEndpoint, TransportKind};
use jq_ble::errors::{BleBridgeError, RouteError, RouteRuntimeError, TransportError};
use jq_ble::identity::{NodeId, OrderStamp, Tick};
use jq_ble::link::{TransportIngressEvent, TransportObservation};

fn endpoint(byte: u8) -> LinkEndpoint {
    LinkEndpoint::new(
        TransportKind::BleGatt,
        EndpointLocator::ScopedBytes {
            scope: "ble".to_owned(),
            bytes: vec![byte],
        },
        ByteCount(128),
    )
}

fn link_observed(byte: u8) -> TransportIngressEvent {
    raw_ble_link_observed_event(NodeId([byte; 32]), endpoint(byte))
}

fn observed_node(observation: &TransportObservation) -> (NodeId, Tick) {
    match observation {
        TransportObservation::LinkObserved {
            remote_node_id,
            observation,
        } => (*remote_node_id, observation.observed_at_tick),
        other => panic!("unexpected observation: {other:?}"),
    }
}

#[derive(Debug)]
struct TestRouter {
    ingested: Rc<RefCell<Vec<(NodeId, Tick)>>>,
    refuses: Option<NodeId>,
    outbound: Option<Rc<RefCell<Vec<Vec<u8>>>>>,
    next_hint: RoutingTickHint,
    change: RoutingTickChange,
}

impl TestRouter {
    fn new(next_hint: RoutingTickHint, change: RoutingTickChange) -> Self {
        Self {
            ingested: Rc::new(RefCell::new(Vec::new())),
            refuses: None,
            outbound: None,
            next_hint,
            change,
        }
    }
}

impl BleBridgeRouter for TestRouter {
    fn ingest_transport_observation(
        &mut self,
        observation: &TransportObservation,
    ) -> Result<(), RouteError> {
        let seen = observed_node(observation);
        self.ingested.borrow_mut().push(seen);
        if self.refuses == Some(seen.0) {
            return Err(RouteError::Runtime(RouteRuntimeError::Invalidated));
        }
        Ok(())
    }

    fn advance_round(&mut self) -> Result<RouterRoundOutcome, RouteError> {
        if let Some(queue) = &self.outbound {
            queue.borrow_mut().push(b"first".to_vec());
            queue.borrow_mut().push(b"second".to_vec());
        }
        Ok(RouterRoundOutcome {
            topology_epoch: 1,
            engine_change: self.change,
            next_round_hint: self.next_hint,
            canonical_mutation: jacquard_core::RouterCanonicalMutation::None,
        })
    }
}

#[derive(Debug)]
struct FakeTransport {
    ingress: Rc<RefCell<Vec<TransportIngressEvent>>>,
    outbound: Rc<RefCell<Vec<Vec<u8>>>>,
    fails: bool,
}

impl FakeTransport {
    fn new() -> Self {
        Self {
            ingress: Rc::new(RefCell::new(Vec::new())),
            outbound: Rc::new(RefCell::new(Vec::new())),
            fails: false,
        }
    }
}

impl BleBridgeIo for FakeTransport {
    fn drain_raw_ingress(&mut self) -> Result<Vec<TransportIngressEvent>, TransportError> {
        if self.fails {
            return Err(TransportError::Unavailable);
        }
        Ok(self.ingress.borrow_mut().drain(..).collect())
    }

    fn pending_outbound(&self) -> usize {
        self.outbound.borrow().len()
    }

    fn notifier_snapshot(&self) -> u64 {
        17
    }
}

#[test]
fn ingress_is_stamped_in_bridge_only() {
    let transport = FakeTransport::new();
    let ingress = transport.ingress.clone();
    let router = TestRouter::new(RoutingTickHint::HostDefault, RoutingTickChange::NoChange);
    let ingested = router.ingested.clone();
    let mut bridge = BleHostBridge::new(router, transport, Tick(9), BleBridgeConfig::default());

    ingress.borrow_mut().push(link_observed(7));

    let started = bridge.begin_round().expect("advance round");
    let BleBridgeProgress::Advanced(report) = bridge.finish_round(started, 0) else {
        panic!("expected advanced progress");
    };
    assert_eq!(report.ingested_transport_observations.len(), 1);
    assert_eq!(
        observed_node(&report.ingested_transport_observations[0]),
        (NodeId([7; 32]), Tick(9))
    );
    assert_eq!(ingested.borrow().len(), 1);
}

#[test]
fn wait_decision_uses_notifier_and_router_hint() {
    let mut bridge = BleHostBridge::new(
        TestRouter::new(RoutingTickHint::HostDefault, RoutingTickChange::NoChange),
        FakeTransport::new(),
        Tick(1),
        BleBridgeConfig::default(),
    );

    let started = bridge.begin_round().expect("advance round");
    let BleBridgeProgress::Waiting(wait_state) = bridge.finish_round(started, 0) else {
        panic!("expected waiting progress");
    };
    let decision = bridge.wait_decision(&wait_state);
    assert_eq!(decision, BleBridgeWaitDecision::BlockOnNotifier { snapshot: 17 });
    assert_eq!(decision.parks_on(false), Some(17));
    assert_eq!(decision.parks_on(true), None, "new events are not slept through");

    let waiting = |hint, commands| BleBridgeWaitState {
        next_round_hint: hint,
        pending_transport_observations: 0,
        pending_transport_commands: commands,
        dropped_transport_observations: 0,
        notifier_snapshot: 17,
    };
    assert_eq!(
        bridge.wait_decision(&waiting(RoutingTickHint::Immediate, 0)),
        BleBridgeWaitDecision::AdvanceImmediately
    );
    let hinted = bridge.wait_decision(&waiting(RoutingTickHint::WithinTicks(Tick(4)), 0));
    assert_eq!(hinted, BleBridgeWaitDecision::WaitUntilTick(Tick(4)));
    assert_eq!(hinted.parks_on(false), None);
    assert_eq!(
        bridge.wait_decision(&waiting(RoutingTickHint::HostDefault, 1)),
        BleBridgeWaitDecision::AdvanceImmediately
    );
}

#[test]
fn outbound_batches_are_flushed_after_round_in_fifo_order() {
    let transport = FakeTransport::new();
    let outbound = transport.outbound.clone();
    let mut router = TestRouter::new(
        RoutingTickHint::HostDefault,
        RoutingTickChange::PrivateStateUpdated,
    );
    router.outbound = Some(outbound.clone());
    let mut bridge = BleHostBridge::new(router, transport, Tick(1), BleBridgeConfig::default());

    let started = bridge.begin_round().expect("advance round");
    let flushed: Vec<Vec<u8>> = outbound.borrow_mut().drain(..).collect();
    let BleBridgeProgress::Advanced(report) = bridge.finish_round(started, flushed.len()) else {
        panic!("expected advanced progress");
    };
    assert_eq!(report.flushed_transport_commands, 2);
    assert_eq!(flushed.len(), 2);
    assert_eq!(flushed[0], b"first");
    assert_eq!(flushed[1], b"second");
}

#[test]
fn events_beyond_the_capacity_are_dropped_and_counted() {
    let transport = FakeTransport::new();
    let ingress = transport.ingress.clone();
    let mut bridge = BleHostBridge::new(
        TestRouter::new(RoutingTickHint::HostDefault, RoutingTickChange::NoChange),
        transport,
        Tick(3),
        BleBridgeConfig {
            inbound_capacity: 2,
        },
    );
    for byte in 1..=5 {
        ingress.borrow_mut().push(link_observed(byte));
    }
    let started = bridge.begin_round().expect("advance round");
    let BleBridgeProgress::Advanced(report) = bridge.finish_round(started, 0) else {
        panic!("expected advanced progress");
    };
    let taken: Vec<(NodeId, Tick)> = report
        .ingested_transport_observations
        .iter()
        .map(observed_node)
        .collect();
    assert_eq!(taken, vec![(NodeId([1; 32]), Tick(3)), (NodeId([2; 32]), Tick(3))]);
    assert_eq!(report.dropped_transport_observations, 3);

    let started = bridge.begin_round().expect("advance round");
    assert!(matches!(bridge.finish_round(started, 0), BleBridgeProgress::Waiting(_)));
    let (none, dropped) = stage_events(vec![link_observed(1)], Tick(1), 0, usize::MAX);
    assert!(none.is_empty());
    assert_eq!(dropped, usize::MAX);
}

#[test]
fn a_refused_observation_ends_the_round() {
    let transport = FakeTransport::new();
    let ingress = transport.ingress.clone();
    let mut router = TestRouter::new(RoutingTickHint::HostDefault, RoutingTickChange::NoChange);
    router.refuses = Some(NodeId([2; 32]));
    let ingested = router.ingested.clone();
    let mut bridge = BleHostBridge::new(router, transport, Tick(1), BleBridgeConfig::default());
    for byte in 1..=3 {
        ingress.borrow_mut().push(link_observed(byte));
    }
    let error = bridge.begin_round().expect_err("the second observation is refused");
    assert_eq!(
        error,
        BleBridgeError::Route(RouteError::Runtime(RouteRuntimeError::Invalidated))
    );
    assert_eq!(ingested.borrow().len(), 2);
}

#[test]
fn drops_of_a_failed_round_are_reported_by_the_next_one() {
    let transport = FakeTransport::new();
    let ingress = transport.ingress.clone();
    let mut router = TestRouter::new(RoutingTickHint::HostDefault, RoutingTickChange::NoChange);
    router.refuses = Some(NodeId([2; 32]));
    let mut bridge = BleHostBridge::new(
        router,
        transport,
        Tick(1),
        BleBridgeConfig {
            inbound_capacity: 2,
        },
    );
    for byte in 1..=5 {
        ingress.borrow_mut().push(link_observed(byte));
    }
    assert!(bridge.begin_round().is_err());
    for byte in 6..=8 {
        ingress.borrow_mut().push(link_observed(byte));
    }
    let started = bridge.begin_round().expect("advance round");
    let BleBridgeProgress::Advanced(report) = bridge.finish_round(started, 0) else {
        panic!("expected advanced progress");
    };
    assert_eq!(report.ingested_transport_observations.len(), 2);
    assert_eq!(report.dropped_transport_observations, 4, "three of the first, one of the second");
    ingress.borrow_mut().push(link_observed(9));
    let started = bridge.begin_round().expect("advance round");
    let BleBridgeProgress::Advanced(report) = bridge.finish_round(started, 0) else {
        panic!("expected advanced progress");
    };
    assert_eq!(report.dropped_transport_observations, 0, "they are reported once");
}

#[test]
fn a_transport_that_fails_ends_the_round() {
    let mut transport = FakeTransport::new();
    transport.fails = true;
    let mut bridge = BleHostBridge::new(
        TestRouter::new(RoutingTickHint::HostDefault, RoutingTickChange::NoChange),
        transport,
        Tick(1),
        BleBridgeConfig::default(),
    );
    let error = bridge.begin_round().expect_err("nothing can be taken in");
    assert_eq!(error, BleBridgeError::Transport(TransportError::Unavailable));
    assert_eq!(bridge.clock.next_tick, Tick(2), "time moved on");
    assert!(bridge.router().ingested.borrow().is_empty());
}

#[test]
fn clocks_count_up_and_stop_at_the_end() {
    let mut clock = MonotonicBleTickSource::new(Tick(u64::MAX - 1));
    assert_eq!(clock.advance_tick(), Tick(u64::MAX - 1));
    assert_eq!(clock.advance_tick(), Tick(u64::MAX));
    assert_eq!(clock.advance_tick(), Tick(u64::MAX));
}

#[test]
fn a_router_reads_the_tick_of_the_round() {
    let mut state = BleRuntimeState::default();
    assert_eq!(state.now_tick(), Tick(1));
    assert_eq!(state.advance_tick(), Tick(1));
    assert_eq!(state.now_tick(), Tick(1));
    assert_eq!(state.advance_tick(), Tick(2));
    assert_eq!(state.now_tick(), Tick(2));
    assert_eq!(state.next_order_stamp(), OrderStamp(1));
    assert_eq!(state.next_order_stamp(), OrderStamp(2));
}

#[test]
fn stored_bytes_are_read_back() {
    let mut state = BleRuntimeState::new(Tick(4));
    assert_eq!(state.load_bytes(b"key"), None);
    state.store_bytes(b"key", b"one");
    state.store_bytes(b"other", b"two");
    state.store_bytes(b"key", b"three");
    assert_eq!(state.load_bytes(b"key"), Some(b"three".to_vec()));
    assert_eq!(state.load_bytes(b"other"), Some(b"two".to_vec()));
    state.remove_bytes(b"key");
    assert_eq!(state.load_bytes(b"key"), None);
    assert_eq!(state.load_bytes(b"other"), Some(b"two".to_vec()));
}
