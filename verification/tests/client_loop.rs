//! The loop of the client.

use jq_ble::bridge::{
    BleBridgeProgress, BleBridgeRoundReport, BleBridgeWaitDecision, BleBridgeWaitState,
    RouterRoundOutcome, RoutingTickChange, RoutingTickHint,
};
use jq_ble::client::CLIENT_COMMAND_DRAIN_MAX;
use jq_ble::client_loop::{
    ClientLoop, ClientLoopAction, ClientLoopState, DrivenRound, RoundStep, TakenRequest, WakeUp,
    after_first_round, after_follow_up,
};
use jq_ble::identity::Tick;

fn waiting() -> ClientLoop {
    ClientLoop {
        state: ClientLoopState::Waiting,
    }
}

fn driving() -> ClientLoop {
    ClientLoop {
        state: ClientLoopState::Driving,
    }
}

#[test]
fn a_client_that_is_asked_to_stop_serves_nothing_more() {
    let (position, action) = ClientLoop::begin();
    assert_eq!(action, ClientLoopAction::CheckShutdown);
    assert_eq!(
        position.shutdown_checked(true),
        (
            ClientLoop {
                state: ClientLoopState::Stopped
            },
            ClientLoopAction::Stop
        )
    );
    let (position, action) = position.shutdown_checked(false);
    assert_eq!(position.state, ClientLoopState::Serving { served: 0 });
    assert_eq!(action, ClientLoopAction::TakeRequest);
}

#[test]
fn requests_are_served_up_to_the_limit_before_a_round() {
    let (position, _) = ClientLoop::begin();
    let (mut position, mut action) = position.shutdown_checked(false);
    let mut served = 0;
    while action == ClientLoopAction::TakeRequest {
        (position, action) = position.request_taken(TakenRequest::Served);
        served += 1;
    }
    assert_eq!(served, 64);
    assert_eq!(served, CLIENT_COMMAND_DRAIN_MAX);
    assert_eq!(action, ClientLoopAction::DriveRound);
    assert_eq!(position, driving());
}

#[test]
fn a_round_follows_when_no_request_is_there_and_the_end_when_none_can_come() {
    let (position, _) = ClientLoop::begin();
    let (position, _) = position.shutdown_checked(false);
    assert_eq!(
        position.request_taken(TakenRequest::Empty).1,
        ClientLoopAction::DriveRound
    );
    assert_eq!(
        position.request_taken(TakenRequest::Closed).1,
        ClientLoopAction::Stop
    );
}

#[test]
fn the_outcome_of_a_round_decides_how_to_wait() {
    let after = |decision| {
        driving()
            .round_driven(DrivenRound::Waiting {
                decision,
                notifier_snapshot: 9,
            })
            .1
    };
    assert_eq!(
        driving().round_driven(DrivenRound::Advanced).1,
        ClientLoopAction::CheckShutdown
    );
    assert_eq!(
        after(BleBridgeWaitDecision::AdvanceImmediately),
        ClientLoopAction::CheckShutdown
    );
    assert_eq!(
        after(BleBridgeWaitDecision::WaitUntilTick(Tick(3))),
        ClientLoopAction::WaitForTicks {
            ticks: Tick(3),
            snapshot: 9
        }
    );
    assert_eq!(
        after(BleBridgeWaitDecision::BlockOnNotifier { snapshot: 7 }),
        ClientLoopAction::WaitForNotifier { snapshot: 7 }
    );
    assert_eq!(
        driving().round_driven(DrivenRound::Failed),
        (waiting(), ClientLoopAction::BackOff)
    );
}

#[test]
fn a_wait_ends_the_client_only_on_request_or_when_abandoned_by_its_callers() {
    let goes_on = |wake_up| waiting().woken(wake_up).1 == ClientLoopAction::CheckShutdown;
    assert!(goes_on(WakeUp::Served));
    assert!(goes_on(WakeUp::Notified));
    assert!(goes_on(WakeUp::Elapsed));
    assert!(goes_on(WakeUp::Shutdown {
        abandoned: true,
        requested: true
    }));
    assert!(goes_on(WakeUp::Shutdown {
        abandoned: false,
        requested: false
    }));
    assert_eq!(
        waiting()
            .woken(WakeUp::Shutdown {
                abandoned: false,
                requested: true
            })
            .1,
        ClientLoopAction::Stop
    );
    assert_eq!(
        waiting().woken(WakeUp::Closed).1,
        ClientLoopAction::Stop
    );
}

#[test]
fn at_most_one_round_follows_another_and_changes_of_both_are_published() {
    let advanced = |next_round_hint| {
        BleBridgeProgress::Advanced(Box::new(BleBridgeRoundReport {
            router_outcome: RouterRoundOutcome {
                topology_epoch: 1,
                engine_change: RoutingTickChange::NoChange,
                next_round_hint,
                canonical_mutation: jacquard_core::RouterCanonicalMutation::None,
            },
            ingested_transport_observations: vec![],
            flushed_transport_commands: 0,
            dropped_transport_observations: 0,
        }))
    };
    assert_eq!(
        after_first_round(&advanced(RoutingTickHint::Immediate), true),
        RoundStep::FollowUp { changed: true }
    );
    assert_eq!(
        after_first_round(&advanced(RoutingTickHint::HostDefault), true),
        RoundStep::Finish {
            publish_topology: true
        }
    );
    let idle = BleBridgeProgress::Waiting(BleBridgeWaitState {
        next_round_hint: RoutingTickHint::Immediate,
        pending_transport_observations: 0,
        pending_transport_commands: 0,
        dropped_transport_observations: 0,
        notifier_snapshot: 0,
    });
    assert_eq!(
        after_first_round(&idle, false),
        RoundStep::Finish {
            publish_topology: false
        }
    );
    assert_eq!(
        after_follow_up(true, false),
        RoundStep::Finish {
            publish_topology: true
        }
    );
    assert_eq!(
        after_follow_up(false, false),
        RoundStep::Finish {
            publish_topology: false
        }
    );
}
