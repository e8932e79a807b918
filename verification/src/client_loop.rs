//! The loop of the client: serve requests, drive a round, and wait for work.

use crate::bridge::{BleBridgeProgress, BleBridgeWaitDecision, RoutingTickHint};
use crate::client::{wants_follow_up, CLIENT_COMMAND_DRAIN_MAX};
use crate::identity::Tick;
use vstd::prelude::*;

verus! {

/// Where the client is in its loop.
#[derive(Clone, Copy, Debug, PartialEq, Eq, Structural)]
pub enum ClientLoopState {
    /// About to see whether it was asked to stop.
    Starting,
    /// Serving requests that are there already.
    Serving { served: usize },
    /// Driving a round.
    Driving,
    /// Waiting for work.
    Waiting,
    Stopped,
}

/// What the client does next.
#[derive(Clone, Copy, Debug, PartialEq, Eq, Structural)]
pub enum ClientLoopAction {
    /// See whether it was asked to stop.
    CheckShutdown,
    /// Take a request and serve it, if one is there.
    TakeRequest,
    /// Drive a round.
    DriveRound,
    /// Wait for work, and for a number of ticks at most, unless the notifier moved on from a position.
    WaitForTicks { ticks: Tick, snapshot: u64 },
    /// Wait for work, unless the notifier moved on from a position.
    WaitForNotifier { snapshot: u64 },
    /// Wait for work, and for one tick at most.
    BackOff,
    Stop,
}

/// What became of a request.
#[derive(Clone, Copy, Debug, PartialEq, Eq, Structural)]
pub enum TakenRequest {
    /// One was there and was served.
    Served,
    /// None is there.
    Empty,
    /// Nobody can send requests any more.
    Closed,
}

/// What ended a wait.
#[derive(Clone, Copy, Debug, PartialEq, Eq, Structural)]
pub enum WakeUp {
    /// The signal to stop changed, or nobody can give it any more.
    Shutdown { abandoned: bool, requested: bool },
    /// A request came and was served.
    Served,
    /// Nobody can send requests any more.
    Closed,
    /// The transport has something.
    Notified,
    /// The time is up.
    Elapsed,
}

/// What came of a round, as far as the loop cares.
#[derive(Clone, Copy, Debug, PartialEq, Eq, Structural)]
pub enum DrivenRound {
    Advanced,
    /// It did nothing; this is what the bridge decided then, and where the notifier stood.
    Waiting { decision: BleBridgeWaitDecision, notifier_snapshot: u64 },
    Failed,
}

/// The client in its loop.
#[derive(Clone, Copy, Debug, PartialEq, Eq, Structural)]
pub struct ClientLoop {
    pub state: ClientLoopState,
}

/// The loop that is about to start over.
pub open spec fn starts_over(next: (ClientLoop, ClientLoopAction)) -> bool {
    next.0.state is Starting && next.1 is CheckShutdown
}

/// The loop that drives a round.
pub open spec fn drives(next: (ClientLoop, ClientLoopAction)) -> bool {
    next.0.state is Driving && next.1 is DriveRound
}

/// The loop that ends.
pub open spec fn stops(next: (ClientLoop, ClientLoopAction)) -> bool {
    next.0.state is Stopped && next.1 is Stop
}

/// What the client waits for after a round that did nothing.
pub open spec fn wait_for(decision: BleBridgeWaitDecision, notifier_snapshot: u64) -> Option<
    ClientLoopAction,
> {
    match decision {
        BleBridgeWaitDecision::AdvanceImmediately => None,
        BleBridgeWaitDecision::WaitUntilTick(ticks) => Some(
            ClientLoopAction::WaitForTicks { ticks, snapshot: notifier_snapshot },
        ),
        BleBridgeWaitDecision::BlockOnNotifier { snapshot } => Some(
            ClientLoopAction::WaitForNotifier { snapshot },
        ),
    }
}

/// Whether the client goes on after a wait.
pub open spec fn goes_on(wake_up: WakeUp) -> bool {
    match wake_up {
        WakeUp::Shutdown { abandoned, requested } => abandoned || !requested,
        WakeUp::Closed => false,
        _ => true,
    }
}

/// Where looking for a request leads: requests are served until none is there, and no more of them
/// than the limit before the next round.
pub open spec fn takes(
    before: ClientLoopState,
    taken: TakenRequest,
    next: (ClientLoop, ClientLoopAction),
) -> bool {
    match taken {
        TakenRequest::Served => if before->served + 1 < CLIENT_COMMAND_DRAIN_MAX {
            &&& next.0.state matches ClientLoopState::Serving { served }
            &&& served == before->served + 1
            &&& next.1 is TakeRequest
        } else {
            drives(next)
        },
        TakenRequest::Empty => drives(next),
        TakenRequest::Closed => stops(next),
    }
}

impl ClientLoop {
    /// The client at the start of its loop.
    pub fn begin() -> (next: (ClientLoop, ClientLoopAction))
        ensures
            starts_over(next),
    {
        (ClientLoop { state: ClientLoopState::Starting }, ClientLoopAction::CheckShutdown)
    }

    /// Goes on once it is known whether the client was asked to stop.
    pub fn shutdown_checked(self, requested: bool) -> (next: (ClientLoop, ClientLoopAction))
        requires
            self.state is Starting,
        ensures
            requested ==> stops(next),
            !requested ==> next.0.state == (ClientLoopState::Serving { served: 0 })
                && next.1 is TakeRequest,
    {
        if requested {
            Self::stop()
        } else {
            (
                ClientLoop { state: ClientLoopState::Serving { served: 0 } },
                ClientLoopAction::TakeRequest,
            )
        }
    }

    fn stop() -> (next: (ClientLoop, ClientLoopAction))
        ensures
            stops(next),
    {
        (ClientLoop { state: ClientLoopState::Stopped }, ClientLoopAction::Stop)
    }

    /// Goes on once a request was looked for. Requests are served until none is there, and no more
    /// of them than the limit before the next round.
    pub fn request_taken(self, taken: TakenRequest) -> (next: (ClientLoop, ClientLoopAction))
        requires
            self.state matches ClientLoopState::Serving { served } && served
                < CLIENT_COMMAND_DRAIN_MAX,
        ensures
            takes(self.state, taken, next),
    {
        let driving = (
            ClientLoop { state: ClientLoopState::Driving },
            ClientLoopAction::DriveRound,
        );
        match (taken, self.state) {
            (TakenRequest::Served, ClientLoopState::Serving { served }) => {
                let served: usize = served + 1;
                if served < CLIENT_COMMAND_DRAIN_MAX {
                    (
                        ClientLoop { state: ClientLoopState::Serving { served } },
                        ClientLoopAction::TakeRequest,
                    )
                } else {
                    driving
                }
            },
            (TakenRequest::Closed, _) => Self::stop(),
            _ => driving,
        }
    }

    /// Goes on once a round was driven: at once after a round that did something, after a wait if it
    /// did nothing, and after a short wait if it failed.
    pub fn round_driven(self, driven: DrivenRound) -> (next: (ClientLoop, ClientLoopAction))
        requires
            self.state is Driving,
        ensures
            match driven {
                DrivenRound::Advanced => starts_over(next),
                DrivenRound::Waiting { decision, notifier_snapshot } => match wait_for(
                    decision,
                    notifier_snapshot,
                ) {
                    Some(action) => next.0.state is Waiting && next.1 == action,
                    None => starts_over(next),
                },
                DrivenRound::Failed => next.0.state is Waiting && next.1 is BackOff,
            },
    {
        let waiting = ClientLoop { state: ClientLoopState::Waiting };
        match driven {
            DrivenRound::Advanced => Self::begin(),
            DrivenRound::Waiting { decision, notifier_snapshot } => match decision {
                BleBridgeWaitDecision::AdvanceImmediately => Self::begin(),
                BleBridgeWaitDecision::WaitUntilTick(ticks) => (
                    waiting,
                    ClientLoopAction::WaitForTicks { ticks, snapshot: notifier_snapshot },
                ),
                BleBridgeWaitDecision::BlockOnNotifier { snapshot } => (
                    waiting,
                    ClientLoopAction::WaitForNotifier { snapshot },
                ),
            },
            DrivenRound::Failed => (waiting, ClientLoopAction::BackOff),
        }
    }

    /// Goes on after a wait, unless the client was asked to stop or nobody can ask anything of it.
    pub fn woken(self, wake_up: WakeUp) -> (next: (ClientLoop, ClientLoopAction))
        requires
            self.state is Waiting,
        ensures
            goes_on(wake_up) ==> starts_over(next),
            !goes_on(wake_up) ==> stops(next),
    {
        let going_on = match wake_up {
            WakeUp::Shutdown { abandoned, requested } => abandoned || !requested,
            WakeUp::Closed => false,
            WakeUp::Served | WakeUp::Notified | WakeUp::Elapsed => true,
        };
        if going_on {
            Self::begin()
        } else {
            Self::stop()
        }
    }
}

/// What to do after a round that was driven for a request or for the loop.
#[derive(Clone, Copy, Debug, PartialEq, Eq, Structural)]
pub enum RoundStep {
    /// Run another round at once; it is noted whether the topology changed so far.
    FollowUp { changed: bool },
    /// That is all; the topology is to be published if it says so.
    Finish { publish_topology: bool },
}

/// Decides what to do after the first round: another one at once if the router asked for it.
pub fn after_first_round(progress: &BleBridgeProgress, changed: bool) -> (step: RoundStep)
    ensures
        step == if (progress matches BleBridgeProgress::Advanced(report)
            && report.router_outcome.next_round_hint == RoutingTickHint::Immediate) {
            RoundStep::FollowUp { changed }
        } else {
            RoundStep::Finish { publish_topology: changed }
        },
{
    if wants_follow_up(progress) {
        RoundStep::FollowUp { changed }
    } else {
        RoundStep::Finish { publish_topology: changed }
    }
}

/// Decides what to do after the second round: no third one, whatever the router asks for.
pub fn after_follow_up(changed_before: bool, changed: bool) -> (step: RoundStep)
    ensures
        step == (RoundStep::Finish { publish_topology: changed_before || changed }),
{
    RoundStep::Finish { publish_topology: changed_before || changed }
}

/// How many requests the client may still serve before it drives a round.
pub open spec fn requests_left(state: ClientLoopState) -> int {
    match state {
        ClientLoopState::Serving { served } => CLIENT_COMMAND_DRAIN_MAX - served,
        _ => 0,
    }
}

/// A flood of requests cannot keep the client from its rounds: every request that is served brings
/// the next round closer.
pub proof fn law_requests_do_not_starve_rounds(
    before: ClientLoopState,
    taken: TakenRequest,
    next: (ClientLoop, ClientLoopAction),
)
    requires
        before matches ClientLoopState::Serving { served } && served < CLIENT_COMMAND_DRAIN_MAX,
        takes(before, taken, next),
    ensures
        drives(next) || stops(next) || next.1 is TakeRequest && 0 < requests_left(next.0.state)
            < requests_left(before),
        requests_left(before) <= CLIENT_COMMAND_DRAIN_MAX,
{
}

/// The client stops waiting for good only if it was asked to stop or nobody can send it requests.
pub proof fn law_client_stops_only_when_asked(wake_up: WakeUp)
    ensures
        !goes_on(wake_up) <==> wake_up is Closed || wake_up == (WakeUp::Shutdown {
            abandoned: false,
            requested: true,
        }),
{
}

/// Requests are served as long as there are any: after one that was served the client looks for the
/// next, until it served as many as the limit allows in a row, and drives a round as soon as it found
/// none. It stops exactly if nobody can send requests any more.
pub proof fn law_waiting_requests_are_served(
    before: ClientLoopState,
    taken: TakenRequest,
    next: (ClientLoop, ClientLoopAction),
)
    requires
        before matches ClientLoopState::Serving { served } && served < CLIENT_COMMAND_DRAIN_MAX,
        takes(before, taken, next),
    ensures
        next.1 is TakeRequest <==> taken is Served && before->served + 1
            < CLIENT_COMMAND_DRAIN_MAX,
        next.1 is TakeRequest ==> next.0.state == (ClientLoopState::Serving {
            served: (before->served + 1) as usize,
        }),
        next.1 is DriveRound <==> taken is Empty || taken is Served && before->served + 1
            == CLIENT_COMMAND_DRAIN_MAX,
        next.1 is DriveRound ==> next.0.state is Driving,
        next.1 is Stop <==> taken is Closed,
        next.1 is Stop ==> next.0.state is Stopped,
{
}

/// After a round that did nothing the client waits for just what the bridge decided: not at all, for
/// as many ticks as it says, or for the notifier, from the position that the decision names.
pub proof fn law_client_waits_as_the_bridge_decided(
    decision: BleBridgeWaitDecision,
    notifier_snapshot: u64,
)
    ensures
        wait_for(decision, notifier_snapshot) is None <==> decision is AdvanceImmediately,
        decision matches BleBridgeWaitDecision::WaitUntilTick(until) ==> {
            &&& wait_for(decision, notifier_snapshot) matches Some(action)
            &&& action matches ClientLoopAction::WaitForTicks { ticks, snapshot }
            &&& ticks == until
            &&& snapshot == notifier_snapshot
        },
        decision matches BleBridgeWaitDecision::BlockOnNotifier { snapshot: since } ==> {
            &&& wait_for(decision, notifier_snapshot) matches Some(action)
            &&& action matches ClientLoopAction::WaitForNotifier { snapshot }
            &&& snapshot == since
        },
{
}

/// What the loop does next always fits where it is.
pub proof fn law_loop_does_what_its_state_says(next: (ClientLoop, ClientLoopAction))
    ensures
        starts_over(next) <==> next.0.state is Starting && next.1 is CheckShutdown,
        drives(next) <==> next.0.state is Driving && next.1 is DriveRound,
        stops(next) <==> next.0.state is Stopped && next.1 is Stop,
        !(starts_over(next) && drives(next)),
        !(starts_over(next) && stops(next)),
        !(drives(next) && stops(next)),
{
}

/// The loop goes the way that it should, from each of its states: a stop that was asked for ends it
/// before anything is served, a round that did something or is due at once starts it over, and a round
/// that failed is followed by a short wait. A wait ends it only if it was asked to stop or nobody can
/// send requests any more.
pub proof fn law_loop_goes_on_unless_asked_to_stop(
    client: ClientLoop,
    requested: bool,
    checked: (ClientLoop, ClientLoopAction),
    driven: DrivenRound,
    after_round: (ClientLoop, ClientLoopAction),
    wake_up: WakeUp,
    after_wait: (ClientLoop, ClientLoopAction),
)
    requires
        call_ensures(ClientLoop::shutdown_checked, (client, requested), checked),
        call_ensures(ClientLoop::round_driven, (client, driven), after_round),
        call_ensures(ClientLoop::woken, (client, wake_up), after_wait),
    ensures
        checked.1 is Stop <==> requested,
        checked.1 is TakeRequest <==> !requested,
        !requested ==> checked.0.state == (ClientLoopState::Serving { served: 0 }),
        driven is Advanced ==> after_round.1 is CheckShutdown && after_round.0.state is Starting,
        driven is Failed ==> after_round.1 is BackOff && after_round.0.state is Waiting,
        driven matches DrivenRound::Waiting { decision, notifier_snapshot } ==> {
            &&& decision is AdvanceImmediately ==> after_round.1 is CheckShutdown
            &&& decision matches BleBridgeWaitDecision::WaitUntilTick(until) ==> after_round.1 == (
            ClientLoopAction::WaitForTicks { ticks: until, snapshot: notifier_snapshot })
            &&& decision matches BleBridgeWaitDecision::BlockOnNotifier { snapshot: since }
                ==> after_round.1 == (ClientLoopAction::WaitForNotifier { snapshot: since })
        },
        after_wait.1 is Stop <==> wake_up is Closed || wake_up == (WakeUp::Shutdown {
            abandoned: false,
            requested: true,
        }),
        !(after_wait.1 is Stop) ==> after_wait.1 is CheckShutdown && after_wait.0.state is Starting,
{
}

/// Looking for a request leads to the next one as long as the limit allows, to a round if there is
/// none or the limit is reached, and to the end if nobody can send any.
pub proof fn law_requests_are_taken_in_turn(
    client: ClientLoop,
    taken: TakenRequest,
    next: (ClientLoop, ClientLoopAction),
)
    requires
        client.state matches ClientLoopState::Serving { served } && served
            < CLIENT_COMMAND_DRAIN_MAX,
        call_ensures(ClientLoop::request_taken, (client, taken), next),
    ensures
        next.1 is TakeRequest <==> taken is Served && client.state->served + 1
            < CLIENT_COMMAND_DRAIN_MAX,
        next.1 is Stop <==> taken is Closed,
        !(next.1 is TakeRequest) && !(next.1 is Stop) ==> next.1 is DriveRound,
{
    law_waiting_requests_are_served(client.state, taken, next);
}

/// After the first round another one follows exactly if the router asked for it, and after the second
/// none does; the topology is published exactly if one of the rounds changed it.
pub proof fn law_at_most_one_round_follows(
    progress: BleBridgeProgress,
    changed: bool,
    first: RoundStep,
    changed_again: bool,
    second: RoundStep,
)
    requires
        call_ensures(after_first_round, (&progress, changed), first),
        call_ensures(after_follow_up, (changed, changed_again), second),
    ensures
        first is FollowUp <==> progress is Advanced
            && progress->Advanced_0.router_outcome.next_round_hint is Immediate,
        first is FollowUp ==> first->changed == changed,
        first is Finish ==> first->publish_topology == changed,
        second is Finish,
        second->publish_topology <==> changed || changed_again,
{
}

} // verus!
