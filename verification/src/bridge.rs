//! The host bridge between the transport and the router.
//!
//! A round takes the events that the transport collected, gives them their place in logical time,
//! hands them to the router, advances the router once, and sends what the router queued. Only the
//! bridge stamps events.

use crate::errors::{BleBridgeError, RouteError, TransportError};
use crate::identity::Tick;
use crate::link::{observed_at, TransportIngressEvent, TransportObservation};
use vstd::prelude::*;

verus! {

/// `jacquard_core::RouterCanonicalMutation`: what a round changed among the routes. It is carried
/// from the router to whoever follows the routes, and never looked into on the way.
#[verifier::external_type_specification]
#[verifier::external_body]
pub struct ExRouterCanonicalMutation(jacquard_core::RouterCanonicalMutation);

/// Whether a round changed the private state of an engine.
#[derive(Clone, Copy, Debug, PartialEq, Eq, Structural)]
pub enum RoutingTickChange {
    NoChange,
    PrivateStateUpdated,
}

/// When the router wants its next round.
#[derive(Clone, Copy, Debug, PartialEq, Eq, Structural)]
pub enum RoutingTickHint {
    HostDefault,
    Immediate,
    WithinTicks(Tick),
}

/// What a round of the router did.
#[derive(Debug, PartialEq, Eq)]
pub struct RouterRoundOutcome {
    pub topology_epoch: u64,
    pub engine_change: RoutingTickChange,
    pub next_round_hint: RoutingTickHint,
    pub canonical_mutation: jacquard_core::RouterCanonicalMutation,
}

/// A router, as the bridge uses it. The two relations say what an implementation does on each call;
/// the bridge relies on nothing else. An implementation that says nothing may do anything.
pub trait BleBridgeRouter: Sized {
    /// What handing over one observation does.
    open spec fn ingests(
        before: Self,
        observation: TransportObservation,
        after: Self,
        result: Result<(), RouteError>,
    ) -> bool {
        true
    }

    /// What one round does.
    open spec fn advances(
        before: Self,
        after: Self,
        result: Result<RouterRoundOutcome, RouteError>,
    ) -> bool {
        true
    }

    fn ingest_transport_observation(&mut self, observation: &TransportObservation) -> (result:
        Result<(), RouteError>)
        ensures
            Self::ingests(*old(self), *observation, *final(self), result),
    ;

    fn advance_round(&mut self) -> (result: Result<RouterRoundOutcome, RouteError>)
        ensures
            Self::advances(*old(self), *final(self), result),
    ;
}

/// A transport, as the bridge uses it.
pub trait BleBridgeIo: Sized {
    /// What taking the collected events does.
    open spec fn drains(
        before: Self,
        after: Self,
        result: Result<Vec<TransportIngressEvent>, TransportError>,
    ) -> bool {
        true
    }

    /// Whether so many commands may wait to be sent.
    open spec fn pends(&self, count: usize) -> bool {
        true
    }

    /// Whether the notifier of new events may stand there.
    open spec fn stands(&self, snapshot: u64) -> bool {
        true
    }

    fn drain_raw_ingress(&mut self) -> (result: Result<Vec<TransportIngressEvent>, TransportError>)
        ensures
            Self::drains(*old(self), *final(self), result),
    ;

    fn pending_outbound(&self) -> (count: usize)
        ensures
            self.pends(count),
    ;

    fn notifier_snapshot(&self) -> (snapshot: u64)
        ensures
            self.stands(snapshot),
    ;
}

/// A source of logical time.
pub trait BleBridgeTickSource: Sized {
    /// What advancing does.
    open spec fn ticks(before: Self, after: Self, tick: Tick) -> bool {
        true
    }

    fn advance_tick(&mut self) -> (tick: Tick)
        ensures
            Self::ticks(*old(self), *final(self), tick),
    ;
}

/// The tick that follows another; the last tick follows itself, so that time never runs backwards.
pub open spec fn tick_after(tick: Tick) -> Tick {
    if tick.0 < u64::MAX {
        Tick((tick.0 + 1) as u64)
    } else {
        tick
    }
}

/// A clock that counts rounds.
#[derive(Clone, Copy, Debug, PartialEq, Eq, Structural)]
pub struct MonotonicBleTickSource {
    pub next_tick: Tick,
}

impl MonotonicBleTickSource {
    /// A clock that starts at a tick.
    pub fn new(initial_tick: Tick) -> (clock: Self)
        ensures
            clock.next_tick == initial_tick,
    {
        MonotonicBleTickSource { next_tick: initial_tick }
    }
}

impl BleBridgeTickSource for MonotonicBleTickSource {
    open spec fn ticks(before: Self, after: Self, tick: Tick) -> bool {
        tick == before.next_tick && after.next_tick == tick_after(before.next_tick)
    }

    fn advance_tick(&mut self) -> (tick: Tick) {
        let tick = self.next_tick;
        self.next_tick = Tick(self.next_tick.0.saturating_add(1));
        tick
    }
}

/// Time never runs backwards, and moves on until the last tick is reached.
pub proof fn law_time_moves_forward(tick: Tick)
    ensures
        tick_after(tick).0 >= tick.0,
        tick.0 < u64::MAX ==> tick_after(tick).0 > tick.0,
{
}

/// Rounds that follow each other have ticks that follow each other, without a gap, until the last
/// tick is reached; from then on they all have that one.
pub proof fn law_rounds_have_consecutive_ticks(
    clock: MonotonicBleTickSource,
    later: MonotonicBleTickSource,
    latest: MonotonicBleTickSource,
    first: Tick,
    second: Tick,
)
    requires
        MonotonicBleTickSource::ticks(clock, later, first),
        MonotonicBleTickSource::ticks(later, latest, second),
    ensures
        first == clock.next_tick,
        first.0 < u64::MAX ==> second.0 == first.0 + 1,
        first.0 == u64::MAX ==> second == first,
{
}

/// Limits of the bridge.
#[derive(Clone, Copy, Debug, PartialEq, Eq, Structural)]
pub struct BleBridgeConfig {
    /// How many events a round takes in.
    pub inbound_capacity: u32,
}

/// The default limit on the events of a round.
pub const INBOUND_CAPACITY_MAX: u32 = 1024;

impl Default for BleBridgeConfig {
    fn default() -> (config: Self)
        ensures
            config.inbound_capacity == INBOUND_CAPACITY_MAX,
    {
        BleBridgeConfig { inbound_capacity: INBOUND_CAPACITY_MAX }
    }
}

/// What a round did that did something.
#[derive(Debug)]
pub struct BleBridgeRoundReport {
    pub router_outcome: RouterRoundOutcome,
    pub ingested_transport_observations: Vec<TransportObservation>,
    pub flushed_transport_commands: u32,
    pub dropped_transport_observations: u32,
}

/// What is known after a round that did nothing.
#[derive(Clone, Copy, Debug, PartialEq, Eq, Structural)]
pub struct BleBridgeWaitState {
    pub next_round_hint: RoutingTickHint,
    pub pending_transport_observations: u32,
    pub pending_transport_commands: u32,
    pub dropped_transport_observations: u32,
    pub notifier_snapshot: u64,
}

/// What came of a round.
#[derive(Debug)]
pub enum BleBridgeProgress {
    Advanced(Box<BleBridgeRoundReport>),
    Waiting(BleBridgeWaitState),
}

/// What to do before the next round.
#[derive(Clone, Copy, Debug, PartialEq, Eq, Structural)]
pub enum BleBridgeWaitDecision {
    AdvanceImmediately,
    WaitUntilTick(Tick),
    BlockOnNotifier { snapshot: u64 },
}

/// What to do before the next round: work that waits goes first, then what the router asked for.
pub open spec fn decision_for(wait_state: BleBridgeWaitState) -> BleBridgeWaitDecision {
    if wait_state.pending_transport_observations > 0 || wait_state.pending_transport_commands > 0 {
        BleBridgeWaitDecision::AdvanceImmediately
    } else {
        match wait_state.next_round_hint {
            RoutingTickHint::Immediate => BleBridgeWaitDecision::AdvanceImmediately,
            RoutingTickHint::WithinTicks(tick) => BleBridgeWaitDecision::WaitUntilTick(tick),
            RoutingTickHint::HostDefault => BleBridgeWaitDecision::BlockOnNotifier {
                snapshot: wait_state.notifier_snapshot,
            },
        }
    }
}

impl BleBridgeWaitDecision {
    /// Whether to block, and since which position of the notifier, given whether that position is
    /// behind already.
    pub fn parks_on(self, changed_since_snapshot: bool) -> (position: Option<u64>)
        ensures
            position == (match self {
                BleBridgeWaitDecision::BlockOnNotifier { snapshot } => if changed_since_snapshot {
                    None::<u64>
                } else {
                    Some(snapshot)
                },
                _ => None::<u64>,
            }),
    {
        match self {
            BleBridgeWaitDecision::BlockOnNotifier { snapshot } => {
                if changed_since_snapshot {
                    None
                } else {
                    Some(snapshot)
                }
            },
            _ => None,
        }
    }
}

/// A count as a report gives it: one that is too large is the largest.
pub open spec fn narrowed(value: usize) -> u32 {
    if value <= u32::MAX {
        value as u32
    } else {
        u32::MAX
    }
}

fn narrow_count(value: usize) -> (count: u32)
    ensures
        count == narrowed(value),
{
    if value <= u32::MAX as usize {
        value as u32
    } else {
        u32::MAX
    }
}

/// The lesser of two counts.
pub open spec fn lesser(a: nat, b: nat) -> nat {
    if a <= b {
        a
    } else {
        b
    }
}

/// The observations that a round takes in: the first events, up to the capacity, in their order,
/// with the tick of the round.
pub open spec fn staged(
    events: Seq<TransportIngressEvent>,
    tick: Tick,
    capacity: nat,
) -> Seq<TransportObservation> {
    Seq::new(lesser(events.len(), capacity), |i: int| observed_at(events[i], tick))
}

/// How many events were dropped in all, after another round.
pub open spec fn dropped_after(dropped: usize, events: nat, capacity: nat) -> usize {
    let total = dropped + events - lesser(events, capacity);
    if total <= usize::MAX {
        total as usize
    } else {
        usize::MAX
    }
}

/// Takes the events of a round in: as many as the capacity admits are stamped and kept in order,
/// the rest are dropped and counted.
pub fn stage_events(
    raw_events: Vec<TransportIngressEvent>,
    observed_at_tick: Tick,
    inbound_capacity: usize,
    dropped: usize,
) -> (result: (Vec<TransportObservation>, usize))
    ensures
        result.0@ == staged(raw_events@, observed_at_tick, inbound_capacity as nat),
        result.1 == dropped_after(dropped, raw_events@.len(), inbound_capacity as nat),
{
    let mut observations: Vec<TransportObservation> = Vec::new();
    let mut dropped_now: usize = dropped;
    let ghost events = raw_events@;
    for event in iter: raw_events
        invariant
            iter.seq() == events,
            observations@ == staged(
                events.take(iter.index() as int),
                observed_at_tick,
                inbound_capacity as nat,
            ),
            dropped_now == dropped_after(dropped, iter.index() as nat, inbound_capacity as nat),
    {
        let ghost seen = iter.index() as int;
        proof {
            assert(event == events[seen]);
            assert(events.take(seen + 1) =~= events.take(seen).push(events[seen]));
        }
        if observations.len() >= inbound_capacity {
            dropped_now = dropped_now.saturating_add(1);
            assert(observations@ =~= staged(
                events.take(seen + 1),
                observed_at_tick,
                inbound_capacity as nat,
            ));
        } else {
            observations.push(event.observe_at(observed_at_tick));
            assert(observations@ =~= staged(
                events.take(seen + 1),
                observed_at_tick,
                inbound_capacity as nat,
            ));
        }
    }
    proof {
        assert(events.take(events.len() as int) =~= events);
    }
    (observations, dropped_now)
}

/// Nothing is lost uncounted: every event of a round is taken in or counted as dropped, as long as
/// the count does not overflow. What is taken in keeps its order and bears the tick of the round.
pub proof fn law_staging_conserves_events(
    events: Seq<TransportIngressEvent>,
    tick: Tick,
    capacity: nat,
    dropped: usize,
)
    requires
        dropped + events.len() <= usize::MAX,
    ensures
        staged(events, tick, capacity).len() <= capacity,
        staged(events, tick, capacity).len() + dropped_after(dropped, events.len(), capacity)
            == events.len() + dropped,
        forall|i: int|
            0 <= i < staged(events, tick, capacity).len() ==> #[trigger] staged(
                events,
                tick,
                capacity,
            )[i] == observed_at(events[i], tick),
        events.len() <= capacity ==> dropped_after(dropped, events.len(), capacity) == dropped,
{
}

/// The states that a router goes through as observations are handed over one after the other, where
/// all but the last are taken and the last one ends in `last`.
pub open spec fn ingests_in_turn<R: BleBridgeRouter>(
    states: Seq<R>,
    observations: Seq<TransportObservation>,
    last: Result<(), RouteError>,
) -> bool {
    &&& states.len() == observations.len() + 1
    &&& observations.len() == 0 ==> last is Ok
    &&& forall|i: int|
        0 <= i < observations.len() ==> R::ingests(
            states[i],
            #[trigger] observations[i],
            states[i + 1],
            if i + 1 < observations.len() {
                Ok(())
            } else {
                last
            },
        )
}

/// The synchronous part of a round that went well.
#[derive(Debug)]
pub struct StartedRound {
    pub router_outcome: RouterRoundOutcome,
    pub ingested: Vec<TransportObservation>,
}

/// What a router makes of observations that are handed over in their order until one is refused.
pub open spec fn refuses_one<R: BleBridgeRouter>(
    before: R,
    observations: Seq<TransportObservation>,
    after: R,
    error: RouteError,
) -> bool {
    exists|states: Seq<R>, handed: int|
        0 < handed <= observations.len() && #[trigger] ingests_in_turn(
            states,
            observations.take(handed),
            Err(error),
        ) && states[0] == before && states.last() == after
}

/// What a router makes of the observations of a round: they are handed over in their order until
/// one is refused, and then the router is advanced.
pub open spec fn router_round<R: BleBridgeRouter>(
    before: R,
    observations: Seq<TransportObservation>,
    after: R,
    result: Result<RouterRoundOutcome, RouteError>,
) -> bool {
    ||| result matches Err(error) && refuses_one(before, observations, after, error)
    ||| exists|states: Seq<R>| #[trigger]
        ingests_in_turn(states, observations, Ok(())) && states[0] == before && R::advances(
            states.last(),
            after,
            result,
        )
}

/// Hands the observations of a round to a router in their order, and advances it. The first refusal
/// ends the round.
fn drive_router<R: BleBridgeRouter>(
    router: &mut R,
    observations: &Vec<TransportObservation>,
) -> (result: Result<RouterRoundOutcome, RouteError>)
    ensures
        router_round(*old(router), observations@, *final(router), result),
{
    let ghost before = *router;
    let ghost all = observations@;
    let ghost mut states: Seq<R> = seq![before];
    let mut i: usize = 0;
    while i < observations.len()
        invariant
            all == observations@,
            before == *old(router),
            i <= all.len(),
            states[0] == before,
            states.last() == *router,
            ingests_in_turn(states, all.take(i as int), Ok(())),
        decreases all.len() - i,
    {
        let handed = router.ingest_transport_observation(&observations[i]);
        proof {
            let next = all.take(i + 1);
            let earlier = states;
            states = states.push(*router);
            assert forall|j: int| 0 <= j < next.len() implies R::ingests(
                states[j],
                #[trigger] next[j],
                states[j + 1],
                if j + 1 < next.len() {
                    Ok(())
                } else {
                    handed
                },
            ) by {
                if j < i {
                    assert(all.take(i as int)[j] == next[j]);
                    assert(states[j] == earlier[j] && states[j + 1] == earlier[j + 1]);
                }
            }
            assert(ingests_in_turn(states, next, handed));
        }
        match handed {
            Ok(()) => {
                assert(handed->Ok_0 == ());
            },
            Err(error) => {
                assert(ingests_in_turn(states, all.take(i + 1), Err(error)));
                assert(refuses_one(before, all, *router, error));
                return Err(error);
            },
        }
        i = i + 1;
    }
    proof {
        assert(all.take(i as int) =~= all);
    }
    router.advance_round()
}

/// What came of a round, from what each part of it did: a round in which nothing was taken in,
/// sent, dropped or changed is a round after which to wait.
pub open spec fn progress_is(
    progress: BleBridgeProgress,
    started: StartedRound,
    flushed: usize,
    dropped: usize,
    pending_outbound: usize,
    snapshot: u64,
) -> bool {
    if started.ingested@.len() == 0 && flushed == 0 && dropped == 0
        && started.router_outcome.engine_change == RoutingTickChange::NoChange {
        progress == BleBridgeProgress::Waiting(
            BleBridgeWaitState {
                next_round_hint: started.router_outcome.next_round_hint,
                pending_transport_observations: 0,
                pending_transport_commands: narrowed(pending_outbound),
                dropped_transport_observations: 0,
                notifier_snapshot: snapshot,
            },
        )
    } else {
        &&& progress matches BleBridgeProgress::Advanced(report)
        &&& report.router_outcome == started.router_outcome
        &&& report.ingested_transport_observations == started.ingested
        &&& report.flushed_transport_commands == narrowed(flushed)
        &&& report.dropped_transport_observations == narrowed(dropped)
    }
}

/// Says what came of a round, from what each part of it did.
pub fn round_progress(
    started: StartedRound,
    flushed: usize,
    dropped: usize,
    pending_outbound: usize,
    snapshot: u64,
) -> (progress: BleBridgeProgress)
    ensures
        progress_is(progress, started, flushed, dropped, pending_outbound, snapshot),
{
    if started.ingested.len() == 0 && flushed == 0 && dropped == 0
        && started.router_outcome.engine_change == RoutingTickChange::NoChange {
        return BleBridgeProgress::Waiting(
            BleBridgeWaitState {
                next_round_hint: started.router_outcome.next_round_hint,
                pending_transport_observations: 0,
                pending_transport_commands: narrow_count(pending_outbound),
                dropped_transport_observations: 0,
                notifier_snapshot: snapshot,
            },
        );
    }
    BleBridgeProgress::Advanced(
        Box::new(
            BleBridgeRoundReport {
                router_outcome: started.router_outcome,
                ingested_transport_observations: started.ingested,
                flushed_transport_commands: narrow_count(flushed),
                dropped_transport_observations: narrow_count(dropped),
            },
        ),
    )
}

/// Drives rounds over a router, a transport and a clock.
#[derive(Debug)]
pub struct BleHostBridge<Router, Transport, Clock> {
    pub router: Router,
    pub transport: Transport,
    pub clock: Clock,
    pub inbound_capacity: usize,
    /// Events dropped since the last round that was reported.
    pub dropped_transport_observations: usize,
}

/// What the synchronous part of a round does. Logical time advances by one tick, and the events
/// that the transport hands over get it; where the transport fails nothing else happens.
pub open spec fn begins_round<R: BleBridgeRouter, T: BleBridgeIo, C: BleBridgeTickSource>(
    before: BleHostBridge<R, T, C>,
    after: BleHostBridge<R, T, C>,
    tick: Tick,
    drained: Result<Vec<TransportIngressEvent>, TransportError>,
    result: Result<StartedRound, BleBridgeError>,
) -> bool {
    &&& C::ticks(before.clock, after.clock, tick)
    &&& T::drains(before.transport, after.transport, drained)
    &&& after.inbound_capacity == before.inbound_capacity
    &&& match drained {
        Err(error) => {
            &&& after.router == before.router
            &&& after.dropped_transport_observations == before.dropped_transport_observations
            &&& result == Err::<StartedRound, BleBridgeError>(BleBridgeError::Transport(error))
        },
        Ok(events) => {
            let observations = staged(events@, tick, before.inbound_capacity as nat);
            &&& after.dropped_transport_observations == dropped_after(
                before.dropped_transport_observations,
                events@.len(),
                before.inbound_capacity as nat,
            )
            &&& match result {
                Ok(started) => {
                    &&& started.ingested@ == observations
                    &&& router_round(
                        before.router,
                        observations,
                        after.router,
                        Ok(started.router_outcome),
                    )
                },
                Err(BleBridgeError::Route(error)) => router_round(
                    before.router,
                    observations,
                    after.router,
                    Err(error),
                ),
                Err(BleBridgeError::Transport(_)) => false,
            }
        },
    }
}

/// What the end of a round does: it reports the round, with every event that was dropped since the
/// last report, and counts anew.
pub open spec fn finishes_round<R: BleBridgeRouter, T: BleBridgeIo, C: BleBridgeTickSource>(
    before: BleHostBridge<R, T, C>,
    after: BleHostBridge<R, T, C>,
    started: StartedRound,
    flushed: usize,
    progress: BleBridgeProgress,
) -> bool {
    &&& exists|pending: usize, snapshot: u64|
        before.transport.pends(pending) && before.transport.stands(snapshot)
            && #[trigger] progress_is(
            progress,
            started,
            flushed,
            before.dropped_transport_observations,
            pending,
            snapshot,
        )
    &&& after.dropped_transport_observations == 0
    &&& after.router == before.router
    &&& after.transport == before.transport
    &&& after.clock == before.clock
    &&& after.inbound_capacity == before.inbound_capacity
}

impl<Router: BleBridgeRouter, Transport: BleBridgeIo> BleHostBridge<
    Router,
    Transport,
    MonotonicBleTickSource,
> {
    /// A bridge with a clock of its own.
    pub fn new(
        router: Router,
        transport: Transport,
        initial_tick: Tick,
        config: BleBridgeConfig,
    ) -> (bridge: Self)
        ensures
            bridge.router == router,
            bridge.transport == transport,
            bridge.clock.next_tick == initial_tick,
            bridge.inbound_capacity == config.inbound_capacity,
            bridge.dropped_transport_observations == 0,
    {
        Self::with_clock(router, transport, MonotonicBleTickSource::new(initial_tick), config)
    }
}

impl<Router: BleBridgeRouter, Transport: BleBridgeIo, Clock: BleBridgeTickSource> BleHostBridge<
    Router,
    Transport,
    Clock,
> {
    /// A bridge on a clock that others read too.
    pub fn with_clock(
        router: Router,
        transport: Transport,
        clock: Clock,
        config: BleBridgeConfig,
    ) -> (bridge: Self)
        ensures
            bridge.router == router,
            bridge.transport == transport,
            bridge.clock == clock,
            bridge.inbound_capacity == config.inbound_capacity,
            bridge.dropped_transport_observations == 0,
    {
        BleHostBridge {
            router,
            transport,
            clock,
            inbound_capacity: config.inbound_capacity as usize,
            dropped_transport_observations: 0,
        }
    }

    pub fn router(&self) -> (router: &Router)
        ensures
            *router == self.router,
    {
        &self.router
    }

    pub fn router_mut(&mut self) -> (router: &mut Router)
        ensures
            *router == old(self).router,
            final(self).router == *final(router),
            final(self).transport == old(self).transport,
            final(self).clock == old(self).clock,
            final(self).inbound_capacity == old(self).inbound_capacity,
            final(self).dropped_transport_observations == old(
                self,
            ).dropped_transport_observations,
    {
        &mut self.router
    }

    pub fn transport(&self) -> (transport: &Transport)
        ensures
            *transport == self.transport,
    {
        &self.transport
    }

    /// Advances time, takes in what the transport collected, hands it to the router, and advances
    /// the router. What the router queued is sent next; then the round is finished by
    /// [`BleHostBridge::finish_round`].
    pub fn begin_round(&mut self) -> (result: Result<StartedRound, BleBridgeError>)
        ensures
            exists|tick: Tick, drained: Result<Vec<TransportIngressEvent>, TransportError>|
                #[trigger] begins_round(*old(self), *final(self), tick, drained, result),
    {
        let ghost before = *self;
        let observed_at_tick = self.clock.advance_tick();
        let drained = self.transport.drain_raw_ingress();
        let ghost taken = drained;
        let raw_events = match drained {
            Ok(raw_events) => raw_events,
            Err(error) => {
                let result = Err(BleBridgeError::Transport(error));
                assert(begins_round(before, *self, observed_at_tick, taken, result));
                return result;
            },
        };
        let (ingested, dropped) = stage_events(
            raw_events,
            observed_at_tick,
            self.inbound_capacity,
            self.dropped_transport_observations,
        );
        self.dropped_transport_observations = dropped;
        let result = match drive_router(&mut self.router, &ingested) {
            Ok(router_outcome) => Ok(StartedRound { router_outcome, ingested }),
            Err(error) => Err(BleBridgeError::Route(error)),
        };
        assert(begins_round(before, *self, observed_at_tick, taken, result));
        result
    }

    /// Finishes a round after its commands were sent, and reports what it did. The count of dropped
    /// events starts anew.
    pub fn finish_round(&mut self, started: StartedRound, flushed: usize) -> (progress:
        BleBridgeProgress)
        ensures
            finishes_round(*old(self), *final(self), started, flushed, progress),
    {
        let dropped: usize = self.dropped_transport_observations;
        self.dropped_transport_observations = 0;
        let pending: usize = self.transport.pending_outbound();
        let snapshot: u64 = self.transport.notifier_snapshot();
        let progress = round_progress(started, flushed, dropped, pending, snapshot);
        assert(progress_is(progress, started, flushed, dropped, pending, snapshot));
        progress
    }

    /// What to do before the next round.
    pub fn wait_decision(&self, wait_state: &BleBridgeWaitState) -> (decision:
        BleBridgeWaitDecision)
        ensures
            decision == decision_for(*wait_state),
    {
        if wait_state.pending_transport_observations > 0 || wait_state.pending_transport_commands
            > 0 {
            return BleBridgeWaitDecision::AdvanceImmediately;
        }
        match wait_state.next_round_hint {
            RoutingTickHint::Immediate => BleBridgeWaitDecision::AdvanceImmediately,
            RoutingTickHint::WithinTicks(tick) => BleBridgeWaitDecision::WaitUntilTick(tick),
            RoutingTickHint::HostDefault => BleBridgeWaitDecision::BlockOnNotifier {
                snapshot: wait_state.notifier_snapshot,
            },
        }
    }
}

/// How many of some events a round drops.
pub open spec fn excess(events: nat, capacity: nat) -> int {
    events - lesser(events, capacity)
}

/// Events that were dropped in a round that failed, in the router or on the way out, are reported by
/// the next round that succeeds, together with its own, and only once: the count then starts anew.
/// `failed` is the bridge after the synchronous part of the first round; sending may have changed its
/// transport before the second round starts at `resumed`, and before that one ends at `sent`.
pub proof fn law_drops_of_a_failed_round_are_reported_once<
    R: BleBridgeRouter,
    T: BleBridgeIo,
    C: BleBridgeTickSource,
>(
    start: BleHostBridge<R, T, C>,
    failed: BleHostBridge<R, T, C>,
    resumed: BleHostBridge<R, T, C>,
    begun: BleHostBridge<R, T, C>,
    sent: BleHostBridge<R, T, C>,
    finished: BleHostBridge<R, T, C>,
    ticks: (Tick, Tick),
    first: Vec<TransportIngressEvent>,
    first_result: Result<StartedRound, BleBridgeError>,
    second: Vec<TransportIngressEvent>,
    started: StartedRound,
    flushed: usize,
    progress: BleBridgeProgress,
)
    requires
        start.dropped_transport_observations == 0,
        begins_round(start, failed, ticks.0, Ok(first), first_result),
        resumed == (BleHostBridge { transport: resumed.transport, ..failed }),
        begins_round(resumed, begun, ticks.1, Ok(second), Ok(started)),
        sent == (BleHostBridge { transport: sent.transport, ..begun }),
        finishes_round(sent, finished, started, flushed, progress),
        first@.len() > start.inbound_capacity,
        excess(first@.len(), start.inbound_capacity as nat) + excess(
            second@.len(),
            start.inbound_capacity as nat,
        ) <= u32::MAX,
    ensures
        progress matches BleBridgeProgress::Advanced(report) && {
            &&& report.dropped_transport_observations == excess(
                first@.len(),
                start.inbound_capacity as nat,
            ) + excess(second@.len(), start.inbound_capacity as nat)
            &&& report.ingested_transport_observations@.len() == lesser(
                second@.len(),
                start.inbound_capacity as nat,
            )
        },
        finished.dropped_transport_observations == 0,
{
}

/// Work that waits is never left waiting: the bridge blocks or sleeps only with nothing queued and
/// a router that did not ask for a round at once.
pub proof fn law_waiting_work_goes_first(wait_state: BleBridgeWaitState)
    ensures
        decision_for(wait_state) != BleBridgeWaitDecision::AdvanceImmediately ==> {
            &&& wait_state.pending_transport_observations == 0
            &&& wait_state.pending_transport_commands == 0
            &&& wait_state.next_round_hint != RoutingTickHint::Immediate
        },
{
}

/// What to do before the next round is fixed by what waits and by what the router asked for: a round
/// at once if anything waits or the router wants one now, a sleep until the tick that it named, and
/// otherwise a wait on the notifier from the position at which the last round stood.
pub proof fn law_wait_decision_follows_the_router(wait_state: BleBridgeWaitState, tick: Tick)
    ensures
        ({
            let waits = wait_state.pending_transport_observations > 0
                || wait_state.pending_transport_commands > 0;
            &&& decision_for(wait_state) == BleBridgeWaitDecision::AdvanceImmediately <==> waits
                || wait_state.next_round_hint == RoutingTickHint::Immediate
            &&& decision_for(wait_state) == BleBridgeWaitDecision::WaitUntilTick(tick) <==> !waits
                && wait_state.next_round_hint == RoutingTickHint::WithinTicks(tick)
            &&& decision_for(wait_state) is BlockOnNotifier <==> !waits
                && wait_state.next_round_hint == RoutingTickHint::HostDefault
            &&& decision_for(wait_state) matches BleBridgeWaitDecision::BlockOnNotifier { snapshot }
                ==> snapshot == wait_state.notifier_snapshot
        }),
{
}

/// Whether a report gives a count: the count itself, or the largest number where it does not fit.
pub open spec fn counts(reported: u32, count: usize) -> bool {
    reported == count || count > u32::MAX && reported == u32::MAX
}

/// A round is one to wait after exactly if nothing was taken in, sent or dropped and the engine of the
/// router reported no change. Every other round advanced, and its report holds the very outcome of
/// the router, everything that was taken in, and what was sent and dropped.
pub proof fn law_round_waits_only_if_idle(
    progress: BleBridgeProgress,
    started: StartedRound,
    flushed: usize,
    dropped: usize,
    pending_outbound: usize,
    snapshot: u64,
)
    requires
        progress_is(progress, started, flushed, dropped, pending_outbound, snapshot),
    ensures
        progress is Waiting <==> {
            &&& started.ingested@.len() == 0
            &&& flushed == 0
            &&& dropped == 0
            &&& started.router_outcome.engine_change == RoutingTickChange::NoChange
        },
        started.router_outcome.engine_change == RoutingTickChange::PrivateStateUpdated
            ==> progress is Advanced,
        progress matches BleBridgeProgress::Advanced(report) ==> {
            &&& report.router_outcome == started.router_outcome
            &&& report.ingested_transport_observations@ == started.ingested@
            &&& counts(report.flushed_transport_commands, flushed)
            &&& counts(report.dropped_transport_observations, dropped)
        },
        progress matches BleBridgeProgress::Waiting(wait_state) ==> {
            &&& wait_state.next_round_hint == started.router_outcome.next_round_hint
            &&& wait_state.pending_transport_observations == 0
            &&& wait_state.dropped_transport_observations == 0
            &&& counts(wait_state.pending_transport_commands, pending_outbound)
            &&& wait_state.notifier_snapshot == snapshot
        },
{
}

/// Finishing a round reports it as idle exactly if it was, counts the drops since the last report
/// into it, and changes nothing of the bridge but that count.
pub proof fn law_finished_round_is_reported_as_it_was<
    R: BleBridgeRouter,
    T: BleBridgeIo,
    C: BleBridgeTickSource,
>(
    before: BleHostBridge<R, T, C>,
    after: BleHostBridge<R, T, C>,
    started: StartedRound,
    flushed: usize,
    progress: BleBridgeProgress,
)
    requires
        finishes_round(before, after, started, flushed, progress),
    ensures
        progress is Waiting <==> {
            &&& started.ingested@.len() == 0
            &&& flushed == 0
            &&& before.dropped_transport_observations == 0
            &&& started.router_outcome.engine_change == RoutingTickChange::NoChange
        },
        progress matches BleBridgeProgress::Advanced(report) ==> {
            &&& report.router_outcome == started.router_outcome
            &&& report.ingested_transport_observations@ == started.ingested@
            &&& counts(report.flushed_transport_commands, flushed)
            &&& counts(
                report.dropped_transport_observations,
                before.dropped_transport_observations,
            )
        },
        progress matches BleBridgeProgress::Waiting(wait_state) ==> {
            &&& wait_state.next_round_hint == started.router_outcome.next_round_hint
            &&& before.transport.stands(wait_state.notifier_snapshot)
            &&& exists|pending: usize| #[trigger]
                before.transport.pends(pending) && counts(
                    wait_state.pending_transport_commands,
                    pending,
                )
        },
        after == (BleHostBridge { dropped_transport_observations: 0, ..before }),
{
    let (pending, snapshot) = choose|pending: usize, snapshot: u64|
        before.transport.pends(pending) && before.transport.stands(snapshot)
            && #[trigger] progress_is(
            progress,
            started,
            flushed,
            before.dropped_transport_observations,
            pending,
            snapshot,
        );
    law_round_waits_only_if_idle(
        progress,
        started,
        flushed,
        before.dropped_transport_observations,
        pending,
        snapshot,
    );
}

/// Whether a router took observations one after the other, each of them whole and in its turn.
pub open spec fn took_all<R: BleBridgeRouter>(
    states: Seq<R>,
    observations: Seq<TransportObservation>,
) -> bool {
    &&& states.len() == observations.len() + 1
    &&& forall|i: int|
        0 <= i < observations.len() ==> R::ingests(
            states[i],
            #[trigger] observations[i],
            states[i + 1],
            Ok(()),
        )
}

/// A round that started handed the router every event that there was room for, in order and with the
/// tick of the round, and then advanced it once; the outcome is the one that the router gave.
pub proof fn law_started_round_hands_everything_over<
    R: BleBridgeRouter,
    T: BleBridgeIo,
    C: BleBridgeTickSource,
>(
    before: BleHostBridge<R, T, C>,
    after: BleHostBridge<R, T, C>,
    tick: Tick,
    events: Vec<TransportIngressEvent>,
    started: StartedRound,
)
    requires
        begins_round(before, after, tick, Ok(events), Ok(started)),
    ensures
        C::ticks(before.clock, after.clock, tick),
        T::drains(before.transport, after.transport, Ok(events)),
        started.ingested@.len() == if events@.len() < before.inbound_capacity {
            events@.len()
        } else {
            before.inbound_capacity as nat
        },
        forall|i: int|
            0 <= i < started.ingested@.len() ==> #[trigger] started.ingested@[i] == observed_at(
                events@[i],
                tick,
            ),
        exists|states: Seq<R>| #[trigger]
            took_all(states, started.ingested@) && states[0] == before.router && R::advances(
                states.last(),
                after.router,
                Ok(started.router_outcome),
            ),
        before.dropped_transport_observations + events@.len() - started.ingested@.len()
            <= usize::MAX ==> after.dropped_transport_observations
            == before.dropped_transport_observations + events@.len() - started.ingested@.len(),
        after.inbound_capacity == before.inbound_capacity,
{
    let observations = staged(events@, tick, before.inbound_capacity as nat);
    let states = choose|states: Seq<R>| #[trigger]
        ingests_in_turn(states, observations, Ok(())) && states[0] == before.router && R::advances(
            states.last(),
            after.router,
            Ok(started.router_outcome),
        );
    assert(took_all(states, started.ingested@)) by {
        assert forall|i: int| 0 <= i < observations.len() implies R::ingests(
            states[i],
            #[trigger] observations[i],
            states[i + 1],
            Ok(()),
        ) by {}
    }
}

/// A round fails exactly where something refuses: with the error of the transport, before the router
/// hears anything, with the error that the router gave for an observation, after it took every earlier
/// one and before it heard of any later one, or with the error that it gave for the round, after it
/// took all of them.
pub proof fn law_failed_round_names_who_refused<
    R: BleBridgeRouter,
    T: BleBridgeIo,
    C: BleBridgeTickSource,
>(
    before: BleHostBridge<R, T, C>,
    after: BleHostBridge<R, T, C>,
    tick: Tick,
    drained: Result<Vec<TransportIngressEvent>, TransportError>,
    result: Result<StartedRound, BleBridgeError>,
)
    requires
        begins_round(before, after, tick, drained, result),
    ensures
        drained matches Err(error) ==> {
            &&& result == Err::<StartedRound, BleBridgeError>(BleBridgeError::Transport(error))
            &&& after == (BleHostBridge {
                transport: after.transport,
                clock: after.clock,
                ..before
            })
        },
        drained is Ok ==> !(result is Err && result->Err_0 is Transport),
        result matches Err(BleBridgeError::Route(error)) ==> drained is Ok && {
            let observations = staged(drained->Ok_0@, tick, before.inbound_capacity as nat);
            ||| exists|states: Seq<R>, at: int|
                0 <= at < observations.len() && #[trigger] took_all(states, observations.take(at))
                    && states[0] == before.router && R::ingests(
                    states.last(),
                    observations[at],
                    after.router,
                    Err(error),
                )
            ||| exists|states: Seq<R>| #[trigger]
                took_all(states, observations) && states[0] == before.router && R::advances(
                    states.last(),
                    after.router,
                    Err(error),
                )
        },
        C::ticks(before.clock, after.clock, tick),
        T::drains(before.transport, after.transport, drained),
        after.inbound_capacity == before.inbound_capacity,
{
    if let Err(BleBridgeError::Route(error)) = result {
        let events = drained->Ok_0;
        let observations = staged(events@, tick, before.inbound_capacity as nat);
        let failed = Err::<RouterRoundOutcome, RouteError>(error);
        if refuses_one(before.router, observations, after.router, error) {
            let (states, handed) = choose|states: Seq<R>, handed: int|
                0 < handed <= observations.len() && #[trigger] ingests_in_turn(
                    states,
                    observations.take(handed),
                    Err(error),
                ) && states[0] == before.router && states.last() == after.router;
            let at = handed - 1;
            let taken = states.take(handed);
            let tried = observations.take(handed);
            assert(took_all(taken, observations.take(at))) by {
                assert forall|i: int| 0 <= i < at implies R::ingests(
                    taken[i],
                    #[trigger] observations.take(at)[i],
                    taken[i + 1],
                    Ok(()),
                ) by {
                    assert(tried[i] == observations.take(at)[i]);
                }
            }
            assert(tried[at] == observations[at]);
            assert(taken.last() == states[at]);
            assert(states[handed] == after.router);
            assert(R::ingests(states[at], tried[at], states[at + 1], Err(error)));
        } else {
            let states = choose|states: Seq<R>| #[trigger]
                ingests_in_turn(states, observations, Ok(())) && states[0] == before.router
                    && R::advances(states.last(), after.router, failed);
            assert(took_all(states, observations));
        }
    }
}

/// What a round takes in is as much as there is room for: all of its events if they fit, and
/// otherwise the first ones. What does not fit is counted, up to the largest number.
pub proof fn law_nothing_is_dropped_while_there_is_room(
    events: Seq<TransportIngressEvent>,
    tick: Tick,
    capacity: nat,
    dropped: usize,
)
    ensures
        events.len() <= capacity ==> staged(events, tick, capacity).len() == events.len(),
        events.len() > capacity ==> staged(events, tick, capacity).len() == capacity,
        events.len() <= capacity ==> dropped_after(dropped, events.len(), capacity) == dropped,
        events.len() > capacity ==> dropped_after(dropped, events.len(), capacity) == if dropped
            + events.len() - capacity <= usize::MAX {
            dropped + events.len() - capacity
        } else {
            usize::MAX as int
        },
{
}

/// A round is reported as one to wait after only if nothing was taken in, sent or dropped and the engine
/// of the router reported no change; every other round is reported with the very outcome of the router.
pub proof fn law_reported_progress_is_true(
    started: StartedRound,
    flushed: usize,
    dropped: usize,
    pending_outbound: usize,
    snapshot: u64,
    progress: BleBridgeProgress,
)
    requires
        call_ensures(
            round_progress,
            (started, flushed, dropped, pending_outbound, snapshot),
            progress,
        ),
    ensures
        progress is Waiting <==> started.ingested@.len() == 0 && flushed == 0 && dropped == 0
            && started.router_outcome.engine_change is NoChange,
        progress matches BleBridgeProgress::Advanced(report) ==> report.router_outcome
            == started.router_outcome && report.ingested_transport_observations@
            == started.ingested@,
{
    law_round_waits_only_if_idle(
        progress,
        started,
        flushed,
        dropped,
        pending_outbound,
        snapshot,
    );
}

/// What is taken in of a round are its first events, stamped with its tick, as many as there is room
/// for; the rest is counted.
pub proof fn law_staged_events_are_the_first(
    raw_events: Vec<TransportIngressEvent>,
    tick: Tick,
    capacity: usize,
    dropped: usize,
    result: (Vec<TransportObservation>, usize),
)
    requires
        call_ensures(stage_events, (raw_events, tick, capacity, dropped), result),
    ensures
        result.0@.len() == if raw_events@.len() <= capacity {
            raw_events@.len()
        } else {
            capacity as nat
        },
        forall|i: int|
            0 <= i < result.0@.len() ==> #[trigger] result.0@[i] == observed_at(
                raw_events@[i],
                tick,
            ),
        dropped + raw_events@.len() - result.0@.len() <= usize::MAX ==> result.1 == dropped
            + raw_events@.len() - result.0@.len(),
        result.1 >= dropped,
{
    law_nothing_is_dropped_while_there_is_room(raw_events@, tick, capacity as nat, dropped);
}

/// A thread blocks on the notifier only if that was decided and nothing happened since, and then from
/// the position that was decided on.
pub proof fn law_blocking_misses_no_event(
    decision: BleBridgeWaitDecision,
    changed: bool,
    position: Option<u64>,
)
    requires
        call_ensures(BleBridgeWaitDecision::parks_on, (decision, changed), position),
    ensures
        position is Some <==> decision is BlockOnNotifier && !changed,
        position is Some ==> decision->BlockOnNotifier_snapshot == position->0,
{
}

} // verus!
