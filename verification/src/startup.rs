//! Bringing BLE up: which step may be tried, and what its outcome means.
//!
//! The L2CAP listener comes first, because the service that is published names its PSM. The GATT
//! service follows, then advertising. Scanning runs on its own.

use vstd::prelude::*;

verus! {

/// How far one step of startup is.
#[derive(Clone, Copy, Debug, PartialEq, Eq, Structural)]
pub enum StartupStep {
    Pending,
    WaitingForPower,
    Retry,
    Started,
    Unsupported,
}

/// What came of starting a service, advertising or a scan.
#[derive(Clone, Copy, Debug, PartialEq, Eq, Structural)]
pub enum StartOutcome {
    Started,
    AlreadyAdvertising,
    Failed,
}

/// What came of opening the L2CAP listener.
#[derive(Clone, Copy, Debug, PartialEq, Eq, Structural)]
pub enum ListenerOutcome {
    Opened,
    NotSupported,
    Failed,
}

/// Whether an adapter has power.
#[derive(Clone, Copy, Debug, PartialEq, Eq, Structural)]
pub enum AdapterPowerState {
    PoweredOn,
    PoweredOff,
}

impl From<bool> for AdapterPowerState {
    fn from(powered: bool) -> (state: Self) {
        if powered {
            AdapterPowerState::PoweredOn
        } else {
            AdapterPowerState::PoweredOff
        }
    }
}

impl vstd::std_specs::convert::FromSpecImpl<bool> for AdapterPowerState {
    open spec fn obeys_from_spec() -> bool {
        true
    }

    open spec fn from_spec(powered: bool) -> Self {
        if powered {
            AdapterPowerState::PoweredOn
        } else {
            AdapterPowerState::PoweredOff
        }
    }
}

/// The step that an outcome leads to: what already advertises is started.
pub open spec fn step_after(outcome: StartOutcome) -> StartupStep {
    match outcome {
        StartOutcome::Failed => StartupStep::Retry,
        _ => StartupStep::Started,
    }
}

/// The step that a listener's outcome leads to.
pub open spec fn listener_after(outcome: ListenerOutcome) -> StartupStep {
    match outcome {
        ListenerOutcome::Opened => StartupStep::Started,
        ListenerOutcome::NotSupported => StartupStep::Unsupported,
        ListenerOutcome::Failed => StartupStep::Retry,
    }
}

/// The step that a change of power leads to.
pub open spec fn step_for_power(state: AdapterPowerState) -> StartupStep {
    match state {
        AdapterPowerState::PoweredOn => StartupStep::Pending,
        AdapterPowerState::PoweredOff => StartupStep::WaitingForPower,
    }
}

impl StartupStep {
    /// The step that an outcome leads to.
    pub fn from_start_result(outcome: StartOutcome) -> (step: StartupStep)
        ensures
            step == step_after(outcome),
    {
        match outcome {
            StartOutcome::Started => StartupStep::Started,
            StartOutcome::AlreadyAdvertising => StartupStep::Started,
            StartOutcome::Failed => StartupStep::Retry,
        }
    }
}

/// How far startup is.
#[derive(Clone, Copy, Debug, PartialEq, Eq, Structural)]
pub struct BleStartupState {
    pub l2cap_listener: StartupStep,
    pub gatt_service: StartupStep,
    pub advertising: StartupStep,
    pub scan: StartupStep,
}

/// Startup before its first attempt.
pub open spec fn nothing_started() -> BleStartupState {
    BleStartupState {
        l2cap_listener: StartupStep::Pending,
        gatt_service: StartupStep::Pending,
        advertising: StartupStep::Pending,
        scan: StartupStep::Pending,
    }
}

impl Default for BleStartupState {
    fn default() -> (state: Self)
        ensures
            state == nothing_started(),
    {
        BleStartupState {
            l2cap_listener: StartupStep::Pending,
            gatt_service: StartupStep::Pending,
            advertising: StartupStep::Pending,
            scan: StartupStep::Pending,
        }
    }
}

impl BleStartupState {
    /// The state after the peripheral adapter's power changed; a listener that the platform does
    /// not support stays unsupported.
    pub open spec fn peripheral_powered(self, state: AdapterPowerState) -> BleStartupState {
        BleStartupState {
            l2cap_listener: if self.l2cap_listener == StartupStep::Unsupported {
                StartupStep::Unsupported
            } else {
                step_for_power(state)
            },
            gatt_service: step_for_power(state),
            advertising: step_for_power(state),
            scan: self.scan,
        }
    }

    /// Whether the L2CAP listener is to be opened.
    pub open spec fn listener_due(self) -> bool {
        self.l2cap_listener == StartupStep::Pending || self.l2cap_listener == StartupStep::Retry
    }

    /// Whether the GATT service is due: it is neither published nor waiting for power, and what
    /// became of the listener is settled.
    pub open spec fn service_due(self) -> bool {
        &&& self.gatt_service != StartupStep::Started
        &&& self.gatt_service != StartupStep::WaitingForPower
        &&& !self.listener_due()
    }

    /// Whether advertising is to be started: only once the service is published.
    pub open spec fn advertising_due(self) -> bool {
        &&& self.advertising != StartupStep::Started
        &&& self.advertising != StartupStep::WaitingForPower
        &&& self.gatt_service == StartupStep::Started
    }

    /// Whether a scan is to be started.
    pub open spec fn scan_due(self) -> bool {
        &&& self.scan != StartupStep::Started
        &&& self.scan != StartupStep::WaitingForPower
    }

    /// Records the power of the central adapter.
    pub fn central_power_changed(&mut self, state: AdapterPowerState)
        ensures
            *final(self) == (BleStartupState { scan: step_for_power(state), ..*old(self) }),
    {
        self.scan = match state {
            AdapterPowerState::PoweredOn => StartupStep::Pending,
            AdapterPowerState::PoweredOff => StartupStep::WaitingForPower,
        };
    }

    /// Records the power of the peripheral adapter.
    pub fn peripheral_power_changed(&mut self, state: AdapterPowerState)
        ensures
            *final(self) == old(self).peripheral_powered(state),
    {
        let next = match state {
            AdapterPowerState::PoweredOn => StartupStep::Pending,
            AdapterPowerState::PoweredOff => StartupStep::WaitingForPower,
        };
        if self.l2cap_listener != StartupStep::Unsupported {
            self.l2cap_listener = next;
        }
        self.gatt_service = next;
        self.advertising = next;
    }

    /// Whether some step failed and is to be tried again.
    pub fn retry_due(&self) -> (due: bool)
        ensures
            due == (self.l2cap_listener == StartupStep::Retry || self.gatt_service
                == StartupStep::Retry || self.advertising == StartupStep::Retry || self.scan
                == StartupStep::Retry),
    {
        self.l2cap_listener == StartupStep::Retry || self.gatt_service == StartupStep::Retry
            || self.advertising == StartupStep::Retry || self.scan == StartupStep::Retry
    }

    /// Whether the L2CAP listener is to be opened now.
    pub fn wants_listener(&self) -> (wanted: bool)
        ensures
            wanted == self.listener_due(),
    {
        match self.l2cap_listener {
            StartupStep::Started => false,
            StartupStep::Unsupported => false,
            StartupStep::WaitingForPower => false,
            StartupStep::Pending => true,
            StartupStep::Retry => true,
        }
    }

    /// Records what came of opening the listener.
    pub fn listener_attempted(&mut self, outcome: ListenerOutcome)
        ensures
            *final(self) == (BleStartupState {
                l2cap_listener: listener_after(outcome),
                ..*old(self)
            }),
    {
        self.l2cap_listener = match outcome {
            ListenerOutcome::Opened => StartupStep::Started,
            ListenerOutcome::NotSupported => StartupStep::Unsupported,
            ListenerOutcome::Failed => StartupStep::Retry,
        };
    }

    /// Whether the GATT service is to be published now. A service that the platform restored counts
    /// as published.
    pub fn wants_service(&mut self, restored: bool) -> (wanted: bool)
        ensures
            wanted == (old(self).service_due() && !restored),
            *final(self) == if old(self).service_due() && restored {
                BleStartupState { gatt_service: StartupStep::Started, ..*old(self) }
            } else {
                *old(self)
            },
    {
        match self.gatt_service {
            StartupStep::Started => return false,
            StartupStep::WaitingForPower => return false,
            StartupStep::Pending => {},
            StartupStep::Retry => {},
            StartupStep::Unsupported => {},
        }
        if self.wants_listener() {
            return false;
        }
        if restored {
            self.gatt_service = StartupStep::Started;
            return false;
        }
        true
    }

    /// Records what came of publishing the service.
    pub fn service_attempted(&mut self, outcome: StartOutcome)
        ensures
            *final(self) == (BleStartupState { gatt_service: step_after(outcome), ..*old(self) }),
    {
        self.gatt_service = StartupStep::from_start_result(outcome);
    }

    /// Whether advertising is to be started now.
    pub fn wants_advertising(&self) -> (wanted: bool)
        ensures
            wanted == self.advertising_due(),
    {
        match self.advertising {
            StartupStep::Started => false,
            StartupStep::WaitingForPower => false,
            _ => self.gatt_service == StartupStep::Started,
        }
    }

    /// Records what came of advertising.
    pub fn advertising_attempted(&mut self, outcome: StartOutcome)
        ensures
            *final(self) == (BleStartupState { advertising: step_after(outcome), ..*old(self) }),
    {
        self.advertising = StartupStep::from_start_result(outcome);
    }

    /// Whether a scan is to be started now.
    pub fn wants_scan(&self) -> (wanted: bool)
        ensures
            wanted == self.scan_due(),
    {
        match self.scan {
            StartupStep::Started => false,
            StartupStep::WaitingForPower => false,
            _ => true,
        }
    }

    /// Records what came of the scan.
    pub fn scan_attempted(&mut self, outcome: StartOutcome)
        ensures
            *final(self) == (BleStartupState { scan: step_after(outcome), ..*old(self) }),
    {
        self.scan = StartupStep::from_start_result(outcome);
    }
}

/// The steps of the peripheral side are never out of order: the service is not asked for while the
/// listener is open to another attempt, and advertising is not asked for without the service.
pub proof fn law_startup_order(state: BleStartupState)
    ensures
        state.service_due() ==> !state.listener_due(),
        state.advertising_due() ==> state.gatt_service == StartupStep::Started,
        state.advertising_due() ==> !state.service_due(),
{
}

/// A peripheral adapter that lost its power and got it back starts over: nothing is due in between,
/// and afterwards everything is pending again, save a listener that the platform does not support.
pub proof fn law_power_cycle_restarts(state: BleStartupState)
    ensures
        ({
            let off = state.peripheral_powered(AdapterPowerState::PoweredOff);
            let on = off.peripheral_powered(AdapterPowerState::PoweredOn);
            &&& !off.listener_due() && !off.service_due() && !off.advertising_due()
            &&& on.gatt_service == StartupStep::Pending
            &&& on.advertising == StartupStep::Pending
            &&& on.l2cap_listener == if state.l2cap_listener == StartupStep::Unsupported {
                StartupStep::Unsupported
            } else {
                StartupStep::Pending
            }
            &&& on.scan == state.scan
        }),
{
}

/// Nothing that can be tried is left untried: an untried or failed listener is due; so is a service
/// that is not published once its adapter has power and the listener is settled, for better or worse;
/// so is advertising once the service is published; and so is a scan whenever its adapter has power
/// and none is running.
pub proof fn law_startup_leaves_nothing_untried(state: BleStartupState)
    ensures
        state.listener_due() <==> state.l2cap_listener is Pending || state.l2cap_listener is Retry,
        state.service_due() <==> {
            &&& state.gatt_service is Pending || state.gatt_service is Retry || state.gatt_service
                is Unsupported
            &&& state.l2cap_listener is Started || state.l2cap_listener is Unsupported
                || state.l2cap_listener is WaitingForPower
        },
        state.advertising_due() <==> {
            &&& state.advertising is Pending || state.advertising is Retry || state.advertising
                is Unsupported
            &&& state.gatt_service is Started
        },
        state.scan_due() <==> state.scan is Pending || state.scan is Retry || state.scan
            is Unsupported,
{
}

/// What fails is tried again, and what succeeds is not: neither is a listener that the platform does
/// not support. What advertises already counts as started.
pub proof fn law_failures_are_retried(
    state: BleStartupState,
    outcome: StartOutcome,
    listener: ListenerOutcome,
)
    ensures
        ({
            let step = step_after(outcome);
            let opened = BleStartupState { l2cap_listener: listener_after(listener), ..state };
            &&& outcome is Failed <==> step is Retry
            &&& !(outcome is Failed) <==> step is Started
            &&& listener is Failed <==> opened.listener_due()
            &&& listener is Opened <==> opened.l2cap_listener is Started
            &&& listener is NotSupported <==> opened.l2cap_listener is Unsupported
            &&& (BleStartupState { scan: step, ..state }).scan_due() <==> outcome is Failed
            &&& state.gatt_service is Started ==> ((BleStartupState {
                advertising: step,
                ..state
            }).advertising_due() <==> outcome is Failed)
        }),
{
}

/// A central adapter starts to scan when it gets its power, and does not while it has none; the
/// peripheral side is not concerned, as the scan is not by the power of that side.
pub proof fn law_scan_follows_its_own_power(state: BleStartupState, power: AdapterPowerState)
    ensures
        ({
            let after = BleStartupState { scan: step_for_power(power), ..state };
            &&& after.scan_due() <==> power is PoweredOn
            &&& step_for_power(power) is Pending <==> power is PoweredOn
            &&& step_for_power(power) is WaitingForPower <==> power is PoweredOff
            &&& state.peripheral_powered(power).scan == state.scan
        }),
{
}

/// Startup that runs without a failure gets everything going, one step after the other: the listener
/// first, then the service, then advertising, and then nothing is due any more.
pub proof fn law_startup_runs_to_its_end(listener: ListenerOutcome)
    requires
        !(listener is Failed),
    ensures
        ({
            let fresh = nothing_started();
            let settled = BleStartupState { l2cap_listener: listener_after(listener), ..fresh };
            let published = BleStartupState {
                gatt_service: step_after(StartOutcome::Started),
                ..settled
            };
            let advertised = BleStartupState {
                advertising: step_after(StartOutcome::Started),
                ..published
            };
            let scanning = BleStartupState {
                scan: step_after(StartOutcome::Started),
                ..advertised
            };
            &&& fresh.listener_due() && !fresh.service_due() && !fresh.advertising_due()
            &&& fresh.scan_due()
            &&& !settled.listener_due() && settled.service_due() && !settled.advertising_due()
            &&& !published.service_due() && published.advertising_due()
            &&& !advertised.advertising_due()
            &&& !scanning.listener_due() && !scanning.service_due() && !scanning.advertising_due()
            &&& !scanning.scan_due()
        }),
{
}

/// Each step of startup is wanted exactly when it can be tried: the listener while it is untried or
/// failed, the service once the listener is settled, unless the platform restored it, advertising once
/// the service is published, and a scan on its own.
pub proof fn law_wanted_steps_are_those_that_can_be_tried()
    ensures
        forall|state: BleStartupState, wanted: bool|
            #[trigger] call_ensures(BleStartupState::wants_listener, (&state,), wanted) ==> (wanted
                <==> state.l2cap_listener is Pending || state.l2cap_listener is Retry),
        forall|state: &mut BleStartupState, restored: bool, wanted: bool|
            #[trigger] call_ensures(
                BleStartupState::wants_service,
                (state, restored),
                wanted,
            ) ==> {
                let open = !((*state).gatt_service is Started) && !((*state).gatt_service
                    is WaitingForPower) && !((*state).l2cap_listener is Pending)
                    && !((*state).l2cap_listener is Retry);
                &&& wanted <==> open && !restored
                &&& open && restored ==> final(state).gatt_service is Started
                &&& !(open && restored) ==> *final(state) == *state
                &&& final(state).l2cap_listener == (*state).l2cap_listener
                &&& final(state).advertising == (*state).advertising
                &&& final(state).scan == (*state).scan
            },
        forall|state: BleStartupState, wanted: bool|
            #[trigger] call_ensures(BleStartupState::wants_advertising, (&state,), wanted) ==> (
            wanted <==> !(state.advertising is Started) && !(state.advertising is WaitingForPower)
                && state.gatt_service is Started),
        forall|state: BleStartupState, wanted: bool|
            #[trigger] call_ensures(BleStartupState::wants_scan, (&state,), wanted) ==> (wanted
                <==> !(state.scan is Started) && !(state.scan is WaitingForPower)),
        forall|state: BleStartupState, due: bool|
            #[trigger] call_ensures(BleStartupState::retry_due, (&state,), due) ==> (due
                <==> state.l2cap_listener is Retry || state.gatt_service is Retry
                || state.advertising is Retry || state.scan is Retry),
{
}

} // verus!
