//! Errors of routing, transport, bridge and client.

use crate::config::BleLinkError;
use vstd::prelude::*;

verus! {

/// Why the transport did not do what it was asked.
#[derive(Clone, Copy, Debug, PartialEq, Eq, Structural)]
pub enum TransportError {
    Unavailable,
    TimedOut,
    Rejected,
}

/// Why a route was not admitted.
#[derive(Clone, Copy, Debug, PartialEq, Eq, Structural)]
pub enum RouteAdmissionRejection {
    ProtectionFloorUnsatisfied,
    DeliveryAssumptionUnsupported,
    CapacityExceeded,
    BudgetExceeded,
    BranchingInfeasible,
    CrashToleranceUnsatisfied,
    ReconfigurationUnsafe,
    BackendUnavailable,
}

/// Why no route was selected.
#[derive(Clone, Copy, Debug, PartialEq, Eq, Structural)]
pub enum RouteSelectionError {
    NoCandidate,
    ProtectionFloorUnsatisfied,
    Inadmissible(RouteAdmissionRejection),
    PolicyConflict,
}

/// Why a route failed while in use.
#[derive(Clone, Copy, Debug, PartialEq, Eq, Structural)]
pub enum RouteRuntimeError {
    LeaseExpired,
    StaleOwner,
    LifecycleEventRejected,
    MaintenanceFailed,
    TimedOut,
    Invalidated,
}

/// Why policy forbade a route.
#[derive(Clone, Copy, Debug, PartialEq, Eq, Structural)]
pub enum RoutePolicyError {
    FallbackForbidden,
    ProfileUnsupported,
    BudgetExceeded,
}

/// Why a capability was not granted.
#[derive(Clone, Copy, Debug, PartialEq, Eq, Structural)]
pub enum CapabilityError {
    Unsupported,
    Rejected,
    BudgetExceeded,
}

/// An error of the router.
#[derive(Clone, Copy, Debug, PartialEq, Eq, Structural)]
pub enum RouteError {
    Selection(RouteSelectionError),
    Runtime(RouteRuntimeError),
    Policy(RoutePolicyError),
    Capability(CapabilityError),
    Transport(TransportError),
}

/// An error of the host bridge.
#[derive(Clone, Copy, Debug, PartialEq, Eq, Structural)]
pub enum BleBridgeError {
    Route(RouteError),
    Transport(TransportError),
}

/// An error of the client.
#[derive(Clone, Copy, Debug, PartialEq, Eq, Structural)]
pub enum BleClientError {
    Link(BleLinkError),
    Route(RouteError),
    Bridge(BleBridgeError),
    Transport(TransportError),
    DeliveryAdmission(RouteAdmissionRejection),
    /// The client's runtime could not be started.
    RuntimeStart,
    /// The client's runtime is not running any more.
    RuntimeStopped,
    /// The client's runtime panicked.
    RuntimePanicked,
}

} // verus!
