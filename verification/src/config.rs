//! What a host can set before BLE starts.

use crate::gatt::Uuid;
use vstd::prelude::*;

verus! {

/// Queue length for events on their way to the router.
pub const DEFAULT_INGRESS_CAPACITY: u32 = 1024;

/// Queue length for commands on their way to the runtime.
pub const DEFAULT_COMMAND_CAPACITY: u32 = 64;

/// How eagerly the radio scans.
#[derive(Clone, Copy, Debug, PartialEq, Eq, Structural)]
pub enum BleScanMode {
    LowLatency,
    LowPower,
}

/// What to scan for. Without service UUIDs everything is reported, which platforms allow in the
/// foreground only.
#[derive(Debug, PartialEq, Eq)]
pub struct BleScanConfig {
    pub service_uuids: Vec<Uuid>,
    pub mode: BleScanMode,
}

/// Names under which the platform keeps BLE state while the host is suspended.
#[derive(Debug, PartialEq, Eq)]
pub struct BleRestorationConfig {
    pub central_identifier: Option<String>,
    pub peripheral_identifier: Option<String>,
}

/// The settings of the BLE link.
#[derive(Debug, PartialEq, Eq)]
pub struct BleConfig {
    pub ingress_capacity: u32,
    pub command_capacity: u32,
    pub restoration: BleRestorationConfig,
    /// How long to wait for the adapters before startup begins; no wait if absent.
    pub readiness_timeout_ms: Option<u64>,
    pub scan: BleScanConfig,
}

/// Why the BLE link cannot be set up.
#[derive(Clone, Copy, Debug, PartialEq, Eq, Structural)]
pub enum BleLinkError {
    ZeroIngressCapacity,
    ZeroCommandCapacity,
}

impl BleLinkError {
    /// The error in words.
    pub fn message(&self) -> (text: String)
        ensures
            text@ == match self {
                BleLinkError::ZeroIngressCapacity => "ble ingress capacity must be non-zero"@,
                BleLinkError::ZeroCommandCapacity => "ble command capacity must be non-zero"@,
            },
    {
        match self {
            BleLinkError::ZeroIngressCapacity => "ble ingress capacity must be non-zero".to_owned(),
            BleLinkError::ZeroCommandCapacity => "ble command capacity must be non-zero".to_owned(),
        }
    }
}

impl Default for BleConfig {
    fn default() -> (config: Self)
        ensures
            config.ingress_capacity == DEFAULT_INGRESS_CAPACITY,
            config.command_capacity == DEFAULT_COMMAND_CAPACITY,
            config.restoration.central_identifier is None,
            config.restoration.peripheral_identifier is None,
            config.readiness_timeout_ms is None,
            config.scan.service_uuids@.len() == 0,
            config.scan.mode == BleScanMode::LowLatency,
    {
        BleConfig {
            ingress_capacity: DEFAULT_INGRESS_CAPACITY,
            command_capacity: DEFAULT_COMMAND_CAPACITY,
            restoration: BleRestorationConfig {
                central_identifier: None,
                peripheral_identifier: None,
            },
            readiness_timeout_ms: None,
            scan: BleScanConfig { service_uuids: Vec::new(), mode: BleScanMode::LowLatency },
        }
    }
}

impl BleConfig {
    /// Refuses queues without room; the ingress queue is judged first.
    pub fn validate(&self) -> (result: Result<(), BleLinkError>)
        ensures
            match result {
                Ok(()) => self.ingress_capacity > 0 && self.command_capacity > 0,
                Err(BleLinkError::ZeroIngressCapacity) => self.ingress_capacity == 0,
                Err(BleLinkError::ZeroCommandCapacity) => self.ingress_capacity > 0
                    && self.command_capacity == 0,
            },
    {
        if self.ingress_capacity == 0 {
            return Err(BleLinkError::ZeroIngressCapacity);
        }
        if self.command_capacity == 0 {
            return Err(BleLinkError::ZeroCommandCapacity);
        }
        Ok(())
    }
}

/// Settings are refused exactly if a queue has no room, and the error names that queue.
pub proof fn law_settings_with_room_are_accepted(
    config: BleConfig,
    result: Result<(), BleLinkError>,
)
    requires
        call_ensures(BleConfig::validate, (&config,), result),
    ensures
        result is Ok <==> config.ingress_capacity > 0 && config.command_capacity > 0,
        result is Err && result->Err_0 is ZeroIngressCapacity <==> config.ingress_capacity == 0,
        result is Err && result->Err_0 is ZeroCommandCapacity <==> config.ingress_capacity > 0
            && config.command_capacity == 0,
{
}

} // verus!
