use vstd::prelude::*;

verus! {

/// The kinds of failure that the engine reports to its callers.
#[derive(Debug, Clone, Copy, PartialEq, Eq, Structural)]
pub enum ManagerError {
    /// The configuration is malformed or breaks a validation rule.
    ConfigInvalid,
    /// No such username or package.
    NotFound,
    /// The instance is already running.
    AlreadyRunning,
    /// The instance is not running.
    NotRunning,
    /// Every port of the range is taken.
    NoPortsAvailable,
    /// The requested port is already allocated or bound on the host.
    PortConflict,
    /// The user holds no port.
    NotAllocated,
    /// The process exited within the settling window, or could not be started.
    SpawnFailed,
    /// The kernel refused a signal for a reason other than "no such process".
    SignalFailed,
    /// Reading or writing a file failed, or its content is malformed.
    IoFailure,
    /// Anything else.
    Internal,
}

impl ManagerError {
    /// A short lower-case name of the error kind.
    pub fn kind_name(&self) -> (r: &'static str)
        ensures
            r@ == error_kind_name(*self),
    {
        match self {
            ManagerError::ConfigInvalid => "config_invalid",
            ManagerError::NotFound => "not_found",
            ManagerError::AlreadyRunning => "already_running",
            ManagerError::NotRunning => "not_running",
            ManagerError::NoPortsAvailable => "no_ports_available",
            ManagerError::PortConflict => "port_conflict",
            ManagerError::NotAllocated => "not_allocated",
            ManagerError::SpawnFailed => "spawn_failed",
            ManagerError::SignalFailed => "signal_failed",
            ManagerError::IoFailure => "io_failure",
            ManagerError::Internal => "internal",
        }
    }
}

pub open spec fn error_kind_name(e: ManagerError) -> Seq<char> {
    match e {
        ManagerError::ConfigInvalid => "config_invalid"@,
        ManagerError::NotFound => "not_found"@,
        ManagerError::AlreadyRunning => "already_running"@,
        ManagerError::NotRunning => "not_running"@,
        ManagerError::NoPortsAvailable => "no_ports_available"@,
        ManagerError::PortConflict => "port_conflict"@,
        ManagerError::NotAllocated => "not_allocated"@,
        ManagerError::SpawnFailed => "spawn_failed"@,
        ManagerError::SignalFailed => "signal_failed"@,
        ManagerError::IoFailure => "io_failure"@,
        ManagerError::Internal => "internal"@,
    }
}

} // verus!
