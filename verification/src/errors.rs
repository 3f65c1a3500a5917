//! Error kinds of the orchestrator. Every fallible operation reports one of
//! these; the facade turns them into human-readable strings.

use vstd::prelude::*;

verus! {

/// The failure kinds of the orchestrator.
#[derive(Clone, Copy, Debug, PartialEq, Eq, Structural)]
pub enum VmsError {
    /// A camera, recording or schedule id that no row carries.
    NotFound,
    /// The operation demands an ONVIF camera and the row is another type.
    BackendMismatch,
    /// The plugin lacks the requested capability.
    NotSupported,
    /// SOAP fault, HTTP failure, parse failure or timeout.
    ProtocolFailure,
    /// The transcoder child could not be started.
    SpawnFailure,
    /// A recording was requested while one is in progress for the camera.
    AlreadyActive,
    /// Database or filesystem failure.
    Persistence,
    /// Invalid input: bad cron expression, empty update, malformed patch.
    Validation,
}

impl VmsError {
    /// Human-readable description of the error.
    pub fn message(&self) -> (r: String)
        ensures
            self matches VmsError::NotFound ==> r@ == "not found"@,
            self matches VmsError::BackendMismatch ==> r@
                == "operation requires an ONVIF camera"@,
            self matches VmsError::NotSupported ==> r@ == "not supported by this plugin"@,
            self matches VmsError::ProtocolFailure ==> r@ == "protocol failure"@,
            self matches VmsError::SpawnFailure ==> r@ == "failed to start transcoder process"@,
            self matches VmsError::AlreadyActive ==> r@ == "Recording is already in progress"@,
            self matches VmsError::Persistence ==> r@ == "persistence failure"@,
            self matches VmsError::Validation ==> r@ == "invalid input"@,
    {
        match self {
            VmsError::NotFound => String::from_str("not found"),
            VmsError::BackendMismatch => String::from_str("operation requires an ONVIF camera"),
            VmsError::NotSupported => String::from_str("not supported by this plugin"),
            VmsError::ProtocolFailure => String::from_str("protocol failure"),
            VmsError::SpawnFailure => String::from_str("failed to start transcoder process"),
            VmsError::AlreadyActive => String::from_str("Recording is already in progress"),
            VmsError::Persistence => String::from_str("persistence failure"),
            VmsError::Validation => String::from_str("invalid input"),
        }
    }
}

} // verus!
