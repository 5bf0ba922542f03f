//! Why an admission is refused.
use vstd::prelude::*;

verus! {

/// Why a ticket was refused.
#[derive(Debug, Clone, Copy, PartialEq, Eq, Structural)]
pub enum TicketVerificationError {
    /// There is no controller trust to verify against.
    ControllerUnavailable,
    /// The ticket does not verify.
    Rejected,
}

#[derive(Debug, Clone, Copy, PartialEq, Eq, Structural)]
pub enum AdmissionError {
    InvalidConfiguration,
    InvalidHello,
    Limited,
    Ticket(TicketVerificationError),
    Replay,
    ReplayCapacity,
    ReplayStore,
    Unavailable,
    ProvisioningRejected,
}

#[derive(Debug, Clone, Copy, PartialEq, Eq, Structural)]
pub enum AdmissionProvisioningError {
    OwnerRejected,
    Capacity,
    Unavailable,
}

} // verus!
