//! Bounded ticket admission.

pub mod error;
pub mod handler;
pub mod hello;
pub mod limiter;
pub mod replay_cache;

pub use error::{AdmissionError, AdmissionProvisioningError, TicketVerificationError};
pub use handler::{
    queued_redemption, AdmissionAccepted, AdmissionHandler, AdmissionMetricsSnapshot, AdmissionTime,
    PendingRedemption, PendingReservation, PendingTicket, RedemptionRequest, ReservationRequest,
    SessionOwner, VerifiedAdmissionTicket,
};
pub use hello::BoundedClientHello;
pub use limiter::{
    AdmissionPermit, HandshakeAdmissionLimiter, HandshakeAdmissionLimiterConfig,
    HandshakeAdmissionLimiterSnapshot, LimiterError, SourceAddress,
};
pub use replay_cache::{
    RedeemedTicket, Redemption, ReplayCache, ReplayCacheError, ReplayCacheSnapshot,
};
