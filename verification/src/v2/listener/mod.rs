//! The admission listener: accepting one control connection, and answering
//! its path-control requests. The library decides each step; the caller
//! carries it out and reports what came of it.

pub mod accept;
pub mod config;
pub mod control_flow;
pub mod template;

pub use accept::{accept_one, AcceptFlow, AcceptOutcome, AcceptStep, AdmitResponse};
pub use config::{
    advance_admission_time, ControlDeadlines, V2AdmissionListenerConfig, V2AdmissionListenerError,
};
pub use control_flow::{
    ControlOutcome, ControlReply, ControlStep, ListenerPathBinding, PathRequest, RejectReason,
    ReplyKind, V2AdmittedConnection,
};
pub use template::SessionAdmitTemplate;
