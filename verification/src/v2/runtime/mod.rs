//! The runtime: startup in order, the bounded accept loop, control tasks and
//! shutdown. It decides; the program around it waits, spawns and joins.

pub mod control_task;
pub mod error;
pub mod permissions;
pub mod serve;
pub mod start;

pub use control_task::{ControlTask, ControlTaskOutcome};
pub use error::V2GatewayRuntimeError;
pub use permissions::{enforce_journal_permissions, needs_hardening};
pub use serve::{
    AdmittedStep, JoinedTask, RunStep, V2GatewayRuntime, V2GatewayRuntimeSnapshot,
    V2GatewayRuntimeStopMetrics,
};
pub use start::{open_pool, open_replay, StartFlow, StartStep};
