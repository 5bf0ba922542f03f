//! The gateway's configuration: filesystem references and bounds, fail-closed.
//!
//! No secret is ever part of it: credentials are files with strict
//! permissions, and a shared secret in the environment refuses startup. The
//! program reads the files and resolves names and addresses; what may be
//! accepted is decided here.

pub mod error;
pub mod references;
pub mod settings;
pub mod trust;
pub mod validated;

pub use error::V2GatewayConfigError;
pub use references::{
    check_journal_parent, check_required_file, read_required_bytes, read_required_pem,
    reject_journal_collisions, JournalEntry, RefKind, RefStat, RequiredFile,
};
pub use trust::{
    build_controller_trust, parse_uuid_lower, ControllerKeyFile, ControllerTrust,
    ControllerTrustFile,
};
pub use settings::{
    BindAddress, ConfigFindings, JournalFindings, PoolAddresses, SessionSweepConfig,
    TicketVerifierConfig, V2GatewayConfigFile, V2SessionManagerConfig,
};
pub use validated::{check_config_file, V2GatewayConfig};
