//! The configuration file and what is made of it.
use super::super::address_pool::{AddressPoolConfig, PoolShape};
use super::super::admission::{HandshakeAdmissionLimiterConfig, SourceAddress};
use super::super::identity::CertificateLimits;
use super::super::secure_journal::FileStat;
use super::error::V2GatewayConfigError;
use super::references::{JournalEntry, RequiredFile};
use super::trust::ControllerTrustFile;
use vstd::prelude::*;

verus! {

/// Longest configuration file.
pub const MAX_CONFIG_FILE_BYTES: u64 = 65_536;

/// Most control tasks at once.
pub const MAX_CONNECTIONS_HARD_CAP: usize = 1_024;

/// Most control messages per connection.
pub const MAX_CONTROL_MESSAGES_HARD_CAP: u64 = 1_024;

/// The configuration file. Every field is required.
pub struct V2GatewayConfigFile {
    pub bind_addr: String,
    pub gateway_name: String,
    pub gateway_cert_path: String,
    pub gateway_key_path: String,
    pub device_ca_cert_path: String,
    pub device_crl_path: String,
    pub controller_trust_path: String,
    pub safe_mode_policy_path: String,
    pub lease_journal_path: String,
    pub replay_journal_path: String,
    pub lease_mode: String,
    pub redemption_scope: String,
    pub controller_issuer: String,
    pub controller_audience: String,
    pub controller_region: String,
    pub ipv4_network: String,
    pub ipv4_prefix_len: u8,
    pub ipv4_gateway: String,
    pub reserved_ipv4: Vec<String>,
    pub ipv6_base: String,
    pub ipv6_parent_prefix_len: u8,
    pub maximum_leases: usize,
    pub pending_ttl_ms: u64,
    pub lease_ttl_ms: u64,
    pub maximum_pending_releases: usize,
    pub maximum_sessions: usize,
    pub idle_ttl_ms: u64,
    pub maximum_paths_per_session: usize,
    pub maximum_pending_attaches: usize,
    pub pending_attach_ttl_ms: u64,
    pub maximum_path_epoch_history: usize,
    pub maximum_path_tombstones: usize,
    pub path_tombstone_ttl_ms: u64,
    pub replay_capacity: usize,
    pub source_capacity: usize,
    pub source_ttl_millis: u64,
    pub maximum_per_source_in_flight: usize,
    pub maximum_global_in_flight: usize,
    pub maximum_verification_budget_millis: u64,
    pub handshake_timeout_millis: u64,
    pub control_stream_timeout_millis: u64,
    pub control_read_timeout_millis: u64,
    pub control_write_timeout_millis: u64,
    pub maximum_control_frame_len: usize,
    pub maximum_connections: usize,
    pub maximum_control_messages_per_connection: u64,
    pub session_sweep_min_interval_ms: u64,
    pub session_sweep_max_interval_ms: u64,
    pub pool_sweep_min_interval_ms: u64,
    pub pool_sweep_max_interval_ms: u64,
}

/// Where the gateway listens.
#[derive(Debug, Clone, Copy, PartialEq, Eq, Structural)]
pub struct BindAddress {
    pub host: SourceAddress,
    pub port: u16,
}

/// The pool's addresses as octets, where their text spells addresses.
pub struct PoolAddresses {
    pub network: Option<[u8; 4]>,
    pub gateway: Option<[u8; 4]>,
    /// One for each reserved address, in the file's order.
    pub reserved: Vec<Option<[u8; 4]>>,
    pub ipv6_base: Option<[u8; 16]>,
}

/// A journal's directory entry and its directory's.
#[derive(Debug, Clone, Copy, PartialEq, Eq, Structural)]
pub struct JournalFindings {
    pub entry: JournalEntry,
    pub parent: Option<FileStat>,
}

/// What the program found where the configuration file points, and what the
/// authentication and protocol services said of it.
pub struct ConfigFindings {
    /// The environment holds a shared secret.
    pub secret_present: bool,
    /// The bind address, where its text spells one.
    pub bind_addr: Option<BindAddress>,
    /// The normalized gateway name, where it is one.
    pub gateway_name: Option<String>,
    pub gateway_cert: RequiredFile,
    pub gateway_key: RequiredFile,
    pub device_ca: RequiredFile,
    pub device_crl: RequiredFile,
    pub controller_trust: RequiredFile,
    pub safe_mode_policy: RequiredFile,
    pub lease_journal: JournalFindings,
    pub replay_journal: JournalFindings,
    /// The roots and revocation lists make trust anchors.
    pub device_trust_accepted: bool,
    /// The controller-trust file's contents, where it holds nothing else.
    pub controller_trust_file: Option<ControllerTrustFile>,
    /// The controller's keys and revocations make a snapshot.
    pub controller_trust_accepted: bool,
    pub pool_addresses: PoolAddresses,
    /// Issuer, audience and region make a ticket verifier.
    pub ticket_verifier_accepted: bool,
    pub policy_accepted: bool,
    /// The session sweep's intervals are accepted.
    pub session_sweep_accepted: bool,
    /// The longest certificate chain and certificate.
    pub certificate_limits: CertificateLimits,
}

/// Who signs tickets, for whom and for where.
pub struct TicketVerifierConfig {
    pub issuer: String,
    pub audience: String,
    pub region: String,
}

/// Bounds on sessions and their paths.
#[derive(Debug, Clone, Copy, PartialEq, Eq, Structural)]
pub struct V2SessionManagerConfig {
    pub maximum_sessions: usize,
    pub idle_ttl_ms: u64,
    pub maximum_paths_per_session: usize,
    pub maximum_pending_attaches: usize,
    pub pending_attach_ttl_ms: u64,
    pub maximum_path_epoch_history: usize,
    pub maximum_path_tombstones: usize,
    pub path_tombstone_ttl_ms: u64,
}

impl V2SessionManagerConfig {
    /// No bound is zero, and the history never undercuts the paths.
    pub open spec fn valid(self) -> bool {
        &&& self.maximum_sessions != 0
        &&& self.idle_ttl_ms != 0
        &&& self.maximum_paths_per_session != 0
        &&& self.maximum_pending_attaches != 0
        &&& self.pending_attach_ttl_ms != 0
        &&& self.maximum_path_epoch_history != 0
        &&& self.maximum_path_tombstones != 0
        &&& self.path_tombstone_ttl_ms != 0
        &&& self.maximum_path_epoch_history >= self.maximum_paths_per_session
    }
}

/// The intervals between session sweeps.
#[derive(Debug, Clone, Copy, PartialEq, Eq, Structural)]
pub struct SessionSweepConfig {
    pub min_interval_ms: u64,
    pub max_interval_ms: u64,
}

pub fn non_zero(value: usize) -> (result: Result<usize, V2GatewayConfigError>)
    ensures
        result == if value != 0 {
            Ok::<usize, V2GatewayConfigError>(value)
        } else {
            Err(V2GatewayConfigError::InvalidConfiguration)
        },
{
    if value == 0 {
        return Err(V2GatewayConfigError::InvalidConfiguration);
    }
    Ok(value)
}

pub fn non_zero_u64(value: u64) -> (result: Result<u64, V2GatewayConfigError>)
    ensures
        result == if value != 0 {
            Ok::<u64, V2GatewayConfigError>(value)
        } else {
            Err(V2GatewayConfigError::InvalidConfiguration)
        },
{
    if value == 0 {
        return Err(V2GatewayConfigError::InvalidConfiguration);
    }
    Ok(value)
}

/// Every reserved address is one.
pub open spec fn all_parsed(reserved: Seq<Option<[u8; 4]>>) -> bool {
    forall|i: int| 0 <= i < reserved.len() ==> (#[trigger] reserved[i]) is Some
}

/// The reserved addresses' octets.
pub open spec fn parsed(reserved: Seq<Option<[u8; 4]>>) -> Seq<[u8; 4]> {
    Seq::new(reserved.len(), |i: int| reserved[i]->0)
}

/// The pool that a configuration file describes, where its addresses are
/// addresses.
pub open spec fn pool_shape(file: V2GatewayConfigFile, addresses: PoolAddresses) -> Option<
    PoolShape,
> {
    match (addresses.network, addresses.gateway, addresses.ipv6_base) {
        (Some(network), Some(gateway), Some(base)) if all_parsed(addresses.reserved@) => Some(
            PoolShape::described(
                network@,
                file.ipv4_prefix_len,
                gateway@,
                parsed(addresses.reserved@),
                base@,
                file.ipv6_parent_prefix_len,
                file.maximum_leases,
                file.pending_ttl_ms,
                file.lease_ttl_ms,
                file.maximum_pending_releases,
            ),
        ),
        _ => None,
    }
}

/// A pool's configuration, from its file and its addresses.
pub fn build_pool_config(file: &V2GatewayConfigFile, addresses: &PoolAddresses) -> (result: Result<
    AddressPoolConfig,
    V2GatewayConfigError,
>)
    ensures
        match result {
            Ok(config) => pool_shape(*file, *addresses) == Some(config@) && config@.valid(),
            Err(e) => e == V2GatewayConfigError::InvalidConfiguration && (pool_shape(
                *file,
                *addresses,
            ) matches Some(shape) ==> !shape.valid()),
        },
{
    let (network, gateway, ipv6_base) = match (
        addresses.network,
        addresses.gateway,
        addresses.ipv6_base,
    ) {
        (Some(network), Some(gateway), Some(ipv6_base)) => (network, gateway, ipv6_base),
        _ => {
            return Err(V2GatewayConfigError::InvalidConfiguration);
        },
    };
    let mut reserved: Vec<[u8; 4]> = Vec::new();
    let mut i: usize = 0;
    while i < addresses.reserved.len()
        invariant
            i <= addresses.reserved@.len(),
            reserved@.len() == i,
            forall|j: int|
                0 <= j < i ==> (#[trigger] addresses.reserved@[j]) == Some(reserved@[j]),
        decreases addresses.reserved@.len() - i,
    {
        match addresses.reserved[i] {
            Some(octets) => {
                reserved.push(octets);
            },
            None => {
                assert(!all_parsed(addresses.reserved@));
                return Err(V2GatewayConfigError::InvalidConfiguration);
            },
        }
        i = i + 1;
    }
    assert(all_parsed(addresses.reserved@));
    assert(reserved@ =~= parsed(addresses.reserved@));
    match AddressPoolConfig::new(
        network,
        file.ipv4_prefix_len,
        gateway,
        reserved,
        ipv6_base,
        file.ipv6_parent_prefix_len,
        file.maximum_leases,
        file.pending_ttl_ms,
        file.lease_ttl_ms,
        file.maximum_pending_releases,
    ) {
        Ok(config) => Ok(config),
        Err(_) => Err(V2GatewayConfigError::InvalidConfiguration),
    }
}

/// The session bounds that a configuration file names.
pub open spec fn session_bounds(file: V2GatewayConfigFile) -> V2SessionManagerConfig {
    V2SessionManagerConfig {
        maximum_sessions: file.maximum_sessions,
        idle_ttl_ms: file.idle_ttl_ms,
        maximum_paths_per_session: file.maximum_paths_per_session,
        maximum_pending_attaches: file.maximum_pending_attaches,
        pending_attach_ttl_ms: file.pending_attach_ttl_ms,
        maximum_path_epoch_history: file.maximum_path_epoch_history,
        maximum_path_tombstones: file.maximum_path_tombstones,
        path_tombstone_ttl_ms: file.path_tombstone_ttl_ms,
    }
}

/// The session bounds, none of them zero and the history no shorter than the
/// paths.
pub fn build_session_config(file: &V2GatewayConfigFile) -> (result: Result<
    V2SessionManagerConfig,
    V2GatewayConfigError,
>)
    ensures
        result == if session_bounds(*file).valid() {
            Ok::<V2SessionManagerConfig, V2GatewayConfigError>(session_bounds(*file))
        } else {
            Err(V2GatewayConfigError::InvalidConfiguration)
        },
{
    let config = V2SessionManagerConfig {
        maximum_sessions: non_zero(file.maximum_sessions)?,
        idle_ttl_ms: non_zero_u64(file.idle_ttl_ms)?,
        maximum_paths_per_session: non_zero(file.maximum_paths_per_session)?,
        maximum_pending_attaches: non_zero(file.maximum_pending_attaches)?,
        pending_attach_ttl_ms: non_zero_u64(file.pending_attach_ttl_ms)?,
        maximum_path_epoch_history: non_zero(file.maximum_path_epoch_history)?,
        maximum_path_tombstones: non_zero(file.maximum_path_tombstones)?,
        path_tombstone_ttl_ms: non_zero_u64(file.path_tombstone_ttl_ms)?,
    };
    if config.maximum_path_epoch_history < config.maximum_paths_per_session {
        return Err(V2GatewayConfigError::InvalidConfiguration);
    }
    Ok(config)
}

/// The handshake bounds that a configuration file names.
pub open spec fn limiter_bounds(file: V2GatewayConfigFile) -> HandshakeAdmissionLimiterConfig {
    HandshakeAdmissionLimiterConfig {
        source_capacity: file.source_capacity,
        source_ttl_millis: file.source_ttl_millis,
        maximum_per_source_in_flight: file.maximum_per_source_in_flight,
        maximum_global_in_flight: file.maximum_global_in_flight,
        maximum_verification_budget_millis: file.maximum_verification_budget_millis,
    }
}

/// The handshake bounds, none of them zero.
pub fn build_limiter_config(file: &V2GatewayConfigFile) -> (result: Result<
    HandshakeAdmissionLimiterConfig,
    V2GatewayConfigError,
>)
    ensures
        result == if limiter_bounds(*file).valid() {
            Ok::<HandshakeAdmissionLimiterConfig, V2GatewayConfigError>(limiter_bounds(*file))
        } else {
            Err(V2GatewayConfigError::InvalidConfiguration)
        },
{
    Ok(
        HandshakeAdmissionLimiterConfig {
            source_capacity: non_zero(file.source_capacity)?,
            source_ttl_millis: non_zero_u64(file.source_ttl_millis)?,
            maximum_per_source_in_flight: non_zero(file.maximum_per_source_in_flight)?,
            maximum_global_in_flight: non_zero(file.maximum_global_in_flight)?,
            maximum_verification_budget_millis: non_zero_u64(
                file.maximum_verification_budget_millis,
            )?,
        },
    )
}

/// The listener's timeouts, frames, connections and messages are bounded.
pub open spec fn listener_bounded(file: V2GatewayConfigFile) -> bool {
    &&& file.handshake_timeout_millis != 0
    &&& file.control_stream_timeout_millis != 0
    &&& file.control_read_timeout_millis != 0
    &&& file.control_write_timeout_millis != 0
    &&& file.maximum_control_frame_len != 0
    &&& 0 < file.maximum_connections <= MAX_CONNECTIONS_HARD_CAP
    &&& 0 < file.maximum_control_messages_per_connection <= MAX_CONTROL_MESSAGES_HARD_CAP
}

pub fn check_listener_bounds(file: &V2GatewayConfigFile) -> (result: Result<
    (),
    V2GatewayConfigError,
>)
    ensures
        result == if listener_bounded(*file) {
            Ok::<(), V2GatewayConfigError>(())
        } else {
            Err(V2GatewayConfigError::InvalidConfiguration)
        },
{
    if file.handshake_timeout_millis == 0 || file.control_stream_timeout_millis == 0
        || file.control_read_timeout_millis == 0 || file.control_write_timeout_millis == 0
        || file.maximum_control_frame_len == 0 {
        return Err(V2GatewayConfigError::InvalidConfiguration);
    }
    if file.maximum_connections == 0 || file.maximum_connections > MAX_CONNECTIONS_HARD_CAP {
        return Err(V2GatewayConfigError::InvalidConfiguration);
    }
    if file.maximum_control_messages_per_connection == 0
        || file.maximum_control_messages_per_connection > MAX_CONTROL_MESSAGES_HARD_CAP {
        return Err(V2GatewayConfigError::InvalidConfiguration);
    }
    Ok(())
}

/// Session bounds are accepted where none of the eight is zero and the history of
/// a session holds at least as many paths as the session may have.
pub proof fn law_session_bounds(file: V2GatewayConfigFile)
    ensures
        session_bounds(file).valid() <==> {
            &&& file.maximum_sessions > 0
            &&& file.idle_ttl_ms > 0
            &&& file.maximum_paths_per_session > 0
            &&& file.maximum_pending_attaches > 0
            &&& file.pending_attach_ttl_ms > 0
            &&& file.maximum_path_tombstones > 0
            &&& file.path_tombstone_ttl_ms > 0
            &&& file.maximum_path_epoch_history >= file.maximum_paths_per_session
        },
        session_bounds(file).maximum_sessions == file.maximum_sessions,
        session_bounds(file).idle_ttl_ms == file.idle_ttl_ms,
        session_bounds(file).maximum_paths_per_session == file.maximum_paths_per_session,
        session_bounds(file).maximum_pending_attaches == file.maximum_pending_attaches,
        session_bounds(file).pending_attach_ttl_ms == file.pending_attach_ttl_ms,
        session_bounds(file).maximum_path_epoch_history == file.maximum_path_epoch_history,
        session_bounds(file).maximum_path_tombstones == file.maximum_path_tombstones,
        session_bounds(file).path_tombstone_ttl_ms == file.path_tombstone_ttl_ms,
{
}

/// Handshake bounds are accepted where none of the five is zero.
pub proof fn law_limiter_bounds(file: V2GatewayConfigFile)
    ensures
        limiter_bounds(file).valid() <==> {
            &&& file.source_capacity > 0
            &&& file.source_ttl_millis > 0
            &&& file.maximum_per_source_in_flight > 0
            &&& file.maximum_global_in_flight > 0
            &&& file.maximum_verification_budget_millis > 0
        },
        limiter_bounds(file).source_capacity == file.source_capacity,
        limiter_bounds(file).source_ttl_millis == file.source_ttl_millis,
        limiter_bounds(file).maximum_per_source_in_flight == file.maximum_per_source_in_flight,
        limiter_bounds(file).maximum_global_in_flight == file.maximum_global_in_flight,
        limiter_bounds(file).maximum_verification_budget_millis
            == file.maximum_verification_budget_millis,
{
}

/// Listener bounds are accepted where none is zero and neither connections nor
/// control messages are over 1,024.
pub proof fn law_listener_bounds(file: V2GatewayConfigFile)
    ensures
        listener_bounded(file) <==> {
            &&& file.handshake_timeout_millis > 0
            &&& file.control_stream_timeout_millis > 0
            &&& file.control_read_timeout_millis > 0
            &&& file.control_write_timeout_millis > 0
            &&& file.maximum_control_frame_len > 0
            &&& 1 <= file.maximum_connections <= 1_024
            &&& 1 <= file.maximum_control_messages_per_connection <= 1_024
        },
{
}

/// The pool is the one that the file describes, wherever all its addresses are
/// addresses.
pub proof fn law_pool_shape_is_the_files(file: V2GatewayConfigFile, addresses: PoolAddresses)
    ensures
        pool_shape(file, addresses) is Some <==> {
            &&& addresses.network is Some
            &&& addresses.gateway is Some
            &&& addresses.ipv6_base is Some
            &&& forall|i: int|
                0 <= i < addresses.reserved@.len() ==> (#[trigger] addresses.reserved@[i]) is Some
        },
        pool_shape(file, addresses) matches Some(shape) ==> {
            &&& shape.network == crate::encoding::be(addresses.network->0@)
            &&& shape.v4_len == file.ipv4_prefix_len
            &&& shape.gateway == crate::encoding::be(addresses.gateway->0@)
            &&& shape.reserved.len() == addresses.reserved@.len()
            &&& forall|i: int|
                0 <= i < addresses.reserved@.len() ==> shape.reserved[i] == crate::encoding::be(
                    (#[trigger] addresses.reserved@[i])->0@,
                )
            &&& shape.base == crate::encoding::be(addresses.ipv6_base->0@)
            &&& shape.v6_len == file.ipv6_parent_prefix_len
            &&& shape.max_leases == file.maximum_leases
            &&& shape.pending_ttl == file.pending_ttl_ms
            &&& shape.lease_ttl == file.lease_ttl_ms
            &&& shape.max_quarantine == file.maximum_pending_releases
        },
{
}

} // verus!
