//! A validated configuration.
use super::super::address_pool::sweep::MAX_SWEEP_INTERVAL_MS;
use super::super::address_pool::{AddressPoolConfig, PoolShape, PoolSweepConfig};
use super::super::admission::HandshakeAdmissionLimiterConfig;
use super::super::control::SafeModePolicy;
use super::super::identity;
use super::super::identity::{
    assemble_gateway_identity, build_device_trust, credentials_fit, DeviceTrust, GatewayIdentity,
};
use super::super::listener::ControlDeadlines;
use super::super::replay::MAX_REPLAY_ENTRIES_HARD_CAP;
use super::error;
use super::error::{check_lease_mode, check_redemption_scope, V2GatewayConfigError};
use super::references;
use super::references::{
    check_journal_parent, read_required_bytes, read_required_pem, reject_journal_collisions,
    RefKind, MAX_CONTROLLER_TRUST_BYTES, MAX_POLICY_FILE_BYTES,
};
use super::settings;
use super::settings::{
    build_limiter_config, build_pool_config, build_session_config, check_listener_bounds,
    BindAddress, ConfigFindings, SessionSweepConfig, TicketVerifierConfig, V2GatewayConfigFile,
    V2SessionManagerConfig, MAX_CONFIG_FILE_BYTES, MAX_CONNECTIONS_HARD_CAP,
    MAX_CONTROL_MESSAGES_HARD_CAP,
};
use super::trust;
use super::trust::{build_controller_trust, ControllerKeyFile, ControllerTrust};
use crate::ids::TicketId;
use crate::time::Span;
use vstd::prelude::*;
use vstd::utf8;

verus! {

/// Every filesystem reference is sound, the journals are four different
/// files, and the credentials and trust read from them hold together. `fit`
/// says whether the gateway's key fits its certificates.
pub open spec fn references_hold(
    file: V2GatewayConfigFile,
    found: ConfigFindings,
    fit: bool,
) -> bool {
    let cert = references::pem_contents(
        file.gateway_cert_path@,
        RefKind::Public,
        found.gateway_cert,
    );
    let key = references::pem_contents(
        file.gateway_key_path@,
        RefKind::PrivateKey,
        found.gateway_key,
    );
    let ca = references::pem_contents(file.device_ca_cert_path@, RefKind::Public, found.device_ca);
    let crl = references::pem_contents(file.device_crl_path@, RefKind::Public, found.device_crl);
    &&& cert is Some
    &&& key is Some
    &&& ca is Some
    &&& crl is Some
    &&& references::bounded_contents(
        file.controller_trust_path@,
        MAX_CONTROLLER_TRUST_BYTES,
        found.controller_trust,
    ) is Some
    &&& policy_contents(file, found) is Some
    &&& references::journal_fits(
        file.lease_journal_path@,
        found.lease_journal.entry,
        found.lease_journal.parent,
    )
    &&& references::journal_fits(
        file.replay_journal_path@,
        found.replay_journal.entry,
        found.replay_journal.parent,
    )
    &&& references::journals_distinct(
        utf8::encode_utf8(file.lease_journal_path@),
        utf8::encode_utf8(file.replay_journal_path@),
    )
    &&& identity::credentials_of(cert->0, key->0, found.certificate_limits) is Some
    &&& fit
    &&& identity::pem_certificates(ca->0) is Some
    &&& identity::pem_revocation_lists(crl->0) is Some
    &&& found.device_trust_accepted
    &&& (found.controller_trust_file matches Some(file) && trust::trusted(file))
    &&& found.controller_trust_accepted
}

/// The policy file's contents.
pub open spec fn policy_contents(file: V2GatewayConfigFile, found: ConfigFindings) -> Option<
    Seq<u8>,
> {
    references::bounded_contents(
        file.safe_mode_policy_path@,
        MAX_POLICY_FILE_BYTES,
        found.safe_mode_policy,
    )
}

/// Every bound of the configuration holds.
pub open spec fn bounds_hold(file: V2GatewayConfigFile, found: ConfigFindings) -> bool {
    &&& (settings::pool_shape(file, found.pool_addresses) matches Some(shape) && shape.valid())
    &&& found.ticket_verifier_accepted
    &&& found.policy_accepted
    &&& settings::session_bounds(file).valid()
    &&& 0 < file.replay_capacity <= MAX_REPLAY_ENTRIES_HARD_CAP
    &&& settings::limiter_bounds(file).valid()
    &&& settings::listener_bounded(file)
    &&& found.session_sweep_accepted
    &&& 1 <= file.pool_sweep_min_interval_ms <= file.pool_sweep_max_interval_ms
        <= MAX_SWEEP_INTERVAL_MS
}

/// What is said of a configuration: policy first, then names, then the
/// filesystem, then bounds.
pub open spec fn verdict(
    file: V2GatewayConfigFile,
    found: ConfigFindings,
    fit: bool,
) -> Result<(), V2GatewayConfigError> {
    if found.secret_present {
        Err(V2GatewayConfigError::SharedSecretPresent)
    } else if error::lease_mode_verdict(file.lease_mode@) is Err {
        error::lease_mode_verdict(file.lease_mode@)
    } else if error::scope_verdict(file.redemption_scope@) is Err {
        error::scope_verdict(file.redemption_scope@)
    } else if found.bind_addr is None || found.gateway_name is None {
        Err(V2GatewayConfigError::InvalidConfiguration)
    } else if !references_hold(file, found, fit) {
        Err(V2GatewayConfigError::FilesystemRef)
    } else if !bounds_hold(file, found) {
        Err(V2GatewayConfigError::InvalidConfiguration)
    } else {
        Ok(())
    }
}

/// A validated configuration as values: the model that contracts speak of.
pub struct ConfigModel {
    pub bind_addr: BindAddress,
    pub gateway_name: Seq<char>,
    pub identity: (Seq<Seq<u8>>, (nat, Seq<u8>)),
    pub device_trust: (Seq<Seq<u8>>, Seq<Seq<u8>>),
    pub controller_trust: (Seq<ControllerKeyFile>, Seq<TicketId>, u64),
    /// Issuer, audience and region.
    pub ticket_verifier: (Seq<char>, Seq<char>, Seq<char>),
    pub safe_mode_policy: Seq<u8>,
    pub lease_journal_path: Seq<char>,
    pub replay_journal_path: Seq<char>,
    pub replay_capacity: usize,
    pub pool: PoolShape,
    pub sessions: V2SessionManagerConfig,
    pub limiter: HandshakeAdmissionLimiterConfig,
    pub handshake_timeout_ms: nat,
    pub control_stream_timeout_ms: nat,
    pub control_read_timeout_ms: nat,
    pub control_write_timeout_ms: nat,
    pub control_frame_limit: usize,
    pub maximum_connections: usize,
    pub maximum_control_messages_per_connection: u64,
    pub session_sweep: SessionSweepConfig,
    pub pool_sweep: (u64, u64),
}

/// The values are what the file and its references say.
pub open spec fn describes(
    model: ConfigModel,
    file: V2GatewayConfigFile,
    found: ConfigFindings,
) -> bool {
    &&& Some(model.bind_addr) == found.bind_addr
    &&& (found.gateway_name matches Some(name) && model.gateway_name == name@)
    &&& Some(model.identity) == identity::credentials_of(
        references::pem_contents(
            file.gateway_cert_path@,
            RefKind::Public,
            found.gateway_cert,
        )->0,
        references::pem_contents(
            file.gateway_key_path@,
            RefKind::PrivateKey,
            found.gateway_key,
        )->0,
        found.certificate_limits,
    )
    &&& Some(model.device_trust.0) == identity::pem_certificates(
        references::pem_contents(file.device_ca_cert_path@, RefKind::Public, found.device_ca)->0,
    )
    &&& Some(model.device_trust.1) == identity::pem_revocation_lists(
        references::pem_contents(file.device_crl_path@, RefKind::Public, found.device_crl)->0,
    )
    &&& (found.controller_trust_file matches Some(trust_file) && trust::trust_of(
        trust_file,
        model.controller_trust,
    ))
    &&& model.ticket_verifier == (
        file.controller_issuer@,
        file.controller_audience@,
        file.controller_region@,
    )
    &&& Some(model.safe_mode_policy) == policy_contents(file, found)
    &&& model.lease_journal_path == file.lease_journal_path@
    &&& model.replay_journal_path == file.replay_journal_path@
    &&& model.replay_capacity == file.replay_capacity
    &&& Some(model.pool) == settings::pool_shape(file, found.pool_addresses)
    &&& model.sessions == settings::session_bounds(file)
    &&& model.limiter == settings::limiter_bounds(file)
    &&& model.handshake_timeout_ms == file.handshake_timeout_millis
    &&& model.control_stream_timeout_ms == file.control_stream_timeout_millis
    &&& model.control_read_timeout_ms == file.control_read_timeout_millis
    &&& model.control_write_timeout_ms == file.control_write_timeout_millis
    &&& model.control_frame_limit == file.maximum_control_frame_len
    &&& model.maximum_connections == file.maximum_connections
    &&& model.maximum_control_messages_per_connection
        == file.maximum_control_messages_per_connection
    &&& model.session_sweep == SessionSweepConfig {
        min_interval_ms: file.session_sweep_min_interval_ms,
        max_interval_ms: file.session_sweep_max_interval_ms,
    }
    &&& model.pool_sweep == (file.pool_sweep_min_interval_ms, file.pool_sweep_max_interval_ms)
}

/// How validating ends, for either answer on whether key and certificates fit.
pub open spec fn concludes(
    file: V2GatewayConfigFile,
    found: ConfigFindings,
    fit: bool,
    result: Result<V2GatewayConfig, V2GatewayConfigError>,
) -> bool {
    match verdict(file, found, fit) {
        Err(expected) => result matches Err(e) && e == expected,
        Ok(_) => result matches Ok(config) && config.wf() && describes(config@, file, found),
    }
}

/// How loading a configuration ends, for either such answer.
pub open spec fn loads(
    secret_present: bool,
    read: Option<&[u8]>,
    content: Option<(V2GatewayConfigFile, ConfigFindings)>,
    fit: bool,
    result: Result<V2GatewayConfig, V2GatewayConfigError>,
) -> bool {
    let bytes = match read {
        Some(bytes) => Some(bytes@),
        None => None,
    };
    match (file_verdict(secret_present, bytes), content) {
        (Err(expected), _) => result matches Err(e) && e == expected,
        (Ok(_), None) => result matches Err(e) && e == V2GatewayConfigError::Malformed,
        (Ok(_), Some(content)) => concludes(content.0, content.1, fit, result),
    }
}

/// A validated configuration. It has no text form but a redacted one: no
/// path, key, certificate, ticket or policy byte leaves it as text.
pub struct V2GatewayConfig {
    bind_addr: BindAddress,
    gateway_name: String,
    gateway_identity: GatewayIdentity,
    device_trust: DeviceTrust,
    controller_trust: ControllerTrust,
    ticket_verifier: TicketVerifierConfig,
    safe_mode_policy: SafeModePolicy,
    lease_journal_path: String,
    replay_journal_path: String,
    replay_capacity: usize,
    pool_config: AddressPoolConfig,
    session_config: V2SessionManagerConfig,
    limiter_config: HandshakeAdmissionLimiterConfig,
    handshake_timeout: Span,
    control_stream_timeout: Span,
    control_deadlines: ControlDeadlines,
    control_frame_limit: usize,
    maximum_connections: usize,
    maximum_control_messages_per_connection: u64,
    session_sweep: SessionSweepConfig,
    pool_sweep: PoolSweepConfig,
}

impl View for V2GatewayConfig {
    type V = ConfigModel;

    closed spec fn view(&self) -> ConfigModel {
        ConfigModel {
            bind_addr: self.bind_addr,
            gateway_name: self.gateway_name@,
            identity: self.gateway_identity.parts(),
            device_trust: self.device_trust.parts(),
            controller_trust: self.controller_trust.parts(),
            ticket_verifier: (
                self.ticket_verifier.issuer@,
                self.ticket_verifier.audience@,
                self.ticket_verifier.region@,
            ),
            safe_mode_policy: self.safe_mode_policy@,
            lease_journal_path: self.lease_journal_path@,
            replay_journal_path: self.replay_journal_path@,
            replay_capacity: self.replay_capacity,
            pool: self.pool_config@,
            sessions: self.session_config,
            limiter: self.limiter_config,
            handshake_timeout_ms: self.handshake_timeout.millis(),
            control_stream_timeout_ms: self.control_stream_timeout.millis(),
            control_read_timeout_ms: self.control_deadlines.read.millis(),
            control_write_timeout_ms: self.control_deadlines.write.millis(),
            control_frame_limit: self.control_frame_limit,
            maximum_connections: self.maximum_connections,
            maximum_control_messages_per_connection: self.maximum_control_messages_per_connection,
            session_sweep: self.session_sweep,
            pool_sweep: self.pool_sweep.intervals(),
        }
    }
}

/// What is said of a configuration file before it is parsed.
pub open spec fn file_verdict(secret_present: bool, read: Option<Seq<u8>>) -> Result<
    (),
    V2GatewayConfigError,
> {
    if secret_present {
        Err(V2GatewayConfigError::SharedSecretPresent)
    } else if read is None {
        Err(V2GatewayConfigError::Io)
    } else if read->0.len() > MAX_CONFIG_FILE_BYTES {
        Err(V2GatewayConfigError::Malformed)
    } else {
        Ok(())
    }
}

/// Checks a configuration file before it is parsed. `read` is its contents,
/// where they could be read.
pub fn check_config_file(secret_present: bool, read: Option<&[u8]>) -> (result: Result<
    (),
    V2GatewayConfigError,
>)
    ensures
        result == file_verdict(
            secret_present,
            match read {
                Some(bytes) => Some(bytes@),
                None => None,
            },
        ),
{
    if secret_present {
        return Err(V2GatewayConfigError::SharedSecretPresent);
    }
    match read {
        Some(bytes) => {
            if bytes.len() as u64 > MAX_CONFIG_FILE_BYTES {
                return Err(V2GatewayConfigError::Malformed);
            }
            Ok(())
        },
        None => Err(V2GatewayConfigError::Io),
    }
}

impl V2GatewayConfig {
    pub closed spec fn wf(&self) -> bool {
        &&& self.pool_config@.valid()
        &&& self.handshake_timeout.wf()
        &&& self.control_stream_timeout.wf()
        &&& self.control_deadlines.read.wf()
        &&& self.control_deadlines.write.wf()
        &&& self.pool_sweep.valid()
    }

    /// Loads a configuration: from the file's contents, where they could be
    /// read, and from what they say, where they say it, with what was found
    /// where they point.
    pub fn from_file(
        secret_present: bool,
        read: Option<&[u8]>,
        content: Option<(V2GatewayConfigFile, ConfigFindings)>,
    ) -> (result: Result<Self, V2GatewayConfigError>)
        ensures
            exists|fit: bool| #[trigger] loads(secret_present, read, content, fit, result),
    {
        match check_config_file(secret_present, read) {
            Ok(_) => {},
            Err(e) => {
                let result = Err(e);
                assert(loads(secret_present, read, content, true, result));
                return result;
            },
        }
        let (file, found) = match content {
            Some(content) => content,
            None => {
                let result = Err(V2GatewayConfigError::Malformed);
                assert(loads(secret_present, read, content, true, result));
                return result;
            },
        };
        let result = Self::validate(file, found);
        proof {
            let fit = choose|fit: bool| #[trigger] concludes(file, found, fit, result);
            assert(loads(secret_present, read, content, fit, result));
        }
        result
    }

    /// Validates a parsed configuration file. Whether the gateway's key fits
    /// its certificates is for the outside to say; nothing else is.
    pub fn validate(file: V2GatewayConfigFile, found: ConfigFindings) -> (result: Result<
        Self,
        V2GatewayConfigError,
    >)
        ensures
            exists|fit: bool| #[trigger] concludes(file, found, fit, result),
    {
        let fit = match (&found.gateway_cert.contents, &found.gateway_key.contents) {
            (Some(cert_pem), Some(key_pem)) => credentials_fit(
                cert_pem.as_slice(),
                key_pem.as_slice(),
                found.certificate_limits,
            ),
            _ => false,
        };
        let result = Self::validate_fitting(file, found, fit);
        assert(concludes(file, found, fit, result));
        result
    }

    /// Validates a parsed configuration file, given whether the gateway's key
    /// fits its certificates.
    pub fn validate_fitting(
        file: V2GatewayConfigFile,
        found: ConfigFindings,
        fit: bool,
    ) -> (result: Result<Self, V2GatewayConfigError>)
        ensures
            concludes(file, found, fit, result),
    {
        if found.secret_present {
            return Err(V2GatewayConfigError::SharedSecretPresent);
        }
        check_lease_mode(file.lease_mode.as_str())?;
        check_redemption_scope(file.redemption_scope.as_str())?;
        let bind_addr = match found.bind_addr {
            Some(bind_addr) => bind_addr,
            None => {
                return Err(V2GatewayConfigError::InvalidConfiguration);
            },
        };
        let gateway_name = match found.gateway_name {
            Some(gateway_name) => gateway_name,
            None => {
                return Err(V2GatewayConfigError::InvalidConfiguration);
            },
        };
        let cert_pem = read_required_pem(
            file.gateway_cert_path.as_str(),
            RefKind::Public,
            found.gateway_cert,
        )?;
        let key_pem = read_required_pem(
            file.gateway_key_path.as_str(),
            RefKind::PrivateKey,
            found.gateway_key,
        )?;
        let ca_pem = read_required_pem(
            file.device_ca_cert_path.as_str(),
            RefKind::Public,
            found.device_ca,
        )?;
        let crl_pem = read_required_pem(
            file.device_crl_path.as_str(),
            RefKind::Public,
            found.device_crl,
        )?;
        let _ = read_required_bytes(
            file.controller_trust_path.as_str(),
            MAX_CONTROLLER_TRUST_BYTES,
            found.controller_trust,
        )?;
        let policy = read_required_bytes(
            file.safe_mode_policy_path.as_str(),
            MAX_POLICY_FILE_BYTES,
            found.safe_mode_policy,
        )?;
        check_journal_parent(
            file.lease_journal_path.as_str(),
            found.lease_journal.entry,
            found.lease_journal.parent,
        )?;
        check_journal_parent(
            file.replay_journal_path.as_str(),
            found.replay_journal.entry,
            found.replay_journal.parent,
        )?;
        reject_journal_collisions(
            file.lease_journal_path.as_str().as_bytes(),
            file.replay_journal_path.as_str().as_bytes(),
        )?;
        let gateway_identity = assemble_gateway_identity(
            cert_pem.as_slice(),
            key_pem.as_slice(),
            found.certificate_limits,
            fit,
        )?;
        let device_trust = build_device_trust(ca_pem.as_slice(), crl_pem.as_slice())?;
        if !found.device_trust_accepted {
            return Err(V2GatewayConfigError::FilesystemRef);
        }
        let controller_trust = match found.controller_trust_file {
            Some(trust_file) => build_controller_trust(trust_file)?,
            None => {
                return Err(V2GatewayConfigError::FilesystemRef);
            },
        };
        if !found.controller_trust_accepted {
            return Err(V2GatewayConfigError::FilesystemRef);
        }
        assert(references_hold(file, found, fit));
        let pool_config = build_pool_config(&file, &found.pool_addresses)?;
        if !found.ticket_verifier_accepted || !found.policy_accepted {
            return Err(V2GatewayConfigError::InvalidConfiguration);
        }
        let session_config = build_session_config(&file)?;
        if file.replay_capacity == 0 || file.replay_capacity > MAX_REPLAY_ENTRIES_HARD_CAP {
            return Err(V2GatewayConfigError::InvalidConfiguration);
        }
        let limiter_config = build_limiter_config(&file)?;
        check_listener_bounds(&file)?;
        if !found.session_sweep_accepted {
            return Err(V2GatewayConfigError::InvalidConfiguration);
        }
        let pool_sweep = match PoolSweepConfig::new(
            file.pool_sweep_min_interval_ms,
            file.pool_sweep_max_interval_ms,
        ) {
            Some(pool_sweep) => pool_sweep,
            None => {
                return Err(V2GatewayConfigError::InvalidConfiguration);
            },
        };
        Ok(
            V2GatewayConfig {
                bind_addr,
                gateway_name,
                gateway_identity,
                device_trust,
                controller_trust,
                ticket_verifier: TicketVerifierConfig {
                    issuer: file.controller_issuer,
                    audience: file.controller_audience,
                    region: file.controller_region,
                },
                safe_mode_policy: SafeModePolicy::new(policy.as_slice()),
                lease_journal_path: file.lease_journal_path,
                replay_journal_path: file.replay_journal_path,
                replay_capacity: file.replay_capacity,
                pool_config,
                session_config,
                limiter_config,
                handshake_timeout: Span::from_millis(file.handshake_timeout_millis),
                control_stream_timeout: Span::from_millis(file.control_stream_timeout_millis),
                control_deadlines: ControlDeadlines {
                    read: Span::from_millis(file.control_read_timeout_millis),
                    write: Span::from_millis(file.control_write_timeout_millis),
                },
                control_frame_limit: file.maximum_control_frame_len,
                maximum_connections: file.maximum_connections,
                maximum_control_messages_per_connection:
                    file.maximum_control_messages_per_connection,
                session_sweep: SessionSweepConfig {
                    min_interval_ms: file.session_sweep_min_interval_ms,
                    max_interval_ms: file.session_sweep_max_interval_ms,
                },
                pool_sweep,
            },
        )
    }

    pub fn bind_addr(&self) -> (address: BindAddress)
        ensures
            address == self@.bind_addr,
    {
        self.bind_addr
    }

    pub fn gateway_name(&self) -> (name: &str)
        ensures
            name@ == self@.gateway_name,
    {
        self.gateway_name.as_str()
    }

    /// The name that the replay journal is bound to.
    pub fn gateway_name_string(&self) -> (name: &String)
        ensures
            name@ == self@.gateway_name,
    {
        &self.gateway_name
    }

    pub fn gateway_identity(&self) -> (identity: &GatewayIdentity)
        ensures
            identity.parts() == self@.identity,
    {
        &self.gateway_identity
    }

    pub fn device_trust(&self) -> (trust: &DeviceTrust)
        ensures
            trust.parts() == self@.device_trust,
    {
        &self.device_trust
    }

    pub fn controller_trust(&self) -> (trust: &ControllerTrust)
        ensures
            trust.parts() == self@.controller_trust,
    {
        &self.controller_trust
    }

    pub fn ticket_verifier(&self) -> (verifier: &TicketVerifierConfig)
        ensures
            (verifier.issuer@, verifier.audience@, verifier.region@) == self@.ticket_verifier,
    {
        &self.ticket_verifier
    }

    pub fn safe_mode_policy(&self) -> (policy: &SafeModePolicy)
        ensures
            policy@ == self@.safe_mode_policy,
    {
        &self.safe_mode_policy
    }

    pub fn lease_journal_path(&self) -> (path: &str)
        ensures
            path@ == self@.lease_journal_path,
    {
        self.lease_journal_path.as_str()
    }

    pub fn replay_journal_path(&self) -> (path: &str)
        ensures
            path@ == self@.replay_journal_path,
    {
        self.replay_journal_path.as_str()
    }

    pub fn replay_capacity(&self) -> (capacity: usize)
        ensures
            capacity == self@.replay_capacity,
    {
        self.replay_capacity
    }

    pub fn pool_config(&self) -> (config: &AddressPoolConfig)
        requires
            self.wf(),
        ensures
            config@ == self@.pool,
            config@.valid(),
    {
        &self.pool_config
    }

    pub fn session_config(&self) -> (config: &V2SessionManagerConfig)
        ensures
            *config == self@.sessions,
    {
        &self.session_config
    }

    pub fn limiter_config(&self) -> (config: &HandshakeAdmissionLimiterConfig)
        ensures
            *config == self@.limiter,
    {
        &self.limiter_config
    }

    pub fn handshake_timeout(&self) -> (timeout: Span)
        requires
            self.wf(),
        ensures
            timeout.wf(),
            timeout.millis() == self@.handshake_timeout_ms,
    {
        self.handshake_timeout
    }

    pub fn control_stream_timeout(&self) -> (timeout: Span)
        requires
            self.wf(),
        ensures
            timeout.wf(),
            timeout.millis() == self@.control_stream_timeout_ms,
    {
        self.control_stream_timeout
    }

    pub fn control_deadlines(&self) -> (deadlines: ControlDeadlines)
        requires
            self.wf(),
        ensures
            deadlines.read.wf() && deadlines.write.wf(),
            deadlines.read.millis() == self@.control_read_timeout_ms,
            deadlines.write.millis() == self@.control_write_timeout_ms,
    {
        self.control_deadlines
    }

    pub fn control_frame_limit(&self) -> (limit: usize)
        ensures
            limit == self@.control_frame_limit,
    {
        self.control_frame_limit
    }

    pub fn maximum_connections(&self) -> (maximum: usize)
        ensures
            maximum == self@.maximum_connections,
    {
        self.maximum_connections
    }

    pub fn maximum_control_messages_per_connection(&self) -> (maximum: u64)
        ensures
            maximum == self@.maximum_control_messages_per_connection,
    {
        self.maximum_control_messages_per_connection
    }

    pub fn session_sweep(&self) -> (config: SessionSweepConfig)
        ensures
            config == self@.session_sweep,
    {
        self.session_sweep
    }

    pub fn pool_sweep(&self) -> (config: PoolSweepConfig)
        requires
            self.wf(),
        ensures
            config.intervals() == self@.pool_sweep,
            config.valid(),
    {
        self.pool_sweep
    }

    /// All the text that a log may hold of a configuration.
    pub fn redacted(&self) -> (text: &'static str)
        ensures
            text@ == "V2GatewayConfig(REDACTED)"@,
    {
        "V2GatewayConfig(REDACTED)"
    }

    /// Moves every validated value out.
    pub fn into_parts(self) -> (parts: (
        BindAddress,
        String,
        GatewayIdentity,
        DeviceTrust,
        ControllerTrust,
        TicketVerifierConfig,
        SafeModePolicy,
        String,
        String,
        usize,
        AddressPoolConfig,
        V2SessionManagerConfig,
        HandshakeAdmissionLimiterConfig,
        Span,
        Span,
        ControlDeadlines,
        usize,
        usize,
        u64,
        SessionSweepConfig,
        PoolSweepConfig,
    ))
        requires
            self.wf(),
        ensures
            parts.0 == self@.bind_addr,
            parts.1@ == self@.gateway_name,
            parts.2.parts() == self@.identity,
            parts.3.parts() == self@.device_trust,
            parts.4.parts() == self@.controller_trust,
            (parts.5.issuer@, parts.5.audience@, parts.5.region@) == self@.ticket_verifier,
            parts.6@ == self@.safe_mode_policy,
            parts.7@ == self@.lease_journal_path,
            parts.8@ == self@.replay_journal_path,
            parts.9 == self@.replay_capacity,
            parts.10@ == self@.pool && parts.10@.valid(),
            parts.11 == self@.sessions,
            parts.12 == self@.limiter,
            parts.13.wf() && parts.13.millis() == self@.handshake_timeout_ms,
            parts.14.wf() && parts.14.millis() == self@.control_stream_timeout_ms,
            parts.15.read.wf() && parts.15.read.millis() == self@.control_read_timeout_ms,
            parts.15.write.wf() && parts.15.write.millis() == self@.control_write_timeout_ms,
            parts.16 == self@.control_frame_limit,
            parts.17 == self@.maximum_connections,
            parts.18 == self@.maximum_control_messages_per_connection,
            parts.19 == self@.session_sweep,
            parts.20.intervals() == self@.pool_sweep && parts.20.valid(),
    {
        (
            self.bind_addr,
            self.gateway_name,
            self.gateway_identity,
            self.device_trust,
            self.controller_trust,
            self.ticket_verifier,
            self.safe_mode_policy,
            self.lease_journal_path,
            self.replay_journal_path,
            self.replay_capacity,
            self.pool_config,
            self.session_config,
            self.limiter_config,
            self.handshake_timeout,
            self.control_stream_timeout,
            self.control_deadlines,
            self.control_frame_limit,
            self.maximum_connections,
            self.maximum_control_messages_per_connection,
            self.session_sweep,
            self.pool_sweep,
        )
    }
}

/// An accepted configuration is bounded throughout: no bound is zero, and
/// connections, messages, leases, replay entries and sweep intervals have
/// their caps.
pub proof fn law_accepted_configurations_are_bounded(
    file: V2GatewayConfigFile,
    found: ConfigFindings,
    fit: bool,
    model: ConfigModel,
)
    requires
        verdict(file, found, fit) is Ok,
        describes(model, file, found),
    ensures
        model.pool.valid(),
        model.sessions.valid(),
        model.limiter.valid(),
        0 < model.replay_capacity <= MAX_REPLAY_ENTRIES_HARD_CAP,
        0 < model.handshake_timeout_ms,
        0 < model.control_stream_timeout_ms,
        0 < model.control_read_timeout_ms,
        0 < model.control_write_timeout_ms,
        0 < model.control_frame_limit,
        0 < model.maximum_connections <= MAX_CONNECTIONS_HARD_CAP,
        0 < model.maximum_control_messages_per_connection <= MAX_CONTROL_MESSAGES_HARD_CAP,
        1 <= model.pool_sweep.0 <= model.pool_sweep.1 <= MAX_SWEEP_INTERVAL_MS,
{
}

/// An accepted configuration keeps its journals and their temporary files
/// apart, and its private key unreadable to anyone but its owner.
pub proof fn law_accepted_configurations_are_separate_and_private(
    file: V2GatewayConfigFile,
    found: ConfigFindings,
    fit: bool,
    model: ConfigModel,
)
    requires
        verdict(file, found, fit) is Ok,
        describes(model, file, found),
    ensures
        references::journals_distinct(
            utf8::encode_utf8(model.lease_journal_path),
            utf8::encode_utf8(model.replay_journal_path),
        ),
        found.gateway_key.stat matches Some(stat) && stat.file.secure(),
{
}

/// Without a shared secret, in self-hosted mode and with one gateway
/// redeeming: nothing else is ever accepted.
pub proof fn law_policy_comes_first(
    file: V2GatewayConfigFile,
    found: ConfigFindings,
    fit: bool,
)
    ensures
        verdict(file, found, fit) is Ok ==> !found.secret_present && file.lease_mode@
            == "self-hosted"@ && file.redemption_scope@ == "single-gateway"@,
        found.secret_present ==> verdict(file, found, fit) == Err::<(), V2GatewayConfigError>(
            V2GatewayConfigError::SharedSecretPresent,
        ),
{
}

/// A configuration file is parsed unless a shared secret is set, it could not be
/// read, or it is over 65,536 bytes.
pub proof fn law_files_are_parsed(secret_present: bool, read: Option<Seq<u8>>)
    ensures
        secret_present ==> file_verdict(secret_present, read) == Err::<(), V2GatewayConfigError>(
            V2GatewayConfigError::SharedSecretPresent,
        ),
        !secret_present && read is None ==> file_verdict(secret_present, read) == Err::<
            (),
            V2GatewayConfigError,
        >(V2GatewayConfigError::Io),
        !secret_present && read is Some && read->0.len() > 65_536 ==> file_verdict(
            secret_present,
            read,
        ) == Err::<(), V2GatewayConfigError>(V2GatewayConfigError::Malformed),
        !secret_present && read is Some && read->0.len() <= 65_536 ==> file_verdict(
            secret_present,
            read,
        ) is Ok,
{
}

/// The lease mode and the redemption scope are accepted in one spelling each. A scope
/// that names several gateways is told apart from one that names nothing.
pub proof fn law_only_one_mode_and_scope(mode: Seq<char>, scope: Seq<char>)
    ensures
        error::lease_mode_verdict(mode) == if mode == "self-hosted"@ {
            Ok::<(), V2GatewayConfigError>(())
        } else {
            Err(V2GatewayConfigError::LeaseModeRejected)
        },
        error::scope_verdict(scope) == if scope == "single-gateway"@ {
            Ok::<(), V2GatewayConfigError>(())
        } else if scope == "multi-gateway"@ || scope == "shared"@ || scope == "multi"@ || scope
            == "clustered"@ {
            Err(V2GatewayConfigError::RedemptionScopeRejected)
        } else {
            Err(V2GatewayConfigError::RedemptionScopeInvalid)
        },
{
}

/// The bounds of a configuration, each of them: the pool's, the sessions', the
/// handshakes' and the listener's, one to 65,536 redeemed tickets, a session sweep
/// that is accepted, and a pool sweep between a millisecond and an hour, the shorter
/// interval first.
pub proof fn law_configuration_bounds(file: V2GatewayConfigFile, found: ConfigFindings)
    ensures
        bounds_hold(file, found) <==> {
            &&& (settings::pool_shape(file, found.pool_addresses) matches Some(shape)
                && shape.valid())
            &&& found.ticket_verifier_accepted
            &&& found.policy_accepted
            &&& settings::session_bounds(file).valid()
            &&& 1 <= file.replay_capacity <= 65_536
            &&& settings::limiter_bounds(file).valid()
            &&& settings::listener_bounded(file)
            &&& found.session_sweep_accepted
            &&& 1 <= file.pool_sweep_min_interval_ms
            &&& file.pool_sweep_min_interval_ms <= file.pool_sweep_max_interval_ms
            &&& file.pool_sweep_max_interval_ms <= 3_600_000
        },
{
}

/// A configuration is accepted wherever nothing is wrong with it: no shared secret,
/// the one mode and the one scope, a bind address and a name, references that hold
/// and bounds that hold. What is wrong first, in that order, is what is said.
pub proof fn law_sound_configurations_are_accepted(
    file: V2GatewayConfigFile,
    found: ConfigFindings,
    fit: bool,
)
    requires
        !found.secret_present,
        file.lease_mode@ == "self-hosted"@,
        file.redemption_scope@ == "single-gateway"@,
    ensures
        found.bind_addr is Some && found.gateway_name is Some && references_hold(file, found, fit)
            && bounds_hold(file, found) ==> verdict(file, found, fit) is Ok,
        found.bind_addr is None || found.gateway_name is None ==> verdict(file, found, fit) == Err::<
            (),
            V2GatewayConfigError,
        >(V2GatewayConfigError::InvalidConfiguration),
        found.bind_addr is Some && found.gateway_name is Some && !references_hold(file, found, fit)
            ==> verdict(file, found, fit) == Err::<(), V2GatewayConfigError>(
            V2GatewayConfigError::FilesystemRef,
        ),
        found.bind_addr is Some && found.gateway_name is Some && references_hold(file, found, fit)
            && !bounds_hold(file, found) ==> verdict(file, found, fit) == Err::<
            (),
            V2GatewayConfigError,
        >(V2GatewayConfigError::InvalidConfiguration),
{
}

/// References hold exactly where every file that is named can be used: the four PEM
/// files, the controller-trust file up to 262,144 bytes, the policy up to 4,096, and
/// two journals that keep apart; and where what was read of them is a chain with its
/// key, roots, revocation lists and a trust file that are accepted.
pub proof fn law_references_hold_together(
    file: V2GatewayConfigFile,
    found: ConfigFindings,
    fit: bool,
)
    ensures
        references_hold(file, found, fit) <==> {
            let cert = references::pem_contents(
                file.gateway_cert_path@,
                RefKind::Public,
                found.gateway_cert,
            );
            let key = references::pem_contents(
                file.gateway_key_path@,
                RefKind::PrivateKey,
                found.gateway_key,
            );
            let ca = references::pem_contents(
                file.device_ca_cert_path@,
                RefKind::Public,
                found.device_ca,
            );
            let crl = references::pem_contents(
                file.device_crl_path@,
                RefKind::Public,
                found.device_crl,
            );
            &&& cert is Some && key is Some && ca is Some && crl is Some
            &&& references::bounded_contents(
                file.controller_trust_path@,
                262_144,
                found.controller_trust,
            ) is Some
            &&& references::bounded_contents(
                file.safe_mode_policy_path@,
                4_096,
                found.safe_mode_policy,
            ) is Some
            &&& references::journal_fits(
                file.lease_journal_path@,
                found.lease_journal.entry,
                found.lease_journal.parent,
            )
            &&& references::journal_fits(
                file.replay_journal_path@,
                found.replay_journal.entry,
                found.replay_journal.parent,
            )
            &&& references::journals_distinct(
                utf8::encode_utf8(file.lease_journal_path@),
                utf8::encode_utf8(file.replay_journal_path@),
            )
            &&& identity::credentials_of(cert->0, key->0, found.certificate_limits) is Some && fit
            &&& identity::pem_certificates(ca->0) is Some
            &&& identity::pem_revocation_lists(crl->0) is Some
            &&& found.device_trust_accepted
            &&& found.controller_trust_file is Some
            &&& trust::trusted(found.controller_trust_file->0)
            &&& found.controller_trust_accepted
        },
{
}

/// An accepted configuration says what its file says, field by field.
pub proof fn law_configurations_say_what_their_files_say(
    file: V2GatewayConfigFile,
    found: ConfigFindings,
    fit: bool,
    config: V2GatewayConfig,
)
    requires
        concludes(file, found, fit, Ok::<_, V2GatewayConfigError>(config)),
    ensures
        found.bind_addr == Some(config@.bind_addr),
        found.gateway_name is Some,
        config@.gateway_name == found.gateway_name->0@,
        config@.ticket_verifier.0 == file.controller_issuer@,
        config@.ticket_verifier.1 == file.controller_audience@,
        config@.ticket_verifier.2 == file.controller_region@,
        found.safe_mode_policy.contents is Some,
        config@.safe_mode_policy == found.safe_mode_policy.contents->0@,
        config@.lease_journal_path == file.lease_journal_path@,
        config@.replay_journal_path == file.replay_journal_path@,
        config@.replay_capacity == file.replay_capacity,
        config@.pool.max_leases == file.maximum_leases,
        config@.pool.pending_ttl == file.pending_ttl_ms,
        config@.pool.lease_ttl == file.lease_ttl_ms,
        config@.pool.max_quarantine == file.maximum_pending_releases,
        config@.pool.v4_len == file.ipv4_prefix_len,
        config@.pool.v6_len == file.ipv6_parent_prefix_len,
        config@.sessions.maximum_sessions == file.maximum_sessions,
        config@.sessions.idle_ttl_ms == file.idle_ttl_ms,
        config@.limiter.source_capacity == file.source_capacity,
        config@.limiter.source_ttl_millis == file.source_ttl_millis,
        config@.handshake_timeout_ms == file.handshake_timeout_millis,
        config@.control_stream_timeout_ms == file.control_stream_timeout_millis,
        config@.control_read_timeout_ms == file.control_read_timeout_millis,
        config@.control_write_timeout_ms == file.control_write_timeout_millis,
        config@.control_frame_limit == file.maximum_control_frame_len,
        config@.maximum_connections == file.maximum_connections,
        config@.maximum_control_messages_per_connection
            == file.maximum_control_messages_per_connection,
        config@.session_sweep.min_interval_ms == file.session_sweep_min_interval_ms,
        config@.session_sweep.max_interval_ms == file.session_sweep_max_interval_ms,
        config@.pool_sweep.0 == file.pool_sweep_min_interval_ms,
        config@.pool_sweep.1 == file.pool_sweep_max_interval_ms,
        found.gateway_cert.contents is Some && found.gateway_key.contents is Some,
        Some(config@.identity) == identity::credentials_of(
            found.gateway_cert.contents->0@,
            found.gateway_key.contents->0@,
            found.certificate_limits,
        ),
        Some(config@.device_trust.0) == identity::pem_certificates(
            found.device_ca.contents->0@,
        ),
        Some(config@.device_trust.1) == identity::pem_revocation_lists(
            found.device_crl.contents->0@,
        ),
        found.controller_trust_file is Some,
        config@.controller_trust.0 == found.controller_trust_file->0.keys@,
        config@.controller_trust.1.len()
            == found.controller_trust_file->0.revoked_ticket_ids@.len(),
        config@.controller_trust.2 == found.controller_trust_file->0.fresh_until_unix_seconds,
{
}

/// How a configuration is loaded: a file that may not be parsed says why, one that does
/// not hold a configuration is malformed, and any other is validated.
pub proof fn law_configurations_are_loaded(
    secret_present: bool,
    read: Option<&[u8]>,
    content: Option<(V2GatewayConfigFile, ConfigFindings)>,
    fit: bool,
    result: Result<V2GatewayConfig, V2GatewayConfigError>,
)
    requires
        loads(secret_present, read, content, fit, result),
    ensures
        secret_present ==> (result matches Err(e) && e
            == V2GatewayConfigError::SharedSecretPresent),
        !secret_present && read is None ==> (result matches Err(e) && e
            == V2GatewayConfigError::Io),
        !secret_present && read is Some && (read->0@.len() > 65_536 || content is None)
            ==> (result matches Err(e) && e
            == V2GatewayConfigError::Malformed),
        !secret_present && read is Some && read->0@.len() <= 65_536 ==> (content matches Some(c)
            ==> concludes(c.0, c.1, fit, result)),
{
}

/// What is said first: a shared secret, then a lease mode that is not the one there is,
/// then a redemption scope that is not.
pub proof fn law_policy_comes_before_files(
    file: V2GatewayConfigFile,
    found: ConfigFindings,
    fit: bool,
)
    ensures
        ({
            let said = verdict(file, found, fit);
            let secret = found.secret_present;
            let mode = file.lease_mode@ == "self-hosted"@;
            let single = file.redemption_scope@ == "single-gateway"@;
            let many = file.redemption_scope@ == "multi-gateway"@ || file.redemption_scope@
                == "shared"@ || file.redemption_scope@ == "multi"@ || file.redemption_scope@
                == "clustered"@;
            &&& secret ==> said == Err::<(), V2GatewayConfigError>(
                V2GatewayConfigError::SharedSecretPresent,
            )
            &&& !secret && !mode ==> said == Err::<(), V2GatewayConfigError>(
                V2GatewayConfigError::LeaseModeRejected,
            )
            &&& !secret && mode && !single && many ==> said == Err::<(), V2GatewayConfigError>(
                V2GatewayConfigError::RedemptionScopeRejected,
            )
            &&& !secret && mode && !single && !many ==> said == Err::<(), V2GatewayConfigError>(
                V2GatewayConfigError::RedemptionScopeInvalid,
            )
        }),
{
}

} // verus!
