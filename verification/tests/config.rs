use streamguard_gateway::ids::TicketId;
use streamguard_gateway::v2::admission::SourceAddress;
use streamguard_gateway::v2::config::error::{check_lease_mode, check_redemption_scope};
use streamguard_gateway::v2::config::settings::{non_zero, non_zero_u64};
use streamguard_gateway::v2::config::trust::hex_lower;
use streamguard_gateway::v2::config::{
    build_controller_trust, check_config_file, check_journal_parent, check_required_file,
    parse_uuid_lower, read_required_bytes, BindAddress, ConfigFindings, ControllerKeyFile,
    ControllerTrustFile, JournalEntry, JournalFindings, PoolAddresses, RefKind, RefStat,
    RequiredFile, V2GatewayConfig, V2GatewayConfigError, V2GatewayConfigFile,
};
use streamguard_gateway::v2::identity::CertificateLimits;
use streamguard_gateway::v2::secure_journal::{FileKind, FileStat};

const CRL_PEM: &str = "-----BEGIN X509 CRL-----\nAQIDBA==\n-----END X509 CRL-----\n";

struct Credentials {
    certificate_pem: String,
    key_pem: String,
    certificate_der: Vec<u8>,
}

fn credentials() -> Credentials {
    let certified = rcgen::generate_simple_self_signed(vec!["localhost".to_string()]).unwrap();
    Credentials {
        certificate_pem: certified.cert.pem(),
        key_pem: certified.key_pair.serialize_pem(),
        certificate_der: certified.cert.der().to_vec(),
    }
}

fn stat(mode: u32, len: u64) -> RefStat {
    RefStat { file: FileStat { kind: FileKind::Regular, mode }, len }
}

fn readable(contents: &[u8], mode: u32) -> RequiredFile {
    RequiredFile {
        stat: Some(stat(mode, contents.len() as u64)),
        contents: Some(contents.to_vec()),
    }
}

fn trust_file() -> ControllerTrustFile {
    ControllerTrustFile {
        keys: vec![ControllerKeyFile {
            key_id: "key-1".to_string(),
            public_key_x: "x".to_string(),
        }],
        revoked_ticket_ids: vec!["01010101-0101-0101-0101-010101010101".to_string()],
        fresh_until_unix_seconds: 9_000,
    }
}

fn config_file() -> V2GatewayConfigFile {
    V2GatewayConfigFile {
        bind_addr: "127.0.0.1:0".to_string(),
        gateway_name: "IAD-1".to_string(),
        gateway_cert_path: "/etc/sg/cert.pem".to_string(),
        gateway_key_path: "/etc/sg/key.pem".to_string(),
        device_ca_cert_path: "/etc/sg/ca.pem".to_string(),
        device_crl_path: "/etc/sg/crl.pem".to_string(),
        controller_trust_path: "/etc/sg/trust.json".to_string(),
        safe_mode_policy_path: "/etc/sg/policy".to_string(),
        lease_journal_path: "/var/lib/sg/leases.journal".to_string(),
        replay_journal_path: "/var/lib/sg/replay.journal".to_string(),
        lease_mode: "self-hosted".to_string(),
        redemption_scope: "single-gateway".to_string(),
        controller_issuer: "issuer".to_string(),
        controller_audience: "audience".to_string(),
        controller_region: "region".to_string(),
        ipv4_network: "10.64.0.0".to_string(),
        ipv4_prefix_len: 24,
        ipv4_gateway: "10.64.0.1".to_string(),
        reserved_ipv4: vec!["10.64.0.254".to_string()],
        ipv6_base: "fd00::".to_string(),
        ipv6_parent_prefix_len: 48,
        maximum_leases: 4,
        pending_ttl_ms: 5_000,
        lease_ttl_ms: 60_000,
        maximum_pending_releases: 4,
        maximum_sessions: 4,
        idle_ttl_ms: 120_000,
        maximum_paths_per_session: 2,
        maximum_pending_attaches: 2,
        pending_attach_ttl_ms: 5_000,
        maximum_path_epoch_history: 4,
        maximum_path_tombstones: 2,
        path_tombstone_ttl_ms: 5_000,
        replay_capacity: 1_024,
        source_capacity: 16,
        source_ttl_millis: 1_000,
        maximum_per_source_in_flight: 2,
        maximum_global_in_flight: 8,
        maximum_verification_budget_millis: 250,
        handshake_timeout_millis: 5_000,
        control_stream_timeout_millis: 4_000,
        control_read_timeout_millis: 3_000,
        control_write_timeout_millis: 2_000,
        maximum_control_frame_len: 16_384,
        maximum_connections: 8,
        maximum_control_messages_per_connection: 64,
        session_sweep_min_interval_ms: 100,
        session_sweep_max_interval_ms: 200,
        pool_sweep_min_interval_ms: 300,
        pool_sweep_max_interval_ms: 400,
    }
}

fn findings(credentials: &Credentials) -> ConfigFindings {
    let missing = JournalFindings {
        entry: JournalEntry::Missing,
        parent: Some(FileStat { kind: FileKind::Directory, mode: 0o700 }),
    };
    ConfigFindings {
        secret_present: false,
        bind_addr: Some(BindAddress { host: SourceAddress::V4(0x7f00_0001), port: 0 }),
        gateway_name: Some("iad-1".to_string()),
        gateway_cert: readable(credentials.certificate_pem.as_bytes(), 0o644),
        gateway_key: readable(credentials.key_pem.as_bytes(), 0o600),
        device_ca: readable(credentials.certificate_pem.as_bytes(), 0o644),
        device_crl: readable(CRL_PEM.as_bytes(), 0o644),
        controller_trust: readable(b"{}", 0o644),
        safe_mode_policy: readable(b"policy", 0o644),
        lease_journal: missing,
        replay_journal: missing,
        device_trust_accepted: true,
        controller_trust_file: Some(trust_file()),
        controller_trust_accepted: true,
        pool_addresses: PoolAddresses {
            network: Some([10, 64, 0, 0]),
            gateway: Some([10, 64, 0, 1]),
            reserved: vec![Some([10, 64, 0, 254])],
            ipv6_base: Some([0xfd, 0, 0, 0, 0, 0, 0, 0, 0, 0, 0, 0, 0, 0, 0, 0]),
        },
        ticket_verifier_accepted: true,
        policy_accepted: true,
        session_sweep_accepted: true,
        certificate_limits: CertificateLimits { chain_len: 8, der_len: 65_536 },
    }
}

fn refusal(file: V2GatewayConfigFile, found: ConfigFindings) -> V2GatewayConfigError {
    match V2GatewayConfig::validate(file, found) {
        Ok(_) => panic!("the configuration passed"),
        Err(error) => error,
    }
}

#[test]
fn lease_mode_rejects_anything_but_self_hosted() {
    for (mode, expected) in [
        ("self-hosted", true),
        ("ephemeral", false),
        ("managed", false),
        ("SELF-HOSTED", false),
        ("", false),
    ] {
        assert_eq!(check_lease_mode(mode).is_ok(), expected, "mode: {mode}");
    }
    assert_eq!(check_lease_mode("managed"), Err(V2GatewayConfigError::LeaseModeRejected));
}

#[test]
fn uuid_parser_matches_ticket_claim_rules() {
    assert_eq!(parse_uuid_lower("01010101-0101-0101-0101-010101010101"), Some([1; 16]));
    for invalid in [
        "01010101-0101-0101-0101-01010101010A",
        "01010101010101010101010101010101",
        "",
        "01010101-0101-0101-0101-010101010101 ",
    ] {
        assert_eq!(parse_uuid_lower(invalid), None, "input: {invalid}");
    }
}

#[test]
fn uuids_keep_their_byte_order() {
    assert_eq!(
        parse_uuid_lower("00112233-4455-6677-8899-aabbccddeeff"),
        Some([
            0x00, 0x11, 0x22, 0x33, 0x44, 0x55, 0x66, 0x77, 0x88, 0x99, 0xaa, 0xbb, 0xcc, 0xdd,
            0xee, 0xff
        ])
    );
    assert_eq!(parse_uuid_lower("0011223344-55-6677-8899-aabbccddeeff"), None);
    assert_eq!(hex_lower(b'9'), Some(9));
    assert_eq!(hex_lower(b'f'), Some(15));
    assert_eq!(hex_lower(b'g'), None);
}

#[test]
fn config_debug_never_includes_paths_or_secrets() {
    let credentials = credentials();
    let config = V2GatewayConfig::validate(config_file(), findings(&credentials)).ok().unwrap();
    let debug = config.redacted();
    assert_eq!(debug, "V2GatewayConfig(REDACTED)");
    assert!(debug.contains("REDACTED"));
    assert!(!debug.contains("/etc/"));
}

#[test]
fn a_key_that_does_not_fit_is_refused() {
    let credentials = credentials();
    assert!(
        V2GatewayConfig::validate_fitting(config_file(), findings(&credentials), true).is_ok()
    );
    assert_eq!(
        V2GatewayConfig::validate_fitting(config_file(), findings(&credentials), false).err(),
        Some(V2GatewayConfigError::FilesystemRef)
    );
}

#[test]
fn a_sound_configuration_is_taken_over() {
    let credentials = credentials();
    let config = V2GatewayConfig::validate(config_file(), findings(&credentials)).ok().unwrap();
    assert_eq!(config.bind_addr().host, SourceAddress::V4(0x7f00_0001));
    assert_eq!(config.gateway_name(), "iad-1");
    assert_eq!(config.gateway_name_string(), "iad-1");
    assert_eq!(config.gateway_identity().chain(), &vec![credentials.certificate_der.clone()]);
    assert_eq!(config.device_trust().roots(), &vec![credentials.certificate_der.clone()]);
    assert_eq!(config.device_trust().revocation_lists(), &vec![vec![1u8, 2, 3, 4]]);
    assert_eq!(config.controller_trust().revoked(), &vec![TicketId::from_bytes([1; 16])]);
    assert_eq!(config.controller_trust().fresh_until_unix_seconds(), 9_000);
    assert_eq!(config.controller_trust().keys()[0].key_id, "key-1");
    assert_eq!(config.ticket_verifier().audience, "audience");
    assert_eq!(&config.safe_mode_policy().encoded()[..], b"policy");
    assert_eq!(config.lease_journal_path(), "/var/lib/sg/leases.journal");
    assert_eq!(config.replay_journal_path(), "/var/lib/sg/replay.journal");
    assert_eq!(config.replay_capacity(), 1_024);
    assert_eq!(config.pool_config().maximum_leases(), 4);
    assert_eq!(config.pool_config().ipv4_gateway(), [10, 64, 0, 1]);
    assert_eq!(config.session_config().maximum_path_epoch_history, 4);
    assert_eq!(config.limiter_config().maximum_global_in_flight, 8);
    assert_eq!(config.handshake_timeout().as_millis(), 5_000);
    assert_eq!(config.control_stream_timeout().as_millis(), 4_000);
    assert_eq!(config.control_deadlines().read.as_millis(), 3_000);
    assert_eq!(config.control_deadlines().write.as_millis(), 2_000);
    assert_eq!(config.control_frame_limit(), 16_384);
    assert_eq!(config.maximum_connections(), 8);
    assert_eq!(config.maximum_control_messages_per_connection(), 64);
    assert_eq!(config.session_sweep().max_interval_ms, 200);
    assert_eq!(config.pool_sweep().min_interval_ms(), 300);
    let parts = config.into_parts();
    assert_eq!(parts.1, "iad-1");
    assert_eq!(parts.9, 1_024);
    assert_eq!(parts.18, 64);
}

#[test]
fn policy_is_checked_before_anything_else() {
    let credentials = credentials();
    let mut found = findings(&credentials);
    found.secret_present = true;
    let mut file = config_file();
    file.lease_mode = "managed".to_string();
    assert_eq!(refusal(file, found), V2GatewayConfigError::SharedSecretPresent);
    let mut file = config_file();
    file.lease_mode = "managed".to_string();
    file.redemption_scope = "shared".to_string();
    assert_eq!(refusal(file, findings(&credentials)), V2GatewayConfigError::LeaseModeRejected);
    assert_eq!(
        check_redemption_scope("multi-gateway"),
        Err(V2GatewayConfigError::RedemptionScopeRejected)
    );
    assert_eq!(
        check_redemption_scope("single"),
        Err(V2GatewayConfigError::RedemptionScopeInvalid)
    );
    let mut file = config_file();
    file.redemption_scope = "clustered".to_string();
    assert_eq!(
        refusal(file, findings(&credentials)),
        V2GatewayConfigError::RedemptionScopeRejected
    );
}

#[test]
fn references_are_refused_before_bounds() {
    let credentials = credentials();
    let refused = V2GatewayConfigError::FilesystemRef;
    // Every reference in turn, with a bound that is wrong as well.
    let breakers: Vec<fn(&mut ConfigFindings)> = vec![
        |found| found.gateway_cert.stat = None,
        |found| found.gateway_key.stat.as_mut().unwrap().file.mode = 0o640,
        |found| found.device_ca.contents = None,
        |found| found.device_crl.stat.as_mut().unwrap().file.kind = FileKind::Symlink,
        |found| found.controller_trust.contents = Some(vec![]),
        |found| found.safe_mode_policy.stat.as_mut().unwrap().len = 4_097,
        |found| found.lease_journal.parent = None,
        |found| found.replay_journal.entry = JournalEntry::Unreadable,
        |found| found.device_trust_accepted = false,
        |found| found.controller_trust_file = None,
        |found| found.controller_trust_accepted = false,
        |found| found.certificate_limits.chain_len = 0,
        |found| found.gateway_cert.contents = Some(b"no certificate".to_vec()),
        |found| found.gateway_key.contents = Some(b"no key".to_vec()),
    ];
    for breaker in breakers {
        let mut found = findings(&credentials);
        breaker(&mut found);
        let mut file = config_file();
        file.maximum_connections = 0;
        assert_eq!(refusal(file, found), refused);
    }
    let mut file = config_file();
    file.replay_journal_path = "/var/lib/sg/leases.tmp".to_string();
    assert_eq!(refusal(file, findings(&credentials)), refused);
}

#[test]
fn a_key_must_fit_its_certificate() {
    let mine = credentials();
    let other = credentials();
    let mut found = findings(&mine);
    found.gateway_key = readable(other.key_pem.as_bytes(), 0o600);
    assert_eq!(refusal(config_file(), found), V2GatewayConfigError::FilesystemRef);
}

#[test]
fn bounds_are_refused_last() {
    let credentials = credentials();
    let breakers: Vec<fn(&mut V2GatewayConfigFile)> = vec![
        |file| file.maximum_leases = 0,
        |file| file.maximum_sessions = 0,
        |file| file.maximum_path_epoch_history = 1,
        |file| file.replay_capacity = 65_537,
        |file| file.source_capacity = 0,
        |file| file.handshake_timeout_millis = 0,
        |file| file.maximum_control_frame_len = 0,
        |file| file.maximum_connections = 1_025,
        |file| file.maximum_control_messages_per_connection = 1_025,
        |file| file.pool_sweep_min_interval_ms = 500,
    ];
    for breaker in breakers {
        let mut file = config_file();
        breaker(&mut file);
        assert_eq!(
            refusal(file, findings(&credentials)),
            V2GatewayConfigError::InvalidConfiguration
        );
    }
    let verdicts: Vec<fn(&mut ConfigFindings)> = vec![
        |found| found.bind_addr = None,
        |found| found.gateway_name = None,
        |found| found.pool_addresses.network = None,
        |found| found.pool_addresses.reserved = vec![None],
        |found| found.ticket_verifier_accepted = false,
        |found| found.policy_accepted = false,
        |found| found.session_sweep_accepted = false,
    ];
    for verdict in verdicts {
        let mut found = findings(&credentials);
        verdict(&mut found);
        assert_eq!(refusal(config_file(), found), V2GatewayConfigError::InvalidConfiguration);
    }
    assert_eq!(non_zero(0), Err(V2GatewayConfigError::InvalidConfiguration));
    assert_eq!(non_zero(3), Ok(3));
    assert_eq!(non_zero_u64(0), Err(V2GatewayConfigError::InvalidConfiguration));
}

#[test]
fn configuration_files_are_bounded() {
    assert_eq!(check_config_file(true, None), Err(V2GatewayConfigError::SharedSecretPresent));
    assert_eq!(check_config_file(false, None), Err(V2GatewayConfigError::Io));
    assert_eq!(check_config_file(false, Some(&vec![b' '; 65_536])), Ok(()));
    assert_eq!(
        check_config_file(false, Some(&vec![b' '; 65_537])),
        Err(V2GatewayConfigError::Malformed)
    );
    assert!(matches!(
        V2GatewayConfig::from_file(false, Some(b"not json"), None),
        Err(V2GatewayConfigError::Malformed)
    ));
    let credentials = credentials();
    let content = Some((config_file(), findings(&credentials)));
    assert!(V2GatewayConfig::from_file(false, Some(b"{}"), content).is_ok());
}

#[test]
fn required_files_are_regular_bounded_and_restricted() {
    let refused = Err(V2GatewayConfigError::FilesystemRef);
    let public = |path: &str, stat: Option<RefStat>| {
        check_required_file(path, RefKind::Public, 100, stat)
    };
    assert_eq!(public("/a", Some(stat(0o644, 100))), Ok(()));
    assert_eq!(public("/a", Some(stat(0o664, 100))), refused);
    assert_eq!(public("/a", Some(stat(0o644, 101))), refused);
    assert_eq!(public("/a", Some(stat(0o644, 0))), refused);
    assert_eq!(public("/a", None), refused);
    assert_eq!(public("", Some(stat(0o644, 1))), refused);
    assert_eq!(public(&"a".repeat(4_096), Some(stat(0o644, 1))), Ok(()));
    assert_eq!(public(&"a".repeat(4_097), Some(stat(0o644, 1))), refused);
    let private = |mode: u32| {
        check_required_file("/a", RefKind::PrivateKey, 100, Some(stat(mode, 1)))
    };
    assert_eq!(private(0o600), Ok(()));
    assert_eq!(private(0o644), refused);
    // What was read must not have grown past the bound.
    let grown = RequiredFile { stat: Some(stat(0o644, 3)), contents: Some(vec![0; 5]) };
    assert_eq!(read_required_bytes("/a", 4, grown), Err(V2GatewayConfigError::FilesystemRef));
}

#[test]
fn journals_may_be_missing_in_a_secure_directory() {
    let refused = Err(V2GatewayConfigError::FilesystemRef);
    let directory = |mode: u32| Some(FileStat { kind: FileKind::Directory, mode });
    let missing = JournalEntry::Missing;
    assert_eq!(check_journal_parent("/j", missing, directory(0o755)), Ok(()));
    assert_eq!(check_journal_parent("/j", missing, directory(0o775)), refused);
    assert_eq!(check_journal_parent("/j", missing, None), refused);
    let found = |mode: u32, len: u64| JournalEntry::Found(stat(mode, len));
    assert_eq!(check_journal_parent("/j", found(0o600, 0), None), Ok(()));
    assert_eq!(check_journal_parent("/j", found(0o640, 0), None), refused);
    assert_eq!(check_journal_parent("/j", found(0o600, 16_777_217), None), refused);
    assert_eq!(check_journal_parent("", missing, directory(0o755)), refused);
}

#[test]
fn controller_trust_is_bounded_and_canonical() {
    let build = |change: fn(&mut ControllerTrustFile)| {
        let mut file = trust_file();
        change(&mut file);
        build_controller_trust(file).is_ok()
    };
    assert!(build(|_| ()));
    assert!(!build(|file| file.keys = vec![]));
    assert!(!build(|file| file.fresh_until_unix_seconds = 0));
    assert!(!build(|file| file.revoked_ticket_ids = vec!["bogus".to_string()]));
    assert!(build(|file| file.revoked_ticket_ids = vec![]));
    assert!(!build(|file| {
        file.revoked_ticket_ids =
            vec!["01010101-0101-0101-0101-010101010101".to_string(); 4_097];
    }));
}
