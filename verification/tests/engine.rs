use bytes::Bytes;
use streamguard_gateway::ids::{DeviceId, SessionId};
use streamguard_gateway::v2::address_pool::{
    AddressPool, AddressPoolConfig, AddressPoolError, InMemoryLeaseStore, LeaseStore,
};
use streamguard_gateway::v2::engine::{
    DriverError, DriverFailure, FailureKind, UplinkIngestError, V2GatewayEngine,
    V2GatewayEngineState, V2SessionManagerError,
};
use streamguard_gateway::v2::forwarding::{ForwardError, ForwardedUplink};
use streamguard_gateway::v2::persistence::PoolTime;

type Pool = AddressPool<InMemoryLeaseStore>;

fn pool() -> Pool {
    let config = AddressPoolConfig::new(
        [10, 64, 0, 0],
        24,
        [10, 64, 0, 1],
        vec![],
        [0xfd, 0, 0, 0, 0, 0, 0, 0, 0, 0, 0, 0, 0, 0, 0, 0],
        48,
        4,
        5_000,
        60_000,
        4,
    )
    .unwrap();
    Pool::with_store(config, InMemoryLeaseStore::new(), 1_000).unwrap()
}

fn packet(src: [u8; 4]) -> Bytes {
    let mut packet = vec![0u8; 20];
    packet[0] = 0x45;
    packet[2..4].copy_from_slice(&20u16.to_be_bytes());
    packet[12..16].copy_from_slice(&src);
    packet[16..20].copy_from_slice(&[8, 8, 8, 8]);
    Bytes::from(packet)
}

fn session() -> SessionId {
    SessionId::from_bytes([21; 16])
}

fn leased() -> (Pool, [u8; 4]) {
    let mut pool = pool();
    let lease = pool.reserve(session(), DeviceId::from_bytes([22; 16]), 1_000).unwrap();
    pool.commit(session(), 1_000).unwrap();
    (pool, lease.ipv4)
}

fn attached() -> V2GatewayEngine {
    let mut engine = V2GatewayEngine::new(None);
    engine.attach_uplink(1_500).unwrap();
    engine.attach_session_manager();
    engine
}

fn refused(result: Result<ForwardedUplink, UplinkIngestError>) -> UplinkIngestError {
    match result {
        Ok(_) => panic!("the uplink passed"),
        Err(error) => error,
    }
}

fn read_failure() -> DriverFailure {
    DriverFailure { kind: FailureKind::Read }
}

#[test]
fn new_engine_is_running_and_reports_backend() {
    let engine = V2GatewayEngine::new(None);
    assert_eq!(engine.state(), V2GatewayEngineState::Running);
    assert!(!engine.is_terminal());
    assert!(engine.failure().is_none());
}

#[test]
fn terminal_read_failure_transitions_automatically_without_polling() {
    let mut engine = V2GatewayEngine::new(None);
    engine.sync_state(Some(read_failure()));
    assert!(engine.is_terminal());
    assert_eq!(engine.failure().unwrap().kind, FailureKind::Read);
    assert!(V2GatewayEngine::new(Some(read_failure())).is_terminal());
}

#[test]
fn terminal_write_failure_transitions_automatically_without_polling() {
    let mut engine = V2GatewayEngine::new(None);
    engine.sync_state(Some(DriverFailure { kind: FailureKind::Write }));
    assert_eq!(engine.failure().unwrap().kind, FailureKind::Write);
}

#[test]
fn terminal_state_is_sticky_and_survives_shutdown() {
    let mut engine = V2GatewayEngine::new(None);
    engine.sync_state(Some(read_failure()));
    engine.sync_state(None);
    engine.sync_state(Some(DriverFailure { kind: FailureKind::Write }));
    assert_eq!(engine.failure(), Some(read_failure()), "the first failure stays");
    let state = engine.shutdown(Some(Ok(None))).unwrap();
    assert_eq!(state, V2GatewayEngineState::Terminal(read_failure()));
}

#[test]
fn clean_shutdown_closes_after_blocked_read() {
    let engine = V2GatewayEngine::new(None);
    assert_eq!(engine.shutdown(Some(Ok(None))), Ok(V2GatewayEngineState::Closed));
}

#[test]
fn shutdown_reports_terminal_failure() {
    let engine = V2GatewayEngine::new(None);
    assert_eq!(
        engine.shutdown(Some(Ok(Some(read_failure())))),
        Ok(V2GatewayEngineState::Terminal(read_failure()))
    );
    let engine = V2GatewayEngine::new(None);
    assert_eq!(
        engine.shutdown(Some(Err(DriverError::JoinFailed))),
        Err(DriverError::JoinFailed)
    );
    assert_eq!(V2GatewayEngine::new(None).shutdown(None), Ok(V2GatewayEngineState::Running));
}

#[test]
fn uplink_ingest_requires_both_attachments_then_validates_and_seals() {
    let (mut pool, address) = leased();
    let mut engine = V2GatewayEngine::new(None);
    assert!(!engine.uplink_attached());
    assert!(!engine.sessions_attached());
    assert!(!engine.ingress_ready());
    assert!(engine.uplink_forwarder_snapshot().is_none());
    let early = engine.ingest_uplink(&mut pool, Ok(session()), &packet(address), 1_000);
    assert_eq!(
        refused(early),
        UplinkIngestError::NotAttached,
        "ingest without attachments must fail closed"
    );
    assert_eq!(engine.uplink_sink_snapshot().forwarded, 0);
    assert!(engine.attach_uplink(64).is_err(), "forwarder bound rejects undersized maxima");
    assert!(!engine.uplink_attached());
    engine.attach_uplink(1_500).unwrap();
    assert!(engine.uplink_attached());
    assert!(!engine.sessions_attached());
    assert!(!engine.ingress_ready());
    let half = engine.ingest_uplink(&mut pool, Ok(session()), &packet(address), 1_000);
    assert_eq!(
        refused(half),
        UplinkIngestError::NotAttached,
        "ingest without the session map must fail closed"
    );
    assert_eq!(engine.uplink_sink_snapshot().forwarded, 0);
    engine.attach_session_manager();
    assert!(engine.sessions_attached());
    assert!(engine.ingress_ready());
    let forwarded = engine
        .ingest_uplink(&mut pool, Ok(session()), &packet(address), 1_000)
        .ok()
        .expect("bound leased source must ingest");
    assert_eq!(forwarded.session_id(), session());
    assert_eq!(forwarded.packet(), &packet(address));
    assert_eq!(engine.uplink_sink_snapshot().forwarded, 1);
    assert_eq!(engine.uplink_egress_snapshot().bytes_forwarded, 20);
    assert_eq!(engine.uplink_forwarder_snapshot().unwrap().validated, 1);
    assert_eq!(engine.shutdown(Some(Ok(None))), Ok(V2GatewayEngineState::Closed));
}

#[test]
fn uplink_binding_is_checked_before_source_validation() {
    let (mut pool, address) = leased();
    let mut engine = attached();
    let valid = packet(address);
    let forwarded = engine
        .ingest_uplink(&mut pool, Ok(session()), &valid, 1_000)
        .ok()
        .expect("valid must ingest");
    assert_eq!(forwarded.session_id(), session());
    assert_eq!(forwarded.packet_len(), valid.len());
    assert_eq!(engine.uplink_sink_snapshot().forwarded, 1);
    assert_eq!(engine.uplink_forwarder_snapshot().unwrap().validated, 1);
    let before = pool.snapshot();

    // A stale path epoch, a stale key epoch and a wrong direction, each as the
    // session map reports it. A spoofed source behind it changes nothing.
    for why in [
        V2SessionManagerError::BindingMismatch,
        V2SessionManagerError::StaleKeyEpoch,
        V2SessionManagerError::InvalidDirection,
    ] {
        for payload in [&valid, &packet([10, 64, 0, 99])] {
            let unbound = engine.ingest_uplink(&mut pool, Err(why), payload, 1_000);
            assert_eq!(refused(unbound), UplinkIngestError::BindingRejected(why));
        }
    }
    assert_eq!(engine.uplink_forwarder_snapshot().unwrap().validated, 1);
    assert_eq!(engine.uplink_forwarder_snapshot().unwrap().spoof_dropped, 0);
    assert_eq!(engine.uplink_forwarder_snapshot().unwrap().parse_dropped, 0);
    assert_eq!(engine.uplink_sink_snapshot().forwarded, 1);
    assert_eq!(pool.snapshot(), before, "a binding failure never touches the pool");

    // Bound, but spoofed.
    let spoofed = packet([10, 64, 0, 99]);
    let spoofed = engine.ingest_uplink(&mut pool, Ok(session()), &spoofed, 1_000);
    assert_eq!(refused(spoofed), UplinkIngestError::Rejected(ForwardError::SourceMismatch));
    assert_eq!(engine.uplink_sink_snapshot().forwarded, 1);
    assert_eq!(engine.uplink_forwarder_snapshot().unwrap().validated, 1);
    assert_eq!(engine.uplink_forwarder_snapshot().unwrap().spoof_dropped, 1);
    assert_eq!(engine.shutdown(Some(Ok(None))), Ok(V2GatewayEngineState::Closed));
}

#[test]
fn uplink_spoof_never_reaches_sealed_sink_or_tun_nat_egress() {
    let (mut pool, address) = leased();
    let now = 1_000;
    // A second session has a lease to steal.
    let other = SessionId::from_bytes([23; 16]);
    let other_lease = pool.reserve(other, DeviceId::from_bytes([24; 16]), now).unwrap();
    pool.commit(other, now).unwrap();
    let mut engine = attached();

    let valid = packet(address);
    let forwarded = engine
        .ingest_uplink(&mut pool, Ok(session()), &valid, now)
        .ok()
        .expect("leased source must ingest");
    assert_eq!(forwarded.session_id(), session());
    assert_eq!(forwarded.packet_len(), valid.len());
    assert_eq!(engine.uplink_sink_snapshot().forwarded, 1);
    assert_eq!(engine.uplink_sink_snapshot().bytes_forwarded, valid.len() as u64);
    assert_eq!(engine.uplink_egress_snapshot(), engine.uplink_sink_snapshot());
    assert_eq!(engine.uplink_forwarder_snapshot().unwrap().validated, 1);
    let renewals = pool.snapshot().renewals;

    // Another session's address, and the gateway's.
    for source in [other_lease.ipv4, [10, 64, 0, 1]] {
        let spoofed = engine.ingest_uplink(&mut pool, Ok(session()), &packet(source), now);
        assert_eq!(refused(spoofed), UplinkIngestError::Rejected(ForwardError::SourceMismatch));
    }
    // A connection without a path, even with a leased source.
    let why = V2SessionManagerError::UnknownConnection;
    let unbound = engine.ingest_uplink(&mut pool, Err(why), &valid, now);
    assert_eq!(refused(unbound), UplinkIngestError::BindingRejected(why));
    // A truncated packet.
    let malformed = Bytes::from(vec![0x45; 8]);
    let malformed = engine.ingest_uplink(&mut pool, Ok(session()), &malformed, now);
    assert!(matches!(refused(malformed), UplinkIngestError::Rejected(_)));

    assert_eq!(engine.uplink_sink_snapshot().forwarded, 1, "spoof must never reach the sink");
    assert_eq!(engine.uplink_egress_snapshot().forwarded, 1);
    assert_eq!(engine.uplink_forwarder_snapshot().unwrap().validated, 1);
    assert_eq!(engine.uplink_forwarder_snapshot().unwrap().spoof_dropped, 2);
    assert_eq!(engine.uplink_forwarder_snapshot().unwrap().parse_dropped, 1);
    assert_eq!(pool.snapshot().renewals, renewals, "a spoof renews nothing");
    let debug = format!("{:?}", forwarded.summary());
    assert!(debug.contains("packet_len"));
    assert!(!debug.contains("8, 8, 8, 8"));
    assert_eq!(engine.shutdown(Some(Ok(None))), Ok(V2GatewayEngineState::Closed));
}

/// An ephemeral pool whose leases run out after ten seconds.
fn short_lived(session: SessionId, device: DeviceId) -> (Pool, [u8; 4]) {
    let config = AddressPoolConfig::new(
        [10, 64, 0, 0],
        24,
        [10, 64, 0, 1],
        vec![],
        [0xfd, 0, 0, 0, 0, 0, 0, 0, 0, 0, 0, 0, 0, 0, 0, 0],
        48,
        4,
        5_000,
        10_000,
        4,
    )
    .unwrap();
    let mut pool = Pool::new(config).unwrap();
    let lease = pool.reserve(session, device, 1_000).unwrap();
    pool.commit(session, 1_000).unwrap();
    (pool, lease.ipv4)
}

#[test]
fn uplink_validated_ingress_renews_lease_idle_expiry_closes_no_forward() {
    let session = SessionId::from_bytes([41; 16]);
    let (mut pool, address) = short_lived(session, DeviceId::from_bytes([42; 16]));
    let mut engine = attached();
    let valid = packet(address);
    let forwarded = engine
        .ingest_uplink(&mut pool, Ok(session), &valid, 5_000)
        .ok()
        .expect("valid ingress must renew and forward");
    assert_eq!(forwarded.session_id(), session);
    assert_eq!(engine.uplink_sink_snapshot().forwarded, 1);
    assert_eq!(pool.snapshot().renewals, 1);
    assert!(pool.sweep(11_000).is_empty(), "renewed lease must survive its original expiry");
    assert!(pool.lookup_active(session).is_some());

    let spoofed = engine.ingest_uplink(&mut pool, Ok(session), &packet([10, 64, 0, 99]), 6_000);
    assert!(matches!(refused(spoofed), UplinkIngestError::Rejected(_)));
    assert_eq!(engine.uplink_sink_snapshot().forwarded, 1, "spoof must never reach the sink");
    assert_eq!(pool.snapshot().renewals, 1, "spoof must never renew the lease");

    assert!(engine.ingest_uplink(&mut pool, Ok(session), &valid, 12_000).is_ok());
    assert_eq!(pool.snapshot().renewals, 2);
    assert!(
        pool.sweep(20_000).is_empty(),
        "second renewal must survive past the first renewed expiry"
    );
    assert!(pool.lookup_active(session).is_some());

    assert_eq!(
        pool.sweep(35_000),
        vec![session],
        "idle lease must expire after activity stops"
    );
    assert!(pool.lookup_active(session).is_none());

    // The session is closed with its lease; and were it not, there is no lease.
    let why = V2SessionManagerError::UnknownConnection;
    let closed = engine.ingest_uplink(&mut pool, Err(why), &valid, 35_001);
    assert_eq!(refused(closed), UplinkIngestError::BindingRejected(why));
    let unleased = engine.ingest_uplink(&mut pool, Ok(session), &valid, 35_001);
    assert_eq!(refused(unleased), UplinkIngestError::Rejected(ForwardError::UnknownSession));
    assert_eq!(engine.uplink_sink_snapshot().forwarded, 2, "expired ingress must not forward");
    assert_eq!(engine.shutdown(Some(Ok(None))), Ok(V2GatewayEngineState::Closed));
}

#[test]
fn an_expired_lease_is_not_renewed_by_its_traffic() {
    let (mut pool, address) = leased();
    let mut engine = attached();
    let expired = engine.ingest_uplink(&mut pool, Ok(session()), &packet(address), 61_000);
    assert_eq!(refused(expired), UplinkIngestError::LeaseRejected(AddressPoolError::Expired));
    assert_eq!(engine.uplink_sink_snapshot().forwarded, 0);
}

#[test]
fn uplink_at_time_renews_through_bounded_owner_wall_time() {
    let session = SessionId::from_bytes([51; 16]);
    let (mut pool, address) = short_lived(session, DeviceId::from_bytes([52; 16]));
    let mut engine = attached();
    let valid = packet(address);
    let now = PoolTime::new(5_000, 9_000_000);
    let forwarded = engine
        .ingest_uplink_at_time(&mut pool, Ok(session), &valid, now)
        .ok()
        .expect("wall-aware ingress must renew and forward");
    assert_eq!(forwarded.session_id(), session);
    assert_eq!(pool.snapshot().renewals, 1);
    assert!(pool.sweep(11_000).is_empty(), "wall-aware renewal must prevent monotonic expiry");
    let late = PoolTime::new(35_000, 9_030_000);
    assert_eq!(pool.sweep(late.monotonic_ms), vec![session]);
    let why = V2SessionManagerError::UnknownConnection;
    let closed = engine.ingest_uplink_at_time(&mut pool, Err(why), &valid, late);
    assert_eq!(refused(closed), UplinkIngestError::BindingRejected(why));
    assert_eq!(
        engine.uplink_sink_snapshot().forwarded,
        1,
        "expired wall-aware ingress must not forward"
    );
    assert_eq!(engine.shutdown(Some(Ok(None))), Ok(V2GatewayEngineState::Closed));
}

#[test]
fn a_renewal_is_stored_by_the_wall_clock_and_fails_closed() {
    let (mut pool, address) = leased();
    let mut engine = attached();
    let now = PoolTime::new(2_000, 1_700_000_000_000);
    assert!(engine.ingest_uplink_at_time(&mut pool, Ok(session()), &packet(address), now).is_ok());
    let stored = pool.store_mut().unwrap().load().unwrap();
    assert_eq!(stored[0].expires_at_ms, 1_700_000_060_000);
    pool.store_mut().unwrap().fail_next_persists(1);
    let failed = engine.ingest_uplink_at_time(&mut pool, Ok(session()), &packet(address), now);
    assert_eq!(refused(failed), UplinkIngestError::LeaseRejected(AddressPoolError::Store));
    assert_eq!(engine.uplink_sink_snapshot().forwarded, 1);
}
