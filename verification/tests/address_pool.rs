use streamguard_gateway::ids::{DeviceId, SessionId};
use streamguard_gateway::v2::address_pool::{
    ipv6_is_64_aligned, ipv6_prefix_matches_parent, ipv6_subnet_index, ipv6_subnet_prefix,
    next_retry_deadline, AddressPool, AddressPoolConfig, AddressPoolError, InMemoryLeaseStore,
    AssignedAddresses, LeaseState, LeaseStore, ManagedLeaseStore, OpenedStore,
    PersistedLease, PoolSweepConfig, StoreAnswer, StoreAnswers, StoreError, StoredLeases,
};
use streamguard_gateway::v2::address_pool::config::MAX_LEASES_HARD_CAP;
use streamguard_gateway::v2::address_pool::pool::{begin_recovery, end_recovery, sort_leases};
use streamguard_gateway::v2::address_pool::pool_state::ReserveStep;
use streamguard_gateway::v2::persistence::PoolTime;

type Pool = AddressPool<InMemoryLeaseStore>;

const BASE_V6: [u8; 16] = [0xfd, 0, 0, 0, 0, 0, 0, 0, 0, 0, 0, 0, 0, 0, 0, 0];

fn test_config(maximum_leases: usize) -> AddressPoolConfig {
    AddressPoolConfig::new(
        [10, 64, 0, 0],
        24,
        [10, 64, 0, 1],
        vec![[10, 64, 0, 254]],
        BASE_V6,
        48,
        maximum_leases,
        5_000,
        60_000,
        maximum_leases.max(1),
    )
    .unwrap()
}

fn session(byte: u8) -> SessionId {
    SessionId::from_bytes([byte; 16])
}

fn device(byte: u8) -> DeviceId {
    DeviceId::from_bytes([byte; 16])
}

fn subnet(byte: u8) -> [u8; 16] {
    let mut prefix = BASE_V6;
    prefix[7] = byte;
    prefix
}

fn lease_record(
    session_byte: u8,
    device_byte: u8,
    ipv4: [u8; 4],
    subnet_byte: u8,
    state: LeaseState,
    expires_at_ms: u64,
) -> PersistedLease {
    PersistedLease {
        session_id: session(session_byte),
        device_id: device(device_byte),
        ipv4,
        ipv4_prefix_len: 24,
        ipv6_prefix: subnet(subnet_byte),
        ipv6_prefix_len: 64,
        state,
        expires_at_ms,
    }
}

fn stored(pool: &mut Pool) -> Vec<PersistedLease> {
    pool.store_mut().unwrap().load().unwrap()
}

#[test]
fn two_sessions_receive_distinct_ipv4_and_ipv6_64() {
    let mut pool = Pool::new(test_config(4)).unwrap();
    let first = pool.reserve(session(1), device(11), 1_000).unwrap();
    let first_committed = pool.commit(session(1), 1_000).unwrap();
    assert_eq!(first, first_committed);
    let second = pool.reserve(session(2), device(12), 1_000).unwrap();
    let second_committed = pool.commit(session(2), 1_000).unwrap();
    assert_eq!(second, second_committed);
    assert_ne!(first.ipv4, second.ipv4, "IPv4 leases must be unique");
    assert_ne!(first.ipv6_prefix, second.ipv6_prefix, "IPv6 /64 leases must be unique");
    assert_eq!(first.ipv6_prefix_len, 64);
    assert_eq!(second.ipv6_prefix_len, 64);
    assert_eq!(first.ipv4_prefix_len, 24);
    let snapshot = pool.snapshot();
    assert_eq!(snapshot.active, 2);
    assert_eq!(snapshot.pending, 0);
}

#[test]
fn gateway_and_reserved_addresses_are_never_allocated() {
    let mut pool = Pool::new(test_config(8)).unwrap();
    for index in 0..8u8 {
        let lease = pool.reserve(session(10 + index), device(20 + index), 1_000).unwrap();
        assert_ne!(lease.ipv4, [10, 64, 0, 0], "network address must never lease");
        assert_ne!(lease.ipv4, [10, 64, 0, 1], "gateway address must never lease");
        assert_ne!(lease.ipv4, [10, 64, 0, 254], "explicit reservation must never lease");
        assert_ne!(lease.ipv4, [10, 64, 0, 255], "broadcast must never lease");
        assert_ne!(
            &lease.ipv6_prefix[0..8],
            &[0xfd, 0, 0, 0, 0, 0, 0, 0],
            "gateway /64 (subnet zero) must never lease"
        );
        pool.commit(session(10 + index), 1_000).unwrap();
    }
}

#[test]
fn session_resume_returns_the_same_lease_for_the_same_device() {
    let mut pool = Pool::new(test_config(4)).unwrap();
    let first = pool.reserve(session(1), device(11), 1_000).unwrap();
    pool.commit(session(1), 1_000).unwrap();
    let resumed = pool.reserve(session(1), device(11), 2_000).unwrap();
    assert_eq!(first, resumed, "resume must return the identical lease");
    assert_eq!(pool.snapshot().active, 1);
    assert_eq!(
        pool.reserve(session(1), device(99), 2_000),
        Err(AddressPoolError::OwnerMismatch)
    );
}

#[test]
fn exhaustion_is_bounded_and_observable() {
    let mut pool = Pool::new(test_config(2)).unwrap();
    pool.reserve(session(1), device(11), 1_000).unwrap();
    pool.commit(session(1), 1_000).unwrap();
    pool.reserve(session(2), device(12), 1_000).unwrap();
    pool.commit(session(2), 1_000).unwrap();
    assert_eq!(pool.reserve(session(3), device(13), 1_000), Err(AddressPoolError::Exhausted));
    assert!(pool.snapshot().exhausted >= 1);
    assert_eq!(pool.snapshot().active, 2);
}

#[test]
fn pending_reservations_expire_deterministically_without_sleep() {
    let mut pool = Pool::new(test_config(2)).unwrap();
    pool.reserve(session(1), device(11), 1_000).unwrap();
    assert!(pool.lookup(session(1)).is_some());
    let expired = pool.sweep(1_000 + 5_000);
    assert_eq!(expired, vec![session(1)]);
    assert!(pool.lookup(session(1)).is_none());
    let snapshot = pool.snapshot();
    assert_eq!(snapshot.pending, 0);
    assert_eq!(snapshot.pending_expired, 1);
    let reused = pool.reserve(session(2), device(12), 6_000).unwrap();
    assert_eq!(reused.ipv4, [10, 64, 0, 2]);
}

#[test]
fn release_frees_the_slot_for_reuse() {
    let mut pool = Pool::new(test_config(2)).unwrap();
    let first = pool.reserve(session(1), device(11), 1_000).unwrap();
    pool.commit(session(1), 1_000).unwrap();
    assert!(pool.release(session(1)).unwrap());
    assert!(!pool.release(session(1)).unwrap(), "second release is idempotent");
    assert!(pool.lookup(session(1)).is_none());
    let reused = pool.reserve(session(2), device(12), 2_000).unwrap();
    pool.commit(session(2), 2_000).unwrap();
    assert_eq!(reused, first, "lowest free address is reused deterministically");
}

#[test]
fn renewal_extends_the_dhcp_deadline() {
    let mut pool = Pool::new(test_config(2)).unwrap();
    pool.reserve(session(1), device(11), 1_000).unwrap();
    pool.commit(session(1), 1_000).unwrap();
    pool.renew(session(1), 2_000).unwrap();
    assert_eq!(pool.snapshot().renewals, 1);
    assert!(pool.sweep(61_000).is_empty());
    assert_eq!(pool.sweep(62_000), vec![session(1)]);
    assert_eq!(pool.snapshot().active_expired, 1);
}

#[test]
fn store_failure_fails_closed_and_retry_recovers() {
    let mut store = InMemoryLeaseStore::new();
    store.fail_next_persists(1);
    let mut pool = Pool::with_store(test_config(2), store, 1_000).unwrap();
    assert_eq!(pool.reserve(session(1), device(11), 1_000), Err(AddressPoolError::Store));
    assert!(pool.lookup(session(1)).is_none(), "failed reserve must allocate nothing");
    let lease = pool.reserve(session(1), device(11), 1_000).unwrap();
    pool.commit(session(1), 1_000).unwrap();
    pool.store_mut().unwrap().fail_next_releases(1);
    assert!(
        pool.release(session(1)).unwrap(),
        "in-memory release quarantines even when the store fails"
    );
    assert_eq!(pool.snapshot().pending_releases, 1);
    assert_eq!(pool.snapshot().release_retry_dropped, 0, "quarantine never drops");
    let other = pool.reserve(session(2), device(12), 1_000).unwrap();
    assert_ne!(other.ipv4, lease.ipv4, "quarantined IPv4 must not be reused");
    assert_ne!(other.ipv6_prefix, lease.ipv6_prefix, "quarantined /64 must not be reused");
    assert_eq!(pool.retry_pending_releases(), 0);
    assert_eq!(pool.snapshot().pending_releases, 0);
    assert_eq!(pool.snapshot().release_retries, 1);
}

#[test]
fn recovery_restores_valid_leases_and_drops_invalid() {
    let mut pool = Pool::with_store(test_config(4), InMemoryLeaseStore::new(), 1_000).unwrap();
    pool.reserve(session(1), device(11), 1_000).unwrap();
    pool.commit(session(1), 1_000).unwrap();
    pool.reserve(session(2), device(12), 1_000).unwrap();
    pool.commit(session(2), 1_000).unwrap();
    let mut store = pool.into_store().unwrap();
    store
        .persist(&lease_record(9, 19, [10, 64, 0, 1], 9, LeaseState::Active, 200_000))
        .unwrap();
    let recovered = Pool::with_store(test_config(4), store, 2_000).unwrap();
    let snapshot = recovered.snapshot();
    assert_eq!(snapshot.recovered, 2);
    assert_eq!(snapshot.recovered_dropped, 1);
    assert!(recovered.lookup(session(1)).is_some());
    assert!(recovered.lookup(session(2)).is_some());
    assert!(recovered.lookup(session(9)).is_none(), "gateway collision must not recover");
}

#[test]
fn load_failure_fails_pool_construction_closed() {
    let mut store = InMemoryLeaseStore::new();
    store.fail_next_loads(1);
    let result = Pool::with_store(test_config(2), store, 1_000);
    assert!(matches!(result, Err(AddressPoolError::Store)));
}

#[test]
fn invalid_configurations_are_rejected() {
    assert!(AddressPoolConfig::new(
        [10, 64, 0, 0], 24, [192, 168, 1, 1], vec![], BASE_V6, 48, 2, 5_000, 60_000, 2,
    )
    .is_err());
    assert!(AddressPoolConfig::new(
        [10, 64, 0, 0], 24, [10, 64, 0, 1], vec![], BASE_V6, 64, 1, 5_000, 60_000, 1,
    )
    .is_err());
    assert!(AddressPoolConfig::new(
        [10, 64, 0, 0], 30, [10, 64, 0, 1], vec![], BASE_V6, 48, 4, 5_000, 60_000, 4,
    )
    .is_err());
}

#[test]
fn configuration_bounds_are_exact() {
    let build = |prefix: u8, leases: usize, pending: u64, lease: u64, quarantine: usize| {
        AddressPoolConfig::new(
            [10, 64, 0, 0],
            prefix,
            [10, 64, 0, 1],
            vec![],
            BASE_V6,
            48,
            leases,
            pending,
            lease,
            quarantine,
        )
        .is_ok()
    };
    assert!(build(24, 253, 1, 1_000, 1));
    assert!(!build(24, 254, 1, 1_000, 1), "the gateway is no lease");
    assert!(build(30, 1, 3_600_000, 86_400_000, 65_536));
    assert!(!build(31, 1, 5_000, 60_000, 1));
    assert!(!build(24, 0, 5_000, 60_000, 1));
    assert!(!build(24, 2, 0, 60_000, 1));
    assert!(!build(24, 2, 3_600_001, 60_000, 1));
    assert!(!build(24, 2, 5_000, 999, 1));
    assert!(!build(24, 2, 5_000, 86_400_001, 1));
    assert!(!build(24, 2, 5_000, 60_000, 0));
    assert!(!build(24, 2, 5_000, 60_000, 65_537));
    // Host bits, reserved duplicates, and reserved addresses outside.
    let reserved = |network: [u8; 4], list: Vec<[u8; 4]>| {
        AddressPoolConfig::new(network, 24, [10, 64, 0, 1], list, BASE_V6, 48, 2, 5_000, 60_000, 2)
            .is_ok()
    };
    assert!(reserved([10, 64, 0, 0], vec![[10, 64, 0, 9]]));
    assert!(!reserved([10, 64, 0, 1], vec![]));
    assert!(!reserved([10, 64, 0, 0], vec![[10, 64, 0, 9], [10, 64, 0, 9]]));
    assert!(!reserved([10, 64, 0, 0], vec![[10, 64, 1, 9]]));
    assert!(!reserved([10, 64, 0, 0], vec![[10, 64, 0, 255]]));
}

#[test]
fn session_close_releases_lease_durably_via_cleanup() {
    // Closing a session runs the pool's non-blocking cleanup.
    let mut pool = Pool::with_store(test_config(4), InMemoryLeaseStore::new(), 1_000).unwrap();
    let lease = pool.reserve(session(1), device(11), 1_000).unwrap();
    pool.commit(session(1), 1_000).unwrap();
    assert_eq!(pool.lookup(session(1)), Some(lease));
    assert_eq!(stored(&mut pool).len(), 1);
    assert!(pool.release_deferred(session(1)));
    assert!(pool.lookup(session(1)).is_none(), "session close must free the lease");
    assert_eq!(
        pool.snapshot().pending_releases,
        1,
        "close must quarantine without blocking on store I/O"
    );
    assert_eq!(
        stored(&mut pool).len(),
        1,
        "deferred cleanup leaves the store entry for retry"
    );
    assert_eq!(
        pool.retry_pending_releases_bounded(2_000, 32),
        0,
        "bounded retry performs the deferred delete"
    );
    assert!(stored(&mut pool).is_empty(), "retry must remove the store entry");
    assert_eq!(pool.snapshot().pending_releases, 0);
    let snapshot = pool.snapshot();
    assert_eq!(snapshot.active, 0);
    assert_eq!(snapshot.releases, 1);
    let next = pool.reserve(session(2), device(12), 2_000).unwrap();
    assert_eq!(next, lease);
}

#[test]
fn session_idle_expiry_releases_lease_via_sweep_cleanup() {
    let mut pool = Pool::new(test_config(2)).unwrap();
    pool.reserve(session(1), device(11), 1_000).unwrap();
    pool.commit(session(1), 1_000).unwrap();
    assert!(pool.lookup(session(1)).is_some());
    assert!(pool.release_deferred(session(1)));
    assert!(pool.lookup(session(1)).is_none(), "idle expiry must free the lease");
    assert_eq!(pool.snapshot().releases, 1);
}

#[test]
fn failed_durable_release_retries_until_the_store_recovers() {
    let mut pool = Pool::with_store(test_config(2), InMemoryLeaseStore::new(), 1_000).unwrap();
    pool.reserve(session(1), device(11), 1_000).unwrap();
    pool.commit(session(1), 1_000).unwrap();
    pool.store_mut().unwrap().fail_next_releases(2);
    assert!(pool.release(session(1)).unwrap());
    assert_eq!(pool.snapshot().pending_releases, 1);
    assert_eq!(pool.retry_pending_releases(), 1);
    assert_eq!(pool.retry_pending_releases(), 0);
    assert_eq!(pool.snapshot().release_retries, 1);
    assert!(stored(&mut pool).is_empty());
}

#[test]
fn crash_reserve_recovers_reservation_and_blocks_reuse() {
    let mut pool = Pool::with_store(test_config(4), InMemoryLeaseStore::new(), 1_000).unwrap();
    let reserved = pool.reserve(session(1), device(11), 1_000).unwrap();
    assert_eq!(stored(&mut pool).len(), 1);
    let store = pool.into_store().unwrap();
    let mut recovered = Pool::with_store(test_config(4), store, 2_000).unwrap();
    let resumed = recovered.reserve(session(1), device(11), 2_000).unwrap();
    assert_eq!(reserved, resumed, "crash reserve must resume the same lease");
    let other = recovered.reserve(session(2), device(12), 2_000).unwrap();
    assert_ne!(other.ipv4, reserved.ipv4);
    assert_ne!(other.ipv6_prefix, reserved.ipv6_prefix);
    assert_eq!(recovered.snapshot().recovered, 1);
    recovered.commit(session(1), 2_000).unwrap();
    assert_eq!(recovered.snapshot().active, 1);
}

#[test]
fn release_failure_restart_blocks_reuse_until_retry() {
    let mut pool = Pool::with_store(test_config(4), InMemoryLeaseStore::new(), 1_000).unwrap();
    let first = pool.reserve(session(1), device(11), 1_000).unwrap();
    pool.commit(session(1), 1_000).unwrap();
    pool.store_mut().unwrap().fail_next_releases(10);
    pool.release(session(1)).unwrap();
    assert_eq!(pool.snapshot().pending_releases, 1);
    let store = pool.into_store().unwrap();
    let mut restarted = Pool::with_store(test_config(4), store, 2_000).unwrap();
    assert!(restarted.lookup(session(1)).is_some(), "failed delete must survive restart");
    let other = restarted.reserve(session(2), device(12), 2_000).unwrap();
    assert_ne!(other.ipv4, first.ipv4, "quarantined IPv4 must not be reused after restart");
    assert_ne!(other.ipv6_prefix, first.ipv6_prefix);
    for _ in 0..12 {
        if restarted.retry_pending_releases() == 0 {
            break;
        }
    }
    restarted.release(session(1)).unwrap();
    for _ in 0..12 {
        if restarted.retry_pending_releases() == 0 {
            break;
        }
    }
    assert_eq!(restarted.snapshot().pending_releases, 0);
}

#[test]
fn quarantine_overflow_fails_closed_without_drop() {
    let mut pool = Pool::with_store(test_config(4), InMemoryLeaseStore::new(), 1_000).unwrap();
    for byte in 1..=4u8 {
        pool.reserve(session(byte), device(10 + byte), 1_000).unwrap();
        pool.commit(session(byte), 1_000).unwrap();
    }
    pool.store_mut().unwrap().fail_next_releases(10);
    assert!(pool.release(session(1)).unwrap());
    assert!(pool.release(session(2)).unwrap());
    assert!(pool.release(session(3)).unwrap());
    assert!(pool.release(session(4)).unwrap());
    assert_eq!(pool.snapshot().pending_releases, 4);
    assert_eq!(pool.snapshot().release_retry_dropped, 0);
    pool.reserve(session(5), device(15), 1_000).unwrap();
    pool.commit(session(5), 1_000).unwrap();
    assert_eq!(pool.release(session(5)), Err(AddressPoolError::Store));
    assert_eq!(pool.snapshot().quarantine_full, 1);
    assert_eq!(pool.snapshot().release_retry_dropped, 0, "overflow must never drop");
    assert!(pool.lookup(session(5)).is_some(), "overflowed lease must stay blocked");
    if let Ok(lease) = pool.reserve(session(6), device(16), 1_000) {
        let blocked: Vec<[u8; 4]> = stored(&mut pool)
            .iter()
            .filter(|entry| entry.session_id != session(6))
            .map(|entry| entry.ipv4)
            .collect();
        assert!(
            !blocked.contains(&lease.ipv4)
                || lease.ipv4 == pool.lookup(session(5)).unwrap().ipv4
        );
    }
}

#[test]
fn reserve_expiry_durably_releases_instead_of_silent_drop() {
    let mut pool = Pool::with_store(test_config(2), InMemoryLeaseStore::new(), 1_000).unwrap();
    pool.reserve(session(1), device(11), 1_000).unwrap();
    assert_eq!(stored(&mut pool).len(), 1);
    pool.reserve(session(1), device(11), 6_000).unwrap();
    assert_eq!(
        stored(&mut pool).len(),
        1,
        "expired reserve must replace, not leak, the store entry"
    );
    let store = pool.into_store().unwrap();
    let mut ephemeral = Pool::with_store(test_config(2), store, 6_000).unwrap();
    assert!(ephemeral.lookup(session(1)).is_some());
    assert_eq!(ephemeral.sweep(11_000), vec![session(1)]);
    assert!(stored(&mut ephemeral).is_empty() || ephemeral.lookup(session(1)).is_none());
}

#[test]
fn recovered_stream_is_bounded_and_deterministic() {
    let mut pool = Pool::with_store(test_config(2), InMemoryLeaseStore::new(), 1_000).unwrap();
    pool.reserve(session(1), device(11), 1_000).unwrap();
    pool.commit(session(1), 1_000).unwrap();
    pool.reserve(session(2), device(12), 1_000).unwrap();
    pool.commit(session(2), 1_000).unwrap();
    let mut store = pool.into_store().unwrap();
    for byte in [3u8, 4, 5] {
        store
            .persist(&lease_record(
                20 + byte,
                30 + byte,
                [10, 64, 0, 10 + byte],
                10 + byte,
                LeaseState::Active,
                200_000,
            ))
            .unwrap();
    }
    let recovered = Pool::with_store(test_config(2), store, 2_000).unwrap();
    let snapshot = recovered.snapshot();
    assert!(snapshot.recovered <= 4, "recovery must respect the bounded stream");
    assert!(snapshot.recovered_dropped >= 1, "excess must be counted");
    assert_eq!(snapshot.release_retry_dropped, 0);
}

#[test]
fn address_pool_reserved_lease_never_authorizes_payload() {
    let mut pool = Pool::new(test_config(2)).unwrap();
    pool.reserve(session(1), device(11), 1_000).unwrap();
    assert!(pool.lookup(session(1)).is_some(), "resume needs the pending lease visible");
    assert!(
        pool.lookup_active(session(1)).is_none(),
        "Reserved must not authorize payload before commit"
    );
    pool.commit(session(1), 1_000).unwrap();
    assert!(
        pool.lookup_active(session(1)).is_some(),
        "Active must authorize payload after commit"
    );
}

#[test]
fn renew_persists_durably_and_fails_closed() {
    let mut pool = Pool::with_store(test_config(2), InMemoryLeaseStore::new(), 1_000).unwrap();
    pool.reserve(session(1), device(11), 1_000).unwrap();
    pool.commit(session(1), 1_000).unwrap();
    pool.renew(session(1), 2_000).unwrap();
    let persisted = stored(&mut pool);
    assert_eq!(persisted.len(), 1);
    assert_eq!(persisted[0].state, LeaseState::Active);
    assert_eq!(persisted[0].expires_at_ms, 2_000 + 60_000);
    pool.store_mut().unwrap().fail_next_persists(1);
    assert_eq!(pool.renew(session(1), 3_000), Err(AddressPoolError::Store));
    let persisted = stored(&mut pool);
    assert_eq!(
        persisted[0].expires_at_ms,
        2_000 + 60_000,
        "failed renew must not move the durable expiry"
    );
    assert!(pool.snapshot().store_failures >= 1);
    let mut ephemeral = Pool::new(test_config(2)).unwrap();
    ephemeral.reserve(session(9), device(19), 1_000).unwrap();
    assert_eq!(ephemeral.renew(session(9), 2_000), Err(AddressPoolError::UnknownLease));
    assert_eq!(pool.renew(session(77), 2_000), Err(AddressPoolError::UnknownLease));
}

#[test]
fn quarantine_retry_increments_attempts_without_drop() {
    let mut pool = Pool::with_store(test_config(2), InMemoryLeaseStore::new(), 1_000).unwrap();
    pool.reserve(session(1), device(11), 1_000).unwrap();
    pool.commit(session(1), 1_000).unwrap();
    pool.store_mut().unwrap().fail_next_releases(3);
    assert!(pool.release(session(1)).unwrap());
    assert_eq!(pool.snapshot().pending_releases, 1);
    let first = pool.quarantined();
    assert_eq!(first.len(), 1);
    assert_eq!(first[0].1, 1_000 + 60_000, "quarantine retains the original expiry");
    assert_eq!(first[0].2, 0, "fresh quarantine starts at zero attempts");
    assert_eq!(pool.retry_pending_releases(), 1, "one failure left: still quarantined");
    let second = pool.quarantined();
    assert_eq!(second[0].2, 1, "failed retry must increment attempts");
    assert_eq!(pool.retry_pending_releases(), 1);
    assert_eq!(pool.quarantined()[0].2, 2);
    assert_eq!(pool.retry_pending_releases(), 0, "store recovered: quarantine drains");
    assert!(pool.quarantined().is_empty());
    assert_eq!(pool.snapshot().release_retries, 1);
    assert_eq!(pool.snapshot().release_retry_dropped, 0, "retries never drop");
}

struct OverBoundStore;

impl LeaseStore for OverBoundStore {
    fn contents(&self) -> StoredLeases {
        unreachable!()
    }

    fn wf(&self) -> bool {
        true
    }

    fn files_once(&self) -> bool {
        false
    }

    fn answers(&self) -> StoreAnswers {
        unreachable!()
    }

    fn moves(&self, _answer: StoreAnswer, _after: &Self) -> bool {
        true
    }

    fn load(&mut self) -> Result<Vec<PersistedLease>, StoreError> {
        Ok(vec![
            lease_record(1, 11, [10, 64, 0, 2], 1, LeaseState::Active, 200_000);
            MAX_LEASES_HARD_CAP + 1
        ])
    }

    fn persist(&mut self, _: &PersistedLease) -> Result<(), StoreError> {
        Ok(())
    }

    fn release(&mut self, _: &SessionId) -> Result<(), StoreError> {
        Ok(())
    }
}

#[test]
fn managed_adapter_enforces_hard_cap_and_passes_through() {
    let mut adapter = ManagedLeaseStore::new(OverBoundStore);
    assert_eq!(
        adapter.load(),
        Err(StoreError::Corrupt),
        "over-bound load must fail closed at the adapter"
    );
    let mut adapter = ManagedLeaseStore::new(InMemoryLeaseStore::new());
    let lease = lease_record(3, 13, [10, 64, 0, 5], 5, LeaseState::Reserved, 50_000);
    adapter.persist(&lease).unwrap();
    assert_eq!(adapter.load().unwrap(), vec![lease]);
    adapter.release(&session(3)).unwrap();
    assert!(adapter.load().unwrap().is_empty());
}

#[test]
fn managed_adapter_and_opened_stores_pass_answers_through() {
    let lease = lease_record(3, 13, [10, 64, 0, 5], 5, LeaseState::Reserved, 50_000);
    let mut inner = InMemoryLeaseStore::new();
    inner.fail_next_loads(1);
    inner.fail_next_persists(1);
    inner.fail_next_releases(1);
    let mut opened: OpenedStore<InMemoryLeaseStore, InMemoryLeaseStore> =
        OpenedStore::Managed(ManagedLeaseStore::new(inner));
    assert_eq!(opened.load(), Err(StoreError::Unavailable));
    assert_eq!(opened.persist(&lease), Err(StoreError::Io));
    assert_eq!(opened.release(&session(3)), Err(StoreError::Io));
    assert_eq!(opened.persist(&lease), Ok(()));
    assert_eq!(opened.load(), Ok(vec![lease]));
    assert_eq!(opened.release(&session(3)), Ok(()));
    assert_eq!(opened.load(), Ok(Vec::new()));
    let mut journal: OpenedStore<InMemoryLeaseStore, InMemoryLeaseStore> =
        OpenedStore::Journal(InMemoryLeaseStore::new());
    assert_eq!(journal.persist(&lease), Ok(()));
    assert_eq!(journal.load(), Ok(vec![lease]));
}

/// Lists whatever it was given, repeated sessions included.
#[test]
fn a_reservation_that_cannot_be_released_stays_a_reservation() {
    let mut pool = Pool::with_store(test_config(2), InMemoryLeaseStore::new(), 1_000).unwrap();
    for byte in 1..=2u8 {
        pool.reserve(session(byte), device(10 + byte), 1_000).unwrap();
        pool.commit(session(byte), 1_000).unwrap();
    }
    pool.store_mut().unwrap().fail_next_releases(10);
    assert!(pool.release(session(1)).unwrap());
    assert!(pool.release(session(2)).unwrap());
    let reserved = pool.reserve(session(3), device(13), 1_000).unwrap();
    assert_eq!(pool.release_at(session(3), 1_000), Err(AddressPoolError::Store));
    assert_eq!(pool.lookup(session(3)), Some(reserved), "its addresses stay blocked");
    assert_eq!(pool.lookup_active(session(3)), None, "a reservation authorizes nothing");
    assert!(!pool.release_deferred(session(3)));
    assert_eq!(pool.lookup(session(3)), Some(reserved));
    assert_eq!(pool.lookup_active(session(3)), None);
    assert_eq!(pool.snapshot().pending_releases, 2);
}

#[test]
fn a_retry_without_a_store_says_what_is_still_quarantined() {
    let mut pool = Pool::new(test_config(2)).unwrap();
    pool.reserve(session(1), device(11), 1_000).unwrap();
    pool.commit(session(1), 1_000).unwrap();
    assert!(pool.release_deferred(session(1)));
    let left = pool.retry_pending_releases_bounded(10_000, 32);
    assert_eq!(left, pool.snapshot().pending_releases);
    assert_eq!(left, 1);
}

#[test]
fn recovery_is_decided_by_the_load_and_the_deletes() {
    let now = PoolTime::from_monotonic(2_000);
    let kept = lease_record(1, 11, [10, 64, 0, 2], 1, LeaseState::Active, 200_000);
    let stale = lease_record(2, 12, [10, 64, 0, 3], 2, LeaseState::Active, 500);
    assert_eq!(
        begin_recovery(test_config(2), Err(StoreError::Io), now).err(),
        Some(AddressPoolError::Store)
    );
    assert_eq!(
        begin_recovery(test_config(2), Ok(vec![kept; MAX_LEASES_HARD_CAP + 1]), now).err(),
        Some(AddressPoolError::Store)
    );
    for deleted in [true, false] {
        let (state, discarded) =
            begin_recovery(test_config(2), Ok(vec![kept, stale]), now).ok().unwrap();
        assert_eq!(discarded, vec![stale]);
        let state = end_recovery(state, &discarded, &vec![deleted], now).ok().unwrap();
        assert_eq!(state.pending_releases(), if deleted { 0 } else { 1 });
        assert_eq!(state.quarantined().len(), if deleted { 0 } else { 1 });
    }
    // More failed deletes than the quarantine holds.
    let all: Vec<PersistedLease> = (1..=3u8)
        .map(|byte| lease_record(byte, byte, [10, 64, 0, 10 + byte], byte, LeaseState::Active, 500))
        .collect();
    let (state, discarded) = begin_recovery(test_config(2), Ok(all), now).ok().unwrap();
    assert_eq!(discarded.len(), 3);
    assert_eq!(
        end_recovery(state, &discarded, &vec![false; 3], now).err(),
        Some(AddressPoolError::Store)
    );
}

/// What a store was asked, in order.
#[derive(Debug, PartialEq)]
enum Call {
    Persist(PersistedLease),
    Release(SessionId),
}

struct LoggingStore {
    calls: Vec<Call>,
    fails: bool,
}

impl LeaseStore for LoggingStore {
    fn contents(&self) -> StoredLeases {
        unreachable!()
    }

    fn wf(&self) -> bool {
        true
    }

    fn files_once(&self) -> bool {
        false
    }

    fn answers(&self) -> StoreAnswers {
        unreachable!()
    }

    fn moves(&self, _answer: StoreAnswer, _after: &Self) -> bool {
        true
    }

    fn load(&mut self) -> Result<Vec<PersistedLease>, StoreError> {
        Ok(Vec::new())
    }

    fn persist(&mut self, lease: &PersistedLease) -> Result<(), StoreError> {
        self.calls.push(Call::Persist(*lease));
        if self.fails {
            Err(StoreError::Io)
        } else {
            Ok(())
        }
    }

    fn release(&mut self, session_id: &SessionId) -> Result<(), StoreError> {
        self.calls.push(Call::Release(*session_id));
        Ok(())
    }
}

#[test]
fn a_pool_asks_its_store_once_for_what_it_grants() {
    let store = LoggingStore { calls: Vec::new(), fails: true };
    let mut pool = AddressPool::with_store(test_config(2), store, 1_000).unwrap();
    let record = lease_record(1, 11, [10, 64, 0, 2], 1, LeaseState::Reserved, 6_000);
    assert_eq!(pool.reserve(session(1), device(11), 1_000), Err(AddressPoolError::Store));
    let store = pool.store_mut().unwrap();
    assert_eq!(store.calls, vec![Call::Persist(record)]);
    store.fails = false;
    store.calls.clear();

    let lease = pool.reserve(session(1), device(11), 1_000).unwrap();
    assert_eq!(pool.reserve(session(1), device(11), 1_500), Ok(lease));
    assert_eq!(pool.reserve(session(1), device(12), 1_500), Err(AddressPoolError::OwnerMismatch));
    assert_eq!(pool.store_mut().unwrap().calls, vec![Call::Persist(record)]);
    pool.commit(session(1), 2_000).unwrap();
    assert_eq!(pool.reserve(session(1), device(11), 2_500), Ok(lease));
    let active = lease_record(1, 11, [10, 64, 0, 2], 1, LeaseState::Active, 62_000);
    assert_eq!(
        pool.store_mut().unwrap().calls,
        vec![Call::Persist(record), Call::Persist(active)]
    );
    assert!(pool.release(session(1)).unwrap());
    assert_eq!(
        pool.into_store().unwrap().calls,
        vec![Call::Persist(record), Call::Persist(active), Call::Release(session(1))]
    );
}

struct ListedStore {
    records: Vec<PersistedLease>,
    released: Vec<SessionId>,
    fails: bool,
}

impl LeaseStore for ListedStore {
    fn contents(&self) -> StoredLeases {
        unreachable!()
    }

    fn wf(&self) -> bool {
        true
    }

    fn files_once(&self) -> bool {
        false
    }

    fn answers(&self) -> StoreAnswers {
        unreachable!()
    }

    fn moves(&self, _answer: StoreAnswer, _after: &Self) -> bool {
        true
    }

    fn load(&mut self) -> Result<Vec<PersistedLease>, StoreError> {
        Ok(self.records.clone())
    }

    fn persist(&mut self, _: &PersistedLease) -> Result<(), StoreError> {
        Ok(())
    }

    fn release(&mut self, session_id: &SessionId) -> Result<(), StoreError> {
        self.released.push(*session_id);
        if self.fails {
            Err(StoreError::Io)
        } else {
            Ok(())
        }
    }
}

fn repeated(fails: bool) -> ListedStore {
    ListedStore {
        records: vec![
            lease_record(2, 12, [10, 64, 0, 5], 5, LeaseState::Active, 200_000),
            lease_record(1, 12, [10, 64, 0, 3], 3, LeaseState::Active, 200_000),
            lease_record(1, 11, [10, 64, 0, 2], 2, LeaseState::Reserved, 200_000),
            lease_record(1, 11, [10, 64, 0, 4], 4, LeaseState::Active, 200_000),
        ],
        released: Vec::new(),
        fails,
    }
}

#[test]
fn recovery_restores_a_repeated_session_once() {
    let mut pool = AddressPool::with_store(test_config(4), repeated(false), 2_000).unwrap();
    let snapshot = pool.snapshot();
    assert_eq!(snapshot.recovered, 2);
    assert_eq!(snapshot.recovered_dropped, 2);
    assert_eq!(
        pool.lookup(session(1)).unwrap().ipv4,
        [10, 64, 0, 2],
        "the lowest device comes first, and its records keep their order"
    );
    assert!(pool.lookup_active(session(1)).is_none());
    assert_eq!(pool.lookup_active(session(2)).unwrap().ipv4, [10, 64, 0, 5]);
    let other = pool.reserve(session(3), device(13), 2_000).unwrap();
    assert_eq!(other.ipv4, [10, 64, 0, 3], "a discarded record frees its addresses");
    let store = pool.into_store().unwrap();
    assert_eq!(store.released, vec![session(1), session(1)]);
}

#[test]
fn recovery_quarantines_a_repeated_session_that_cannot_be_deleted() {
    let mut pool = AddressPool::with_store(test_config(4), repeated(true), 2_000).unwrap();
    let snapshot = pool.snapshot();
    assert_eq!(snapshot.recovered, 2);
    assert_eq!(snapshot.recovered_dropped, 2);
    assert_eq!(snapshot.pending_releases, 1, "a session is quarantined once");
    assert_eq!(snapshot.store_failures, 2);
    assert_eq!(pool.quarantined().len(), 1);
    assert_eq!(
        pool.lookup(session(1)).unwrap().ipv4,
        [10, 64, 0, 2],
        "the restored lease stays beside the failed delete"
    );
    let third = pool.reserve(session(3), device(13), 2_000).unwrap();
    assert_eq!(third.ipv4, [10, 64, 0, 3]);
    let fourth = pool.reserve(session(4), device(14), 2_000).unwrap();
    assert_eq!(fourth.ipv4, [10, 64, 0, 6], "the failed delete keeps its addresses blocked");
    assert_eq!(pool.release(session(1)), Ok(false), "its delete is waiting already");
    assert_eq!(pool.retry_pending_releases_bounded(10_000, 32), 1);
    assert_eq!(pool.quarantined()[0].2, 1);
}

#[test]
fn sort_is_stable_by_session_and_device() {
    let ordered = sort_leases(&repeated(false).records);
    let hosts: Vec<u8> = ordered.iter().map(|lease| lease.ipv4[3]).collect();
    assert_eq!(hosts, vec![2, 4, 3, 5]);
}

#[test]
fn recovery_discarded_delete_failure_quarantines_nonreusable() {
    let mut store = InMemoryLeaseStore::new();
    store
        .persist(&lease_record(1, 11, [10, 64, 0, 2], 1, LeaseState::Active, 200_000))
        .unwrap();
    store.persist(&lease_record(2, 12, [10, 64, 0, 3], 2, LeaseState::Active, 500)).unwrap();
    store
        .persist(&lease_record(9, 19, [10, 64, 0, 1], 9, LeaseState::Active, 200_000))
        .unwrap();
    store.fail_next_releases(2);
    let mut pool = Pool::with_store(test_config(4), store, 2_000).unwrap();
    let snapshot = pool.snapshot();
    assert_eq!(snapshot.recovered, 1, "only the valid lease restores");
    assert_eq!(snapshot.recovered_dropped, 2, "expired and colliding entries are discarded");
    assert_eq!(
        snapshot.pending_releases,
        2,
        "failed discarded deletes must quarantine nonreusable"
    );
    assert!(pool.lookup(session(1)).is_some());
    assert!(pool.lookup(session(2)).is_none());
    assert!(pool.lookup(session(9)).is_none());
    let other = pool.reserve(session(3), device(13), 2_000).unwrap();
    assert_ne!(other.ipv4, [10, 64, 0, 3], "expired-but-undeleted IPv4 must stay blocked");
    assert_ne!(other.ipv4, [10, 64, 0, 1], "colliding-but-undeleted IPv4 must stay blocked");
    assert_eq!(pool.retry_pending_releases_bounded(10_000, 32), 0);
    assert_eq!(pool.snapshot().pending_releases, 0);
    let remaining: Vec<[u8; 4]> = stored(&mut pool).iter().map(|entry| entry.ipv4).collect();
    assert!(!remaining.contains(&[10, 64, 0, 3]));
    assert!(!remaining.contains(&[10, 64, 0, 1]));
}

#[test]
fn store_io_never_holds_pool_mutex() {
    // A reservation whose persist is under way leaves the pool free for
    // another session.
    let mut pool = Pool::with_store(test_config(4), InMemoryLeaseStore::new(), 1_000).unwrap();
    let state = pool.state_mut();
    let now = PoolTime::from_monotonic(1_000);
    let first_plan = match state.begin_reserve(session(1), device(11), now) {
        Ok(plan) => plan,
        Err(error) => panic!("the first reservation is planned: {error:?}"),
    };
    let second = pool.reserve(session(2), device(12), 1_000).unwrap();
    pool.commit(session(2), 1_000).unwrap();
    let first = finish(&mut pool, first_plan);
    assert_ne!(first.ipv4, second.ipv4, "concurrent reserves must hold distinct addresses");
    assert_ne!(first.ipv6_prefix, second.ipv6_prefix);
    pool.commit(session(1), 1_000).unwrap();
    assert_eq!(pool.snapshot().active, 2);
}

fn finish(pool: &mut Pool, begun: ReserveStep) -> AssignedAddresses {
    match begun {
        ReserveStep::Persist(plan) => {
            pool.store_mut().unwrap().persist(&plan.record()).unwrap();
            pool.state_mut().finish_reserve(plan, true).unwrap()
        }
        _ => panic!("a fresh session is persisted"),
    }
}

#[test]
fn inflight_same_session_fails_closed_for_retry() {
    let mut pool = Pool::with_store(test_config(4), InMemoryLeaseStore::new(), 1_000).unwrap();
    let now = PoolTime::from_monotonic(1_000);
    let begun = match pool.state_mut().begin_reserve(session(1), device(11), now) {
        Ok(begun) => begun,
        Err(error) => panic!("the first reservation is planned: {error:?}"),
    };
    assert_eq!(pool.reserve(session(1), device(11), 1_000), Err(AddressPoolError::Store));
    assert_eq!(pool.snapshot().inflight_conflicts, 1);
    let first = finish(&mut pool, begun);
    let retried = pool.reserve(session(1), device(11), 1_000).unwrap();
    assert_eq!(first, retried, "retry after inflight commit is idempotent");
}

#[test]
fn retry_batch_is_bounded_and_backoff_defers() {
    let mut pool = Pool::with_store(test_config(8), InMemoryLeaseStore::new(), 1_000).unwrap();
    for index in 0..4u8 {
        pool.reserve(session(10 + index), device(20 + index), 1_000).unwrap();
        pool.commit(session(10 + index), 1_000).unwrap();
    }
    pool.store_mut().unwrap().fail_next_releases(4);
    for index in 0..4u8 {
        assert!(pool.release_at(session(10 + index), 1_000).unwrap());
    }
    assert_eq!(pool.snapshot().pending_releases, 4);
    assert_eq!(pool.retry_pending_releases_bounded(50_000, 2), 2);
    let snapshot = pool.snapshot();
    assert_eq!(snapshot.pending_releases, 2);
    assert_eq!(snapshot.release_retries, 2);
    assert!(snapshot.release_retry_deferred >= 2, "beyond-batch entries must count deferred");
    assert_eq!(pool.retry_pending_releases_bounded(50_000, 32), 0);
    assert_eq!(pool.snapshot().pending_releases, 0);
    pool.store_mut().unwrap().fail_next_releases(1);
    pool.reserve(session(30), device(40), 1_000).unwrap();
    pool.commit(session(30), 1_000).unwrap();
    assert!(pool.release_at(session(30), 1_000).unwrap());
    assert_eq!(pool.snapshot().pending_releases, 1);
    assert_eq!(
        pool.retry_pending_releases_bounded(1_500, 32),
        1,
        "not-due retry must not attempt"
    );
    assert_eq!(pool.quarantined()[0].2, 0, "deferred retry must not increment attempts");
    assert!(pool.snapshot().release_retry_deferred >= 1);
    assert_eq!(pool.retry_pending_releases_bounded(2_500, 32), 0);
    assert!(pool.quarantined().is_empty());
    pool.store_mut().unwrap().fail_next_releases(2);
    pool.reserve(session(31), device(41), 10_000).unwrap();
    pool.commit(session(31), 10_000).unwrap();
    assert!(pool.release_at(session(31), 10_000).unwrap());
    assert_eq!(pool.retry_pending_releases_bounded(11_000, 32), 1, "first retry fails");
    assert_eq!(pool.quarantined()[0].2, 1);
    assert_eq!(pool.retry_pending_releases_bounded(12_000, 32), 1);
    assert_eq!(
        pool.quarantined()[0].2,
        1,
        "deferred retry must not increment attempts again"
    );
    assert_eq!(
        pool.retry_pending_releases_bounded(13_000, 32),
        0,
        "store recovered after the backoff"
    );
}

#[test]
fn release_at_uses_timed_backoff_and_deferred_cleanup_avoids_store_io() {
    let mut pool = Pool::with_store(test_config(2), InMemoryLeaseStore::new(), 1_000).unwrap();
    pool.reserve(session(1), device(11), 1_000).unwrap();
    pool.commit(session(1), 1_000).unwrap();
    pool.store_mut().unwrap().fail_next_releases(1);
    assert!(pool.release_at(session(1), 5_000).unwrap());
    assert_eq!(pool.snapshot().pending_releases, 1);
    assert_eq!(pool.retry_pending_releases_bounded(5_500, 32), 1);
    assert_eq!(pool.retry_pending_releases_bounded(6_000, 32), 0);
    pool.reserve(session(2), device(12), 7_000).unwrap();
    pool.commit(session(2), 7_000).unwrap();
    pool.store_mut().unwrap().fail_next_releases(100);
    let failures_before = pool.snapshot().store_failures;
    assert!(
        pool.release_deferred(session(2)),
        "deferred cleanup must quarantine without store I/O"
    );
    assert_eq!(pool.snapshot().pending_releases, 1);
    assert_eq!(
        pool.snapshot().store_failures,
        failures_before,
        "deferred path must not count store failures"
    );
    assert_eq!(
        stored(&mut pool).len(),
        1,
        "session 2's store entry remains for the bounded retry"
    );
}

#[test]
fn backoff_doubles_up_to_a_cap() {
    assert_eq!(next_retry_deadline(0, 0), 1_000);
    assert_eq!(next_retry_deadline(0, 1), 2_000);
    assert_eq!(next_retry_deadline(500, 2), 4_500);
    assert_eq!(next_retry_deadline(0, 5), 32_000);
    assert_eq!(next_retry_deadline(0, 6), 60_000);
    assert_eq!(next_retry_deadline(0, u64::MAX), 60_000);
    assert_eq!(next_retry_deadline(u64::MAX, 5), u64::MAX);
}

#[test]
fn unknown_and_expired_leases_are_named() {
    let mut pool = Pool::new(test_config(2)).unwrap();
    assert_eq!(pool.commit(session(1), 1_000), Err(AddressPoolError::UnknownLease));
    pool.reserve(session(1), device(11), 1_000).unwrap();
    assert_eq!(pool.commit(session(1), 6_000), Err(AddressPoolError::Expired));
    pool.reserve(session(1), device(11), 6_000).unwrap();
    pool.commit(session(1), 6_000).unwrap();
    assert_eq!(pool.renew(session(1), 66_000), Err(AddressPoolError::Expired));
}

#[test]
fn leases_never_share_addresses_whatever_happens() {
    // A scripted mix of reserve, commit, release and sweep on a small pool.
    let mut pool = Pool::with_store(test_config(5), InMemoryLeaseStore::new(), 1_000).unwrap();
    let mut now = 1_000u64;
    for step in 0..200u64 {
        let id = session((step * 7 % 9 + 1) as u8);
        now += step % 700;
        match step % 5 {
            0 | 1 => {
                let _ = pool.reserve(id, device(1), now);
            }
            2 => {
                let _ = pool.commit(id, now);
            }
            3 => {
                if step % 2 == 0 {
                    pool.store_mut().unwrap().fail_next_releases(1);
                }
                let _ = pool.release_at(id, now);
            }
            _ => {
                let _ = pool.sweep(now);
            }
        }
        let mut seen: Vec<[u8; 4]> = Vec::new();
        for byte in 1..=9u8 {
            if let Some(lease) = pool.lookup(session(byte)) {
                assert!(!seen.contains(&lease.ipv4), "two sessions share {:?}", lease.ipv4);
                seen.push(lease.ipv4);
            }
        }
        assert!(seen.len() <= 5);
    }
}

#[test]
fn pool_sweep_config_rejects_invalid_intervals() {
    assert!(PoolSweepConfig::new(0, 10).is_none());
    assert!(PoolSweepConfig::new(10, 5).is_none());
    assert!(PoolSweepConfig::new(1, 3_600_001).is_none());
    let fixed = PoolSweepConfig::fixed(50).unwrap();
    assert_eq!(fixed.min_interval_ms(), 50);
    assert_eq!(fixed.max_interval_ms(), 50);
    let ranged = PoolSweepConfig::new(10, 100).unwrap();
    assert_eq!(ranged.min_interval_ms(), 10);
    assert_eq!(ranged.max_interval_ms(), 100);
}

#[test]
fn a_subnet_is_given_back_by_its_index() {
    let mut base = [0u8; 16];
    base[0] = 0xfd;
    // Bits of the base behind the parent do not count.
    base[7] = 0x7f;
    for parent_len in [1u8, 8, 16, 48, 60, 63] {
        let last = u64::MAX >> parent_len;
        for subnet in [0, 1, last / 2, last] {
            let prefix = ipv6_subnet_prefix(&base, parent_len, subnet);
            assert_eq!(ipv6_subnet_index(&base, parent_len, &prefix), Some(subnet));
            assert!(ipv6_is_64_aligned(&prefix));
            assert!(ipv6_prefix_matches_parent(&prefix, &base, parent_len));
        }
    }
    let mut third = base;
    third[7] = 3;
    assert_eq!(ipv6_subnet_prefix(&base, 48, 3), third);
    assert_eq!(ipv6_subnet_prefix(&base, 48, 0x1_0003), third, "what does not fit is dropped");
    let mut outside = third;
    outside[5] = 1;
    assert_eq!(ipv6_subnet_index(&base, 48, &outside), None);
    assert!(!ipv6_prefix_matches_parent(&outside, &base, 48));
    assert_eq!(ipv6_subnet_index(&base, 40, &outside), Some(0x1_0003));
    let mut host = third;
    host[15] = 1;
    assert!(!ipv6_is_64_aligned(&host));
    assert_eq!(ipv6_subnet_index(&base, 48, &host), Some(3));
    // A parent that is no shorter than a subnet holds itself.
    assert_eq!(ipv6_subnet_index(&base, 64, &base), Some(0));
    assert_eq!(ipv6_subnet_prefix(&base, 64, 9)[..8], base[..8]);
}
