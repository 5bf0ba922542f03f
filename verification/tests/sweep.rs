use streamguard_gateway::ids::{DeviceId, SessionId};
use streamguard_gateway::v2::address_pool::mode::{queued, queued_release, queued_retry, queued_sweep};
use streamguard_gateway::v2::address_pool::sweep::SweepStop;
use streamguard_gateway::v2::address_pool::{
    AddressPool, AddressPoolConfig, AddressPoolError, InMemoryLeaseStore, PoolSweepConfig,
    SupervisedPoolSweep,
};
use streamguard_gateway::v2::persistence::PersistenceError;

type Pool = AddressPool<InMemoryLeaseStore>;

fn config(maximum_leases: usize) -> AddressPoolConfig {
    AddressPoolConfig::new(
        [10, 64, 0, 0],
        24,
        [10, 64, 0, 1],
        vec![[10, 64, 0, 254]],
        [0xfd, 0, 0, 0, 0, 0, 0, 0, 0, 0, 0, 0, 0, 0, 0, 0],
        48,
        maximum_leases,
        5_000,
        60_000,
        maximum_leases,
    )
    .unwrap()
}

/// One tick, its sweep, and the closing of the sessions it expired.
fn tick(sweep: &mut SupervisedPoolSweep, pool: &mut Pool, now: u64, open: &mut Vec<SessionId>) {
    assert!(sweep.tick());
    assert!(sweep.take_tick().is_some());
    let expired = pool.sweep(now);
    let to_close = sweep.end_sweep(expired);
    let closed: Vec<bool> = to_close.iter().map(|id| open.contains(id)).collect();
    open.retain(|id| !to_close.contains(id));
    sweep.sessions_closed(&closed);
}

#[test]
fn manual_tick_expires_lease_and_closes_session_autonomously() {
    let mut pool = Pool::new(config(4)).unwrap();
    let now = 1_000;
    let session_id = SessionId::from_bytes([41; 16]);
    pool.reserve(session_id, DeviceId::from_bytes([42; 16]), now).unwrap();
    pool.commit(session_id, now).unwrap();
    let mut open = vec![session_id];
    let settings = PoolSweepConfig::fixed(10).unwrap();
    let mut sweep = SupervisedPoolSweep::spawn_with_sessions(settings);
    assert_eq!(sweep.config(), settings);

    tick(&mut sweep, &mut pool, now + 1_000, &mut open);
    assert!(pool.lookup_active(session_id).is_some());
    assert_eq!(open.len(), 1);
    assert_eq!(sweep.metrics_snapshot().sweeps_completed(), 1);
    assert_eq!(sweep.metrics_snapshot().leases_expired(), 0);
    assert_eq!(sweep.metrics_snapshot().sweeps_empty(), 1);

    tick(&mut sweep, &mut pool, now + 60_000, &mut open);
    assert!(pool.lookup(session_id).is_none());
    assert!(pool.lookup_active(session_id).is_none());
    assert_eq!(open.len(), 0);
    assert_eq!(sweep.metrics_snapshot().sweeps_completed(), 2);
    assert_eq!(sweep.metrics_snapshot().leases_expired(), 1);
    assert_eq!(sweep.metrics_snapshot().sessions_closed(), 1);

    tick(&mut sweep, &mut pool, now + 61_000, &mut open);
    assert_eq!(sweep.metrics_snapshot().sweeps_completed(), 3);
    assert_eq!(sweep.metrics_snapshot().sweeps_empty(), 2);

    sweep.stop();
    assert_eq!(sweep.metrics_snapshot().sweeps_completed(), 3);
    sweep.stop();
    assert_eq!(sweep.metrics_snapshot().sweeps_completed(), 3);
}

#[test]
fn manual_tick_retries_quarantined_release_after_session_close() {
    let mut pool = Pool::with_store(config(2), InMemoryLeaseStore::new(), 1_000).unwrap();
    let now = 1_000;
    let session_id = SessionId::from_bytes([51; 16]);
    pool.reserve(session_id, DeviceId::from_bytes([52; 16]), now).unwrap();
    pool.commit(session_id, now).unwrap();
    assert!(pool.release_deferred(session_id));
    assert_eq!(pool.snapshot().pending_releases, 1);
    assert_eq!(pool.quarantined().len(), 1);
    let mut open = Vec::new();
    let mut sweep = SupervisedPoolSweep::spawn(PoolSweepConfig::fixed(10).unwrap());

    pool.store_mut().unwrap().fail_next_releases(1);
    tick(&mut sweep, &mut pool, now, &mut open);
    assert_eq!(pool.snapshot().pending_releases, 1);
    assert_eq!(pool.quarantined()[0].2, 1);
    assert_eq!(sweep.metrics_snapshot().sweeps_completed(), 1);

    tick(&mut sweep, &mut pool, now + 1_000, &mut open);
    assert_eq!(pool.snapshot().pending_releases, 1, "backoff must defer before the deadline");
    tick(&mut sweep, &mut pool, now + 2_000, &mut open);
    assert!(pool.quarantined().is_empty());
    assert_eq!(pool.snapshot().pending_releases, 0);
    assert_eq!(pool.snapshot().release_retries, 1);
    sweep.stop();
    assert_eq!(sweep.metrics_snapshot().sweeps_completed(), 3);
}

#[test]
fn supervised_pool_production_spawn_stops_without_hanging() {
    let mut sweep = SupervisedPoolSweep::spawn(PoolSweepConfig::fixed(10).unwrap());
    let first = sweep.stop();
    let metrics = sweep.metrics_snapshot();
    let second = sweep.stop();
    assert_eq!(sweep.metrics_snapshot().sweeps_completed(), metrics.sweeps_completed());
    assert_ne!(first, SweepStop::Stopped);
    assert_eq!(second, SweepStop::Stopped);
}

#[test]
fn ticks_coalesce_behind_a_slow_sweep() {
    let mut sweep = SupervisedPoolSweep::spawn(PoolSweepConfig::fixed(10).unwrap());
    assert!(sweep.tick());
    assert!(sweep.tick());
    assert!(sweep.tick());
    let metrics = sweep.metrics_snapshot();
    assert_eq!(metrics.ticks_queued(), 1);
    assert_eq!(metrics.ticks_dropped(), 2);
    assert_eq!(metrics.queue_depth(), 1);
    assert!(sweep.take_tick().is_some());
    assert!(sweep.take_tick().is_none());
}

#[test]
fn queued_work_fails_closed() {
    assert_eq!(queued(Ok(Ok(3u32))), Ok(3));
    assert_eq!(queued::<u32>(Err(PersistenceError::Full)), Err(AddressPoolError::Store));
    assert_eq!(queued::<u32>(Err(PersistenceError::Timeout)), Err(AddressPoolError::Store));
    assert_eq!(queued::<u32>(Err(PersistenceError::Closed)), Err(AddressPoolError::Unavailable));
    assert_eq!(queued_release(Ok(Ok(true))), Ok(true));
    assert_eq!(queued_release(Err(PersistenceError::Full)), Err(AddressPoolError::Unavailable));
    assert!(queued_sweep(Err(PersistenceError::Timeout)).is_empty());
    assert_eq!(queued_retry(Ok(2)), 2);
    assert_eq!(queued_retry(Err(PersistenceError::Timeout)), 0);
}
