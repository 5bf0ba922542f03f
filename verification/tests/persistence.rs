use streamguard_gateway::time::Span;
use streamguard_gateway::v2::persistence::{
    monotonic_expiry_from_wall, wall_expiry_from_ttl, wall_ms_now, Join, PersistenceConfig,
    PersistenceError, PersistenceOwner, PoolTime, Reply, Submission, PERSISTENCE_IO_TIMEOUT_MS,
    PERSISTENCE_QUEUE_CAPACITY, PERSISTENCE_QUEUE_HARD_CAP, PERSISTENCE_SHUTDOWN_TIMEOUT_MS,
};

fn io_timeout() -> Span {
    Span::from_millis(PERSISTENCE_IO_TIMEOUT_MS)
}

fn shutdown_timeout() -> Span {
    Span::from_millis(PERSISTENCE_SHUTDOWN_TIMEOUT_MS)
}

#[test]
fn pool_time_helpers_are_saturating_and_deterministic() {
    assert_eq!(PoolTime::from_monotonic(1_000), PoolTime::new(1_000, 1_000));
    assert_eq!(
        PoolTime::from_monotonic_and_wall_seconds(1_000, 2_000),
        PoolTime::new(1_000, 2_000_000)
    );
    assert_eq!(wall_expiry_from_ttl(1_000, 5_000), 6_000);
    assert_eq!(wall_expiry_from_ttl(u64::MAX, 1), u64::MAX);
    assert_eq!(monotonic_expiry_from_wall(6_000, 1_000, 1_000), 6_000);
    assert_eq!(monotonic_expiry_from_wall(500, 1_000, 1_000), 1_000);
    assert_eq!(monotonic_expiry_from_wall(u64::MAX, 0, u64::MAX), u64::MAX);
}

#[test]
fn wall_clock_reads_as_zero_before_the_epoch() {
    assert_eq!(wall_ms_now(None), 0);
    assert_eq!(wall_ms_now(Some(Span::new(7, 999_999_999))), 7_999);
    assert_eq!(wall_ms_now(Some(Span::from_secs(u64::MAX))), u64::MAX);
    assert_eq!(PoolTime::from_monotonic_and_wall_seconds(3, u64::MAX), PoolTime::new(3, u64::MAX));
}

#[test]
fn persistence_config_rejects_unbounded_or_zero_timeouts() {
    assert!(PersistenceConfig::new(0, io_timeout(), shutdown_timeout()).is_none());
    assert!(PersistenceConfig::new(
        PERSISTENCE_QUEUE_HARD_CAP + 1,
        io_timeout(),
        shutdown_timeout()
    )
    .is_none());
    assert!(PersistenceConfig::new(8, Span::from_millis(0), shutdown_timeout()).is_none());
    assert!(PersistenceConfig::new(8, io_timeout(), Span::from_millis(0)).is_none());
    assert!(PersistenceConfig::new(8, io_timeout(), shutdown_timeout()).is_some());
}

#[test]
fn timeouts_lie_between_a_millisecond_and_thirty_seconds() {
    let second = Span::from_secs(1);
    let shortest = Span::from_millis(1);
    let longest = Span::from_secs(30);
    assert!(PersistenceConfig::new(8, shortest, longest).is_some());
    assert!(PersistenceConfig::new(8, longest, shortest).is_some());
    assert!(PersistenceConfig::new(8, Span::new(30, 1), second).is_none());
    assert!(PersistenceConfig::new(8, second, Span::new(30, 1)).is_none());
    assert!(PersistenceConfig::new(8, Span::new(0, 999_999), second).is_none());
    assert!(PersistenceConfig::new(8, second, Span::new(0, 999_999)).is_none());
}

#[test]
fn outcomes_add_up_to_the_executions() {
    let config = PersistenceConfig::new(1, io_timeout(), shutdown_timeout()).unwrap();
    let mut owner = PersistenceOwner::start(config);
    for reply in [Reply::Answered(1u8), Reply::TimedOut, Reply::Dropped] {
        owner.begin_execute().unwrap();
        owner.submitted(Submission::Queued).unwrap();
        let _ = owner.end_execute(reply);
    }
    for submission in [Submission::Full, Submission::Disconnected] {
        owner.begin_execute().unwrap();
        assert!(owner.submitted(submission).is_err());
    }
    owner.begin_stop();
    assert!(owner.begin_execute().is_err());
    let counts = owner.snapshot();
    assert_eq!((counts.completed, counts.timed_out, counts.full_dropped, counts.closed), (1, 1, 1, 3));
    assert_eq!(counts.submitted, 3);
}

#[test]
fn owner_executes_inline_and_reports_full_backpressure() {
    let config = PersistenceConfig::new(1, io_timeout(), shutdown_timeout()).unwrap();
    let mut owner = PersistenceOwner::start(config);
    assert_eq!(owner.begin_execute(), Ok(()));
    assert_eq!(owner.submitted(Submission::Queued), Ok(()));
    let first = owner.end_execute(Reply::Answered(41u32)).unwrap();
    assert_eq!(first, 41);
    assert_eq!(owner.snapshot().submitted, 1);
    assert_eq!(owner.snapshot().completed, 1);
    assert_eq!(owner.begin_execute(), Ok(()));
    assert_eq!(owner.submitted(Submission::Full), Err(PersistenceError::Full));
    assert_eq!(owner.snapshot().full_dropped, 1);
}

#[test]
fn owner_stop_is_idempotent_and_bounded() {
    let mut owner = PersistenceOwner::start_default();
    assert!(owner.begin_stop());
    owner.end_stop(Join::Finished);
    let first = owner.snapshot();
    assert_eq!(first.queue_capacity, PERSISTENCE_QUEUE_CAPACITY);
    assert!(!owner.begin_stop(), "there is nothing left to join");
    let second = owner.snapshot();
    assert_eq!(second.submitted, first.submitted);
    assert!(owner.is_closed());
    assert_eq!(owner.begin_execute(), Err(PersistenceError::Closed));
}

#[test]
fn owner_stalled_shutdown_completes_within_deadline() {
    let mut owner = PersistenceOwner::start_default();
    assert_eq!(owner.begin_execute(), Ok(()));
    assert_eq!(owner.submitted(Submission::Queued), Ok(()));
    assert_eq!(owner.end_execute::<u32>(Reply::TimedOut), Err(PersistenceError::Timeout));
    assert_eq!(owner.snapshot().timed_out, 1);
    assert!(owner.begin_stop());
    owner.end_stop(Join::TimedOut);
    assert_eq!(owner.snapshot().shutdown_timed_out, 1);
}

#[test]
fn a_lost_worker_is_closed() {
    let mut owner = PersistenceOwner::start_default();
    assert_eq!(owner.begin_execute(), Ok(()));
    assert_eq!(owner.submitted(Submission::Disconnected), Err(PersistenceError::Closed));
    let mut owner = PersistenceOwner::start_default();
    assert_eq!(owner.begin_execute(), Ok(()));
    assert_eq!(owner.submitted(Submission::Queued), Ok(()));
    assert_eq!(owner.end_execute::<u32>(Reply::Dropped), Err(PersistenceError::Closed));
}
