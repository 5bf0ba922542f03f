use streamguard_gateway::v2::address_pool::{AddressPool, AddressPoolConfig, InMemoryLeaseStore};
use streamguard_gateway::v2::config::{JournalEntry, RefStat, V2GatewayConfigError};
use streamguard_gateway::v2::listener::V2AdmissionListenerError;
use streamguard_gateway::v2::replay::ReplayFile;
use streamguard_gateway::v2::runtime::{
    enforce_journal_permissions, needs_hardening, open_replay, AdmittedStep, ControlTask,
    ControlTaskOutcome, JoinedTask, RunStep, StartFlow, StartStep, V2GatewayRuntime,
    V2GatewayRuntimeError,
};
use streamguard_gateway::v2::secure_journal::{FileKind, FileStat};

fn start_failing_at(fails: Option<StartStep>) -> (Vec<StartStep>, StartFlow) {
    let mut flow = StartFlow::begin();
    let mut steps = Vec::new();
    loop {
        let step = flow.step();
        steps.push(step);
        if let StartStep::Finished(_) = step {
            return (steps, flow);
        }
        flow.advance(fails != Some(step));
    }
}

fn runtime(maximum_connections: usize) -> V2GatewayRuntime {
    let (_, flow) = start_failing_at(None);
    V2GatewayRuntime::start(&flow, maximum_connections, 3).ok().unwrap()
}

#[test]
fn the_listener_is_bound_last() {
    let (steps, _) = start_failing_at(None);
    assert_eq!(
        steps,
        vec![
            StartStep::CheckSecret,
            StartStep::OpenPool,
            StartStep::CheckLeaseJournal,
            StartStep::OpenReplay,
            StartStep::CheckReplayJournal,
            StartStep::BuildSessions,
            StartStep::BuildLimiter,
            StartStep::StartSweeps,
            StartStep::SweepSessions,
            StartStep::SweepPool,
            StartStep::SettleSessions,
            StartStep::BindListener,
            StartStep::Finished(Ok(())),
        ]
    );
}

#[test]
fn every_failed_step_has_its_error() {
    for (step, error) in [
        (StartStep::CheckSecret, V2GatewayRuntimeError::SharedSecretPresent),
        (StartStep::OpenPool, V2GatewayRuntimeError::Unavailable),
        (StartStep::CheckLeaseJournal, V2GatewayRuntimeError::FilesystemRef),
        (StartStep::OpenReplay, V2GatewayRuntimeError::ReplayStore),
        (StartStep::CheckReplayJournal, V2GatewayRuntimeError::FilesystemRef),
        (StartStep::BuildSessions, V2GatewayRuntimeError::InvalidConfiguration),
        (StartStep::BuildLimiter, V2GatewayRuntimeError::InvalidConfiguration),
        (StartStep::SweepSessions, V2GatewayRuntimeError::Unavailable),
        (StartStep::SettleSessions, V2GatewayRuntimeError::Unavailable),
        (StartStep::BindListener, V2GatewayRuntimeError::Listener),
    ] {
        let (_, flow) = start_failing_at(Some(step));
        assert_eq!(V2GatewayRuntime::start(&flow, 1, 1).err(), Some(error), "at {step:?}");
    }
}

#[test]
fn connections_are_bounded_and_accounted_for() {
    let mut runtime = runtime(2);
    assert_eq!(runtime.run(), RunStep::AwaitAdmission { tasks_running: false });
    assert_eq!(runtime.admitted(), AdmittedStep::Spawn);
    assert_eq!(runtime.run(), RunStep::AwaitAdmission { tasks_running: true });
    assert_eq!(runtime.admitted(), AdmittedStep::Spawn);
    assert_eq!(runtime.run(), RunStep::AwaitTask);
    assert_eq!(runtime.admitted(), AdmittedStep::Unwind);
    runtime.record_task_outcome(JoinedTask::Ended(ControlTaskOutcome {
        messages: 3,
        completed: true,
    }));
    runtime.record_task_outcome(JoinedTask::Crashed);
    runtime.record_task_outcome(JoinedTask::Nothing);
    assert!(runtime.admission_failed(V2AdmissionListenerError::Limited));
    let pool = AddressPool::<InMemoryLeaseStore>::new(
        AddressPoolConfig::new(
            [10, 64, 0, 0],
            24,
            [10, 64, 0, 1],
            vec![],
            [0xfd, 0, 0, 0, 0, 0, 0, 0, 0, 0, 0, 0, 0, 0, 0, 0],
            48,
            4,
            5_000,
            60_000,
            4,
        )
        .unwrap(),
    )
    .unwrap();
    let snapshot = runtime.snapshot(6, &pool.snapshot());
    assert_eq!(snapshot.accepted, 2);
    assert_eq!(snapshot.refused_full, 1);
    assert_eq!(snapshot.control_tasks_completed, 1);
    assert_eq!(snapshot.control_tasks_failed, 1);
    assert_eq!(snapshot.admission_failures, 1);
    assert_eq!(snapshot.control_tasks_running, 0);
    assert_eq!(snapshot.maximum_connections, 2);
    assert_eq!(snapshot.sessions, 6);
    assert_eq!(snapshot.pool_active, 0);
}

#[test]
fn a_closed_endpoint_ends_the_accept_loop() {
    let mut runtime = runtime(2);
    assert!(runtime.admission_failed(V2AdmissionListenerError::Handshake));
    assert!(!runtime.admission_failed(V2AdmissionListenerError::EndpointClosed));
}

#[test]
fn stopping_twice_is_stopping_once() {
    let mut runtime = runtime(2);
    runtime.admitted();
    runtime.stop();
    assert_eq!(runtime.running(), 0);
    assert_eq!(runtime.run(), RunStep::Leave);
    runtime.stop();
    assert_eq!(runtime.run(), RunStep::Leave);
    assert!(!runtime.admission_failed(V2AdmissionListenerError::Limited));
}

#[test]
fn a_control_task_answers_no_more_than_it_may() {
    let mut task = ControlTask::begin(2);
    assert_eq!(task.outcome(), None);
    task.handled(true);
    task.handled(true);
    assert_eq!(task.outcome(), Some(ControlTaskOutcome { messages: 2, completed: true }));
    let mut task = ControlTask::begin(5);
    task.handled(true);
    task.handled(false);
    assert_eq!(task.outcome(), Some(ControlTaskOutcome { messages: 1, completed: false }));
}

#[test]
fn journals_are_kept_private() {
    let found = |kind: FileKind, mode: u32| {
        JournalEntry::Found(RefStat { file: FileStat { kind, mode }, len: 1 })
    };
    let regular = |mode: u32| found(FileKind::Regular, mode);
    let refused = Err(V2GatewayRuntimeError::FilesystemRef);
    assert_eq!(enforce_journal_permissions(JournalEntry::Missing, None), Ok(()));
    assert_eq!(enforce_journal_permissions(JournalEntry::Unreadable, None), refused);
    assert_eq!(enforce_journal_permissions(regular(0o600), None), Ok(()));
    assert!(needs_hardening(regular(0o644)));
    assert!(!needs_hardening(regular(0o600)));
    assert!(!needs_hardening(found(FileKind::Symlink, 0o777)));
    assert_eq!(enforce_journal_permissions(found(FileKind::Symlink, 0o600), None), refused);
    assert_eq!(enforce_journal_permissions(regular(0o644), None), refused);
    let fixed = |mode: u32| Some(FileStat { kind: FileKind::Regular, mode });
    assert_eq!(enforce_journal_permissions(regular(0o644), fixed(0o600)), Ok(()));
    assert_eq!(enforce_journal_permissions(regular(0o644), fixed(0o640)), refused);
}

#[test]
fn configuration_errors_keep_their_meaning() {
    for (error, expected) in [
        (V2GatewayConfigError::Io, V2GatewayRuntimeError::Io),
        (V2GatewayConfigError::Malformed, V2GatewayRuntimeError::Malformed),
        (V2GatewayConfigError::FilesystemRef, V2GatewayRuntimeError::FilesystemRef),
        (V2GatewayConfigError::SharedSecretPresent, V2GatewayRuntimeError::SharedSecretPresent),
        (V2GatewayConfigError::LeaseModeRejected, V2GatewayRuntimeError::LeaseModeRejected),
    ] {
        assert_eq!(V2GatewayRuntimeError::from(error), expected);
    }
}

#[test]
fn a_start_needs_its_redemption_journal() {
    assert!(open_replay(&ReplayFile::Missing, "gw", 4, 1).is_ok());
    for file in [ReplayFile::Unreadable, ReplayFile::Insecure, ReplayFile::Present(vec![1])] {
        assert!(matches!(
            open_replay(&file, "gw", 4, 1),
            Err(V2GatewayRuntimeError::ReplayStore)
        ));
    }
}
