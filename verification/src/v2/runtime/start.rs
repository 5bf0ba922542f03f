//! Startup, in order: no secret, leases recovered, journals private, ticket
//! redemptions recovered, state built, expired state swept, and only then the
//! listener.
use super::super::address_pool::mode;
use super::super::address_pool::{
    AddressPool, AddressPoolConfig, AddressPoolError, AddressPoolMode, InMemoryLeaseStore, LeaseStore, OpenedStore,
    StoreError,
};
use super::super::admission::replay_cache;
use super::super::admission::ReplayCache;
use super::super::persistence::PoolTime;
use super::super::replay::{ReplayFile, MAX_REPLAY_ENTRIES_HARD_CAP};
use super::error::V2GatewayRuntimeError;
use vstd::prelude::*;

verus! {

/// Opens the self-hosted lease journal's pool and recovers its leases. A
/// journal that could not be opened makes the state unavailable.
pub fn open_pool<J: LeaseStore>(
    config: AddressPoolConfig,
    journal: Result<J, StoreError>,
    now: PoolTime,
) -> (result: Result<AddressPool<OpenedStore<J, InMemoryLeaseStore>>, V2GatewayRuntimeError>)
    requires
        config.wf(),
        journal matches Ok(journal) ==> journal.wf(),
    ensures
        result matches Err(e) ==> e == V2GatewayRuntimeError::Unavailable,
        mode::opening_ends(
            config@,
            AddressPoolMode::<J, InMemoryLeaseStore>::SelfHosted { journal },
            now,
            match result {
                Ok(pool) => Ok(pool),
                Err(_) => Err(AddressPoolError::Store),
            },
        ),
{
    match AddressPool::<OpenedStore<J, InMemoryLeaseStore>>::open_at_time(
        config,
        AddressPoolMode::SelfHosted { journal },
        now,
    ) {
        Ok(pool) => Ok(pool),
        Err(_) => Err(V2GatewayRuntimeError::Unavailable),
    }
}

/// Opens the single-gateway redemption journal, from the journal file as
/// reading it turned out. Hands back the canonical journal to write before the
/// cache is used.
pub fn open_replay(
    file: &ReplayFile,
    gateway_name: &str,
    capacity: usize,
    now_unix_seconds: u64,
) -> (result: Result<(ReplayCache, Vec<u8>), V2GatewayRuntimeError>)
    ensures
        match result {
            Ok((cache, journal)) => {
                &&& 1 <= capacity <= MAX_REPLAY_ENTRIES_HARD_CAP
                &&& cache.wf()
                &&& cache@.capacity == capacity
                &&& cache@.gateway == Some(gateway_name@)
                &&& cache@.under_way is None
                &&& cache@.journal == journal@
                &&& cache@.journaled == cache@.entries
                &&& cache@.replay_rejected == 0
                &&& cache@.capacity_rejected == 0
                &&& cache@.expired == 0
                &&& replay_cache::restored(
                    file,
                    gateway_name@,
                    now_unix_seconds,
                    cache@.entries,
                )
                &&& replay_cache::snapshot_of(journal@, gateway_name@, cache@.entries)
            },
            Err(e) => {
                &&& e == V2GatewayRuntimeError::ReplayStore
                &&& 1 <= capacity <= MAX_REPLAY_ENTRIES_HARD_CAP ==> forall|
                    entries: Map<u128, u64>,
                | #[trigger]
                    replay_cache::restored(
                        file,
                        gateway_name@,
                        now_unix_seconds,
                        entries,
                    ) ==> entries.len() > capacity
            },
        },
{
    match ReplayCache::open_durable(file, gateway_name, capacity, now_unix_seconds) {
        Ok(opened) => Ok(opened),
        Err(_) => Err(V2GatewayRuntimeError::ReplayStore),
    }
}

/// What to do next.
#[derive(Debug, Clone, Copy, PartialEq, Eq)]
pub enum StartStep {
    /// Make sure that the environment holds no shared secret.
    CheckSecret,
    /// Open the lease journal and recover its leases.
    OpenPool,
    /// Make sure that the lease journal is private.
    CheckLeaseJournal,
    /// Open the redemption journal and write it back in canonical form.
    OpenReplay,
    /// Make sure that the redemption journal is private.
    CheckReplayJournal,
    /// Build the session map.
    BuildSessions,
    /// Build the handshake limiter.
    BuildLimiter,
    /// Start the supervised sweeps.
    StartSweeps,
    /// Sweep the session map.
    SweepSessions,
    /// Sweep the pool and close the sessions of expired leases.
    SweepPool,
    /// Sweep the session map once more.
    SettleSessions,
    /// Bind the listener.
    BindListener,
    /// Nothing: it is decided.
    Finished(Result<(), V2GatewayRuntimeError>),
}

/// How many steps come before a start is decided.
pub const START_STEPS: usize = 12;

/// The steps, in order.
pub open spec fn stage(n: int) -> StartStep {
    if n == 0 {
        StartStep::CheckSecret
    } else if n == 1 {
        StartStep::OpenPool
    } else if n == 2 {
        StartStep::CheckLeaseJournal
    } else if n == 3 {
        StartStep::OpenReplay
    } else if n == 4 {
        StartStep::CheckReplayJournal
    } else if n == 5 {
        StartStep::BuildSessions
    } else if n == 6 {
        StartStep::BuildLimiter
    } else if n == 7 {
        StartStep::StartSweeps
    } else if n == 8 {
        StartStep::SweepSessions
    } else if n == 9 {
        StartStep::SweepPool
    } else if n == 10 {
        StartStep::SettleSessions
    } else if n == 11 {
        StartStep::BindListener
    } else {
        StartStep::Finished(Ok(()))
    }
}

/// Why a start fails where a step does, if it fails there at all.
pub open spec fn start_failure(step: StartStep) -> Option<V2GatewayRuntimeError> {
    match step {
        StartStep::CheckSecret => Some(V2GatewayRuntimeError::SharedSecretPresent),
        StartStep::OpenPool => Some(V2GatewayRuntimeError::Unavailable),
        StartStep::CheckLeaseJournal => Some(V2GatewayRuntimeError::FilesystemRef),
        StartStep::OpenReplay => Some(V2GatewayRuntimeError::ReplayStore),
        StartStep::CheckReplayJournal => Some(V2GatewayRuntimeError::FilesystemRef),
        StartStep::BuildSessions => Some(V2GatewayRuntimeError::InvalidConfiguration),
        StartStep::BuildLimiter => Some(V2GatewayRuntimeError::InvalidConfiguration),
        StartStep::StartSweeps => None,
        StartStep::SweepSessions => Some(V2GatewayRuntimeError::Unavailable),
        StartStep::SweepPool => None,
        StartStep::SettleSessions => Some(V2GatewayRuntimeError::Unavailable),
        StartStep::BindListener => Some(V2GatewayRuntimeError::Listener),
        StartStep::Finished(_) => None,
    }
}

/// The step after a step.
pub open spec fn next_start(step: StartStep, worked: bool) -> StartStep {
    match (step, start_failure(step)) {
        (StartStep::Finished(_), _) => step,
        (_, Some(error)) if !worked => StartStep::Finished(Err(error)),
        (StartStep::CheckSecret, _) => stage(1),
        (StartStep::OpenPool, _) => stage(2),
        (StartStep::CheckLeaseJournal, _) => stage(3),
        (StartStep::OpenReplay, _) => stage(4),
        (StartStep::CheckReplayJournal, _) => stage(5),
        (StartStep::BuildSessions, _) => stage(6),
        (StartStep::BuildLimiter, _) => stage(7),
        (StartStep::StartSweeps, _) => stage(8),
        (StartStep::SweepSessions, _) => stage(9),
        (StartStep::SweepPool, _) => stage(10),
        (StartStep::SettleSessions, _) => stage(11),
        (StartStep::BindListener, _) => StartStep::Finished(Ok(())),
    }
}

/// A start on its way.
pub struct StartFlow {
    step: StartStep,
}

impl StartFlow {
    /// The step to take.
    pub closed spec fn next(&self) -> StartStep {
        self.step
    }

    pub fn begin() -> (flow: Self)
        ensures
            flow.next() == StartStep::CheckSecret,
    {
        StartFlow { step: StartStep::CheckSecret }
    }

    pub fn step(&self) -> (step: StartStep)
        ensures
            step == self.next(),
    {
        self.step
    }

    /// Takes whether the step worked.
    pub fn advance(&mut self, worked: bool)
        ensures
            final(self).next() == next_start(old(self).next(), worked),
    {
        let (on, failure) = match self.step {
            StartStep::CheckSecret => (
                StartStep::OpenPool,
                Some(V2GatewayRuntimeError::SharedSecretPresent),
            ),
            StartStep::OpenPool => (
                StartStep::CheckLeaseJournal,
                Some(V2GatewayRuntimeError::Unavailable),
            ),
            StartStep::CheckLeaseJournal => (
                StartStep::OpenReplay,
                Some(V2GatewayRuntimeError::FilesystemRef),
            ),
            StartStep::OpenReplay => (
                StartStep::CheckReplayJournal,
                Some(V2GatewayRuntimeError::ReplayStore),
            ),
            StartStep::CheckReplayJournal => (
                StartStep::BuildSessions,
                Some(V2GatewayRuntimeError::FilesystemRef),
            ),
            StartStep::BuildSessions => (
                StartStep::BuildLimiter,
                Some(V2GatewayRuntimeError::InvalidConfiguration),
            ),
            StartStep::BuildLimiter => (
                StartStep::StartSweeps,
                Some(V2GatewayRuntimeError::InvalidConfiguration),
            ),
            StartStep::StartSweeps => (StartStep::SweepSessions, None),
            StartStep::SweepSessions => (
                StartStep::SweepPool,
                Some(V2GatewayRuntimeError::Unavailable),
            ),
            StartStep::SweepPool => (StartStep::SettleSessions, None),
            StartStep::SettleSessions => (
                StartStep::BindListener,
                Some(V2GatewayRuntimeError::Unavailable),
            ),
            StartStep::BindListener => (
                StartStep::Finished(Ok(())),
                Some(V2GatewayRuntimeError::Listener),
            ),
            StartStep::Finished(_) => (self.step, None),
        };
        self.step = match failure {
            Some(error) => {
                if worked {
                    on
                } else {
                    StartStep::Finished(Err(error))
                }
            },
            None => on,
        };
    }
}

/// Where a start stands after some steps.
pub open spec fn started(worked: Seq<bool>) -> StartStep
    decreases worked.len(),
{
    if worked.len() == 0 {
        StartStep::CheckSecret
    } else {
        next_start(started(worked.drop_last()), worked.last())
    }
}

/// Everything that must work before a start stands at its `n`-th step did.
pub open spec fn all_worked(worked: Seq<bool>, n: int) -> bool {
    forall|i: int|
        0 <= i < n && start_failure(#[trigger] stage(i)) is Some ==> i < worked.len() && worked[i]
}

/// Whatever came of the steps: a start stands at the step after those that
/// all worked, or it has failed.
pub proof fn lemma_started(worked: Seq<bool>)
    ensures
        started(worked) matches StartStep::Finished(Err(_)) || ({
            let n = if worked.len() < START_STEPS {
                worked.len() as int
            } else {
                START_STEPS as int
            };
            started(worked) == stage(n) && all_worked(worked, n)
        }),
    decreases worked.len(),
{
    if worked.len() > 0 {
        let before = worked.drop_last();
        lemma_started(before);
        if !(started(worked) matches StartStep::Finished(Err(_))) {
            let n = if worked.len() < START_STEPS {
                worked.len() as int
            } else {
                START_STEPS as int
            };
            assert forall|i: int|
                0 <= i < n && start_failure(#[trigger] stage(i)) is Some implies i < worked.len()
                && worked[i] by {
                if i < before.len() {
                    assert(before[i] == worked[i]);
                }
            }
        }
    }
}

/// The listener is bound last: where a start succeeded, no shared secret was
/// present, leases and redemptions were recovered from private journals, and
/// expired state was swept.
pub proof fn law_recovery_precedes_serving(worked: Seq<bool>)
    requires
        started(worked) == StartStep::Finished(Ok(())),
    ensures
        worked.len() >= START_STEPS,
        all_worked(worked, START_STEPS as int),
{
    lemma_started(worked);
}

/// A start is decided after at most as many steps as there are.
pub proof fn law_start_ends(worked: Seq<bool>)
    requires
        worked.len() >= START_STEPS,
    ensures
        started(worked) is Finished,
{
    lemma_started(worked);
}

/// A start in which every step works serves; the steps come in this order.
pub proof fn law_starts_that_work_serve(a: bool, b: bool)
    ensures
        next_start(StartStep::CheckSecret, true) is OpenPool,
        next_start(StartStep::OpenPool, true) is CheckLeaseJournal,
        next_start(StartStep::CheckLeaseJournal, true) is OpenReplay,
        next_start(StartStep::OpenReplay, true) is CheckReplayJournal,
        next_start(StartStep::CheckReplayJournal, true) is BuildSessions,
        next_start(StartStep::BuildSessions, true) is BuildLimiter,
        next_start(StartStep::BuildLimiter, true) is StartSweeps,
        next_start(StartStep::StartSweeps, a) is SweepSessions,
        next_start(StartStep::SweepSessions, true) is SweepPool,
        next_start(StartStep::SweepPool, b) is SettleSessions,
        next_start(StartStep::SettleSessions, true) is BindListener,
        next_start(StartStep::BindListener, true) == StartStep::Finished(Ok(())),
        started(Seq::empty()) is CheckSecret,
        started(
            seq![true, true, true, true, true, true, true, a, true, b, true, true],
        ) == StartStep::Finished(Ok(())),
{
    let all = seq![true, true, true, true, true, true, true, a, true, b, true, true];
    lemma_started_step(all, 1);
    lemma_started_step(all, 2);
    lemma_started_step(all, 3);
    lemma_started_step(all, 4);
    lemma_started_step(all, 5);
    lemma_started_step(all, 6);
    lemma_started_step(all, 7);
    lemma_started_step(all, 8);
    lemma_started_step(all, 9);
    lemma_started_step(all, 10);
    lemma_started_step(all, 11);
    lemma_started_step(all, 12);
    assert(all.take(0) =~= Seq::empty());
    assert(all.take(12) =~= all);
}

/// One more step of a start.
proof fn lemma_started_step(worked: Seq<bool>, n: int)
    requires
        1 <= n <= worked.len(),
    ensures
        started(worked.take(n)) == next_start(started(worked.take(n - 1)), worked[n - 1]),
{
    assert(worked.take(n).drop_last() =~= worked.take(n - 1));
}

/// What a start says where a step fails. Neither starting the sweeps nor sweeping the
/// pool can fail it.
pub proof fn law_failed_starts_say_why()
    ensures
        next_start(StartStep::CheckSecret, false) == StartStep::Finished(
            Err(V2GatewayRuntimeError::SharedSecretPresent),
        ),
        next_start(StartStep::OpenPool, false) == StartStep::Finished(
            Err(V2GatewayRuntimeError::Unavailable),
        ),
        next_start(StartStep::CheckLeaseJournal, false) == StartStep::Finished(
            Err(V2GatewayRuntimeError::FilesystemRef),
        ),
        next_start(StartStep::OpenReplay, false) == StartStep::Finished(
            Err(V2GatewayRuntimeError::ReplayStore),
        ),
        next_start(StartStep::CheckReplayJournal, false) == StartStep::Finished(
            Err(V2GatewayRuntimeError::FilesystemRef),
        ),
        next_start(StartStep::BuildSessions, false) == StartStep::Finished(
            Err(V2GatewayRuntimeError::InvalidConfiguration),
        ),
        next_start(StartStep::BuildLimiter, false) == StartStep::Finished(
            Err(V2GatewayRuntimeError::InvalidConfiguration),
        ),
        next_start(StartStep::SweepSessions, false) == StartStep::Finished(
            Err(V2GatewayRuntimeError::Unavailable),
        ),
        next_start(StartStep::SettleSessions, false) == StartStep::Finished(
            Err(V2GatewayRuntimeError::Unavailable),
        ),
        next_start(StartStep::BindListener, false) == StartStep::Finished(
            Err(V2GatewayRuntimeError::Listener),
        ),
{
}

/// A decided start stays decided.
pub proof fn law_decided_starts_stay(result: Result<(), V2GatewayRuntimeError>, worked: bool)
    ensures
        next_start(StartStep::Finished(result), worked) == StartStep::Finished(result),
{
}

/// A redemption journal is opened for one to 65,536 tickets, and for a gateway's name
/// that has one to 253 bytes, all of them ASCII.
pub proof fn law_replay_capacity_is_bounded(
    file: &ReplayFile,
    gateway_name: &str,
    capacity: usize,
    now_unix_seconds: u64,
    result: Result<(ReplayCache, Vec<u8>), V2GatewayRuntimeError>,
)
    requires
        call_ensures(open_replay, (file, gateway_name, capacity, now_unix_seconds), result),
        result is Ok,
    ensures
        1 <= capacity <= 65_536,
        gateway_name@.len() >= 1,
        vstd::utf8::encode_utf8(gateway_name@).len() <= 253,
        vstd::utf8::is_ascii_chars(gateway_name@),
        result->Ok_0.0@.capacity == capacity,
        result->Ok_0.0@.gateway == Some(gateway_name@),
{
}

} // verus!
