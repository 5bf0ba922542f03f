//! Persistence modes for gateway startup.
//!
//! Recovery is explicit and fail-closed in every durable mode: any load,
//! bound, or validation failure is `Store` and constructs no pool, so a
//! restart can never silently collide with a live lease.
use super::config::{AddressPoolConfig, AddressPoolError, PoolShape};
use super::lease::PersistedLease;
use super::model::{Lease, PoolModel, QuarantinedLease};
use super::pool;
use super::pool::AddressPool;
use super::store;
use super::store::{LeaseStore, ManagedLeaseStore, StoreAnswer, StoreAnswers, StoreError};
use crate::ids::SessionId;
use crate::v2::persistence::{PersistenceError, PoolTime};
use vstd::prelude::*;

verus! {

/// Where leases persist. `J` is the file journal, `M` the operator's store.
pub enum AddressPoolMode<J, M> {
    /// No durability. A restart frees all leases.
    Ephemeral,
    /// A file journal, as opening it turned out: a missing file is an empty
    /// journal, a corrupt one is an error.
    SelfHosted { journal: Result<J, StoreError> },
    /// An operator-provided store behind the [`ManagedLeaseStore`] adapter.
    Managed { store: M },
}

impl<J: LeaseStore, M: LeaseStore> AddressPoolMode<J, M> {
    /// The stores keep what they promise.
    pub open spec fn wf(self) -> bool {
        match self {
            AddressPoolMode::Ephemeral => true,
            AddressPoolMode::SelfHosted { journal } => journal matches Ok(journal) ==> journal.wf(),
            AddressPoolMode::Managed { store } => store.wf(),
        }
    }

    /// What a restart would load, where there is something to load from.
    pub open spec fn contents(self) -> Option<Map<u128, PersistedLease>> {
        match self {
            AddressPoolMode::Ephemeral => None,
            AddressPoolMode::SelfHosted { journal: Ok(journal) } => Some(journal.contents()),
            AddressPoolMode::SelfHosted { journal: Err(_) } => None,
            AddressPoolMode::Managed { store } => Some(store.contents()),
        }
    }

    /// What the store was asked so far, where there is one.
    pub open spec fn answers(self) -> StoreAnswers {
        match self {
            AddressPoolMode::SelfHosted { journal: Ok(journal) } => journal.answers(),
            AddressPoolMode::Managed { store } => store.answers().map_values(
                |answer: StoreAnswer| store::capped(answer),
            ),
            _ => Seq::empty(),
        }
    }

    /// What a restart would load lists every session once.
    pub open spec fn files_once(self) -> bool {
        match self {
            AddressPoolMode::Ephemeral => true,
            AddressPoolMode::SelfHosted { journal } => journal matches Ok(journal)
                ==> journal.files_once(),
            AddressPoolMode::Managed { store } => store.files_once(),
        }
    }
}

/// The store of an opened pool.
pub enum OpenedStore<J, M> {
    Journal(J),
    Managed(ManagedLeaseStore<M>),
}

impl<J: LeaseStore, M: LeaseStore> LeaseStore for OpenedStore<J, M> {
    open spec fn contents(&self) -> Map<u128, PersistedLease> {
        match self {
            OpenedStore::Journal(journal) => journal.contents(),
            OpenedStore::Managed(managed) => managed.contents(),
        }
    }

    open spec fn wf(&self) -> bool {
        match self {
            OpenedStore::Journal(journal) => journal.wf(),
            OpenedStore::Managed(managed) => managed.wf(),
        }
    }

    open spec fn files_once(&self) -> bool {
        match self {
            OpenedStore::Journal(journal) => journal.files_once(),
            OpenedStore::Managed(managed) => managed.files_once(),
        }
    }

    open spec fn answers(&self) -> StoreAnswers {
        match self {
            OpenedStore::Journal(journal) => journal.answers(),
            OpenedStore::Managed(managed) => managed.answers(),
        }
    }

    /// The store that was opened moved.
    open spec fn moves(&self, answer: StoreAnswer, after: &Self) -> bool {
        match (self, after) {
            (OpenedStore::Journal(journal), OpenedStore::Journal(next)) => journal.moves(
                answer,
                next,
            ),
            (OpenedStore::Managed(managed), OpenedStore::Managed(next)) => managed.moves(
                answer,
                next,
            ),
            _ => false,
        }
    }

    /// The store that was opened is asked, once, and its answer comes back.
    fn load(&mut self) -> (result: Result<Vec<PersistedLease>, StoreError>)
        ensures
            match (*old(self), *final(self)) {
                (OpenedStore::Journal(before), OpenedStore::Journal(after)) => after.answers()
                    == before.answers().push(store::loaded(result)),
                (OpenedStore::Managed(before), OpenedStore::Managed(after)) => after.answers()
                    == before.answers().push(store::loaded(result)),
                _ => false,
            },
    {
        match self {
            OpenedStore::Journal(journal) => journal.load(),
            OpenedStore::Managed(managed) => managed.load(),
        }
    }

    /// The store that was opened is asked, once, and its answer comes back.
    fn persist(&mut self, lease: &PersistedLease) -> (result: Result<(), StoreError>)
        ensures
            match (*old(self), *final(self)) {
                (OpenedStore::Journal(before), OpenedStore::Journal(after)) => after.answers()
                    == before.answers().push(StoreAnswer::Persisted(*lease, result)),
                (OpenedStore::Managed(before), OpenedStore::Managed(after)) => after.answers()
                    == before.answers().push(StoreAnswer::Persisted(*lease, result)),
                _ => false,
            },
    {
        match self {
            OpenedStore::Journal(journal) => journal.persist(lease),
            OpenedStore::Managed(managed) => managed.persist(lease),
        }
    }

    /// The store that was opened is asked, once, and its answer comes back.
    fn release(&mut self, session_id: &SessionId) -> (result: Result<(), StoreError>)
        ensures
            match (*old(self), *final(self)) {
                (OpenedStore::Journal(before), OpenedStore::Journal(after)) => after.answers()
                    == before.answers().push(StoreAnswer::Released(*session_id, result)),
                (OpenedStore::Managed(before), OpenedStore::Managed(after)) => after.answers()
                    == before.answers().push(StoreAnswer::Released(*session_id, result)),
                _ => false,
            },
    {
        match self {
            OpenedStore::Journal(journal) => journal.release(session_id),
            OpenedStore::Managed(managed) => managed.release(session_id),
        }
    }
}

/// How opening a pool in a mode ends.
pub open spec fn opening_ends<J: LeaseStore, M: LeaseStore>(
    shape: PoolShape,
    mode: AddressPoolMode<J, M>,
    now: PoolTime,
    result: Result<AddressPool<OpenedStore<J, M>>, AddressPoolError>,
) -> bool {
    match mode {
        AddressPoolMode::Ephemeral => result matches Ok(pool) && pool.wf() && pool.shape() == shape
            && pool.model() == PoolModel::empty() && pool.store() is None,
        AddressPoolMode::SelfHosted { journal: Err(_) } => result matches Err(e) && e
            == AddressPoolError::Store,
        AddressPoolMode::SelfHosted { journal: Ok(journal) } => AddressPool::<
            OpenedStore<J, M>,
        >::recovery_ends(shape, OpenedStore::Journal(journal), now, result),
        AddressPoolMode::Managed { store } => exists|managed: ManagedLeaseStore<M>|
            {
                &&& #[trigger] managed.wrapped() == store
                &&& AddressPool::<OpenedStore<J, M>>::recovery_ends(
                    shape,
                    OpenedStore::Managed(managed),
                    now,
                    result,
                )
            },
    }
}

impl<J: LeaseStore, M: LeaseStore> AddressPool<OpenedStore<J, M>> {
    /// Startup with one clock for both domains.
    pub fn open(config: AddressPoolConfig, mode: AddressPoolMode<J, M>, now_ms: u64) -> (result:
        Result<Self, AddressPoolError>)
        requires
            config.wf(),
            mode.wf(),
        ensures
            opening_ends(
                config@,
                mode,
                PoolTime { monotonic_ms: now_ms, wall_ms: now_ms },
                result,
            ),
    {
        Self::open_at_time(config, mode, PoolTime::from_monotonic(now_ms))
    }

    /// Startup: recovers whatever the mode has persisted.
    pub fn open_at_time(config: AddressPoolConfig, mode: AddressPoolMode<J, M>, now: PoolTime) -> (
        result: Result<Self, AddressPoolError>)
        requires
            config.wf(),
            mode.wf(),
        ensures
            opening_ends(config@, mode, now, result),
    {
        match mode {
            AddressPoolMode::Ephemeral => Self::new(config),
            AddressPoolMode::SelfHosted { journal } => match journal {
                Ok(journal) => Self::with_store_at_time(
                    config,
                    OpenedStore::Journal(journal),
                    now,
                ),
                Err(_) => Err(AddressPoolError::Store),
            },
            AddressPoolMode::Managed { store } => {
                let managed = ManagedLeaseStore::new(store);
                let ghost opened = managed;
                assert(opened.wrapped() == store);
                Self::with_store_at_time(config, OpenedStore::Managed(managed), now)
            },
        }
    }
}

/// What a pool operation run on the persistence queue comes to. Work that was
/// not run in time fails closed.
pub fn queued<T>(outcome: Result<Result<T, AddressPoolError>, PersistenceError>) -> (result: Result<
    T,
    AddressPoolError,
>)
    ensures
        result == match outcome {
            Ok(result) => result,
            Err(PersistenceError::Full | PersistenceError::Timeout) => Err(AddressPoolError::Store),
            Err(_) => Err(AddressPoolError::Unavailable),
        },
{
    match outcome {
        Ok(result) => result,
        Err(error) => match error {
            PersistenceError::Full | PersistenceError::Timeout => Err(AddressPoolError::Store),
            PersistenceError::Closed | PersistenceError::Unavailable => Err(
                AddressPoolError::Unavailable,
            ),
        },
    }
}

/// What a release run on the persistence queue comes to.
pub fn queued_release(
    outcome: Result<Result<bool, AddressPoolError>, PersistenceError>,
) -> (result: Result<bool, AddressPoolError>)
    ensures
        result == match outcome {
            Ok(result) => result,
            Err(_) => Err(AddressPoolError::Unavailable),
        },
{
    match outcome {
        Ok(result) => result,
        Err(_) => Err(AddressPoolError::Unavailable),
    }
}

/// What a sweep run on the persistence queue comes to: a sweep that was not
/// run in time expired nothing, and the next tick tries again.
pub fn queued_sweep(outcome: Result<Vec<SessionId>, PersistenceError>) -> (expired: Vec<SessionId>)
    ensures
        expired@ == match outcome {
            Ok(expired) => expired@,
            Err(_) => Seq::empty(),
        },
{
    match outcome {
        Ok(expired) => expired,
        Err(_) => Vec::new(),
    }
}

/// What a retry run on the persistence queue comes to.
pub fn queued_retry(outcome: Result<usize, PersistenceError>) -> (released: usize)
    ensures
        released == match outcome {
            Ok(released) => released,
            Err(_) => 0,
        },
{
    match outcome {
        Ok(released) => released,
        Err(_) => 0,
    }
}

/// Work that was run is answered as it was run. Work that the queue had no room or no
/// time for failed like the store itself; work that it no longer takes found nothing
/// to ask.
pub proof fn law_queued_work_fails_closed<T>(
    outcome: Result<Result<T, AddressPoolError>, PersistenceError>,
    result: Result<T, AddressPoolError>,
)
    requires
        call_ensures(queued::<T>, (outcome,), result),
    ensures
        outcome matches Ok(answer) ==> result == answer,
        outcome matches Err(e) ==> result == if e is Full || e is Timeout {
            Err::<T, _>(AddressPoolError::Store)
        } else {
            Err(AddressPoolError::Unavailable)
        },
{
}

/// A release that was not run found nothing to ask, whatever was in its way; a sweep
/// that was not run expired nothing, and a retry that was not run released nothing.
pub proof fn law_work_that_was_not_run_did_nothing(
    released: Result<Result<bool, AddressPoolError>, PersistenceError>,
    release: Result<bool, AddressPoolError>,
    swept: Result<Vec<SessionId>, PersistenceError>,
    expired: Vec<SessionId>,
    retried: Result<usize, PersistenceError>,
    left: usize,
)
    requires
        call_ensures(queued_release, (released,), release),
        call_ensures(queued_sweep, (swept,), expired),
        call_ensures(queued_retry, (retried,), left),
    ensures
        released matches Ok(answer) ==> release == answer,
        released is Err ==> release == Err::<bool, _>(AddressPoolError::Unavailable),
        swept matches Ok(ids) ==> expired@ == ids@,
        swept is Err ==> expired@.len() == 0,
        retried matches Ok(count) ==> left == count,
        retried is Err ==> left == 0,
{
}

/// A pool without durability opens empty, for whatever time it is. One whose journal
/// could not be opened does not open at all.
pub proof fn law_opening_needs_a_journal<J: LeaseStore, M: LeaseStore>(
    shape: PoolShape,
    mode: AddressPoolMode<J, M>,
    now: PoolTime,
    result: Result<AddressPool<OpenedStore<J, M>>, AddressPoolError>,
)
    requires
        opening_ends(shape, mode, now, result),
    ensures
        mode is Ephemeral ==> {
            &&& result is Ok
            &&& result->Ok_0.store() is None
            &&& result->Ok_0.shape() == shape
            &&& result->Ok_0.model().active == Map::<u128, Lease>::empty()
            &&& result->Ok_0.model().pending == Map::<u128, Lease>::empty()
            &&& result->Ok_0.model().quarantine == Map::<u128, QuarantinedLease>::empty()
        },
        mode matches AddressPoolMode::SelfHosted { journal: Err(_) } ==> result matches Err(e) && e
            == AddressPoolError::Store,
{
}

} // verus!
