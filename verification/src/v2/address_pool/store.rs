//! Durable stores for allocated leases.
use super::config::MAX_LEASES_HARD_CAP;
use super::lease::PersistedLease;
use crate::arith;
use crate::arith::count;
use crate::id_map;
use crate::id_map::IdMap;
use crate::ids::SessionId;
use vstd::prelude::*;

verus! {

/// Why a store refused.
#[derive(Debug, Clone, Copy, PartialEq, Eq, Structural)]
pub enum StoreError {
    Unavailable,
    Io,
    Corrupt,
}

/// Every lease is filed under its own session.
pub open spec fn filed(contents: Map<u128, PersistedLease>) -> bool {
    forall|k: u128| #[trigger]
        contents.contains_key(k) ==> contents[k].session_id == (SessionId { key: k })
}

/// A list holds every stored lease, each once.
pub open spec fn lists(leases: Seq<PersistedLease>, contents: Map<u128, PersistedLease>) -> bool {
    &&& forall|i: int|
        0 <= i < leases.len() ==> contents.contains_key((#[trigger] leases[i]).session_id.key)
            && contents[leases[i].session_id.key] == leases[i]
    &&& forall|i: int, j: int|
        0 <= i < j < leases.len() ==> (#[trigger] leases[i]).session_id != (
        #[trigger] leases[j]).session_id
    &&& forall|k: u128| #[trigger]
        contents.contains_key(k) ==> exists|i: int|
            0 <= i < leases.len() && (#[trigger] leases[i]).session_id.key == k
}

/// A list holds every stored lease and no session that nothing is stored for.
/// It may hold further records of a stored session.
pub open spec fn loads(leases: Seq<PersistedLease>, contents: Map<u128, PersistedLease>) -> bool {
    &&& forall|i: int|
        0 <= i < leases.len() ==> contents.contains_key((#[trigger] leases[i]).session_id.key)
    &&& forall|k: u128| #[trigger]
        contents.contains_key(k) ==> exists|i: int|
            0 <= i < leases.len() && #[trigger] leases[i] == contents[k]
}

/// A list is as long as what it lists.
pub proof fn lemma_lists_len(leases: Seq<PersistedLease>, contents: Map<u128, PersistedLease>)
    requires
        lists(leases, contents),
    ensures
        contents.dom().finite(),
        contents.len() == leases.len(),
{
    let keys = leases.map_values(|lease: PersistedLease| lease.session_id.key);
    assert forall|i: int, j: int| 0 <= i < j < keys.len() implies keys[i] != keys[j] by {
        assert(leases[i].session_id != leases[j].session_id);
    }
    keys.unique_seq_to_set();
    assert forall|k: u128| contents.dom().contains(k) == keys.to_set().contains(k) by {
        if contents.contains_key(k) {
            let i = choose|i: int|
                0 <= i < leases.len() && (#[trigger] leases[i]).session_id.key == k;
            assert(keys[i] == k);
        }
        if keys.contains(k) {
            let i = choose|i: int| 0 <= i < keys.len() && keys[i] == k;
            assert(contents.contains_key(leases[i].session_id.key));
        }
    }
    assert(contents.dom() =~= keys.to_set());
}

/// Leases by session.
pub type StoredLeases = Map<u128, PersistedLease>;

/// One call of a store and what it answered.
pub enum StoreAnswer {
    Loaded(Result<Seq<PersistedLease>, StoreError>),
    Persisted(PersistedLease, Result<(), StoreError>),
    Released(SessionId, Result<(), StoreError>),
}

/// Calls and their answers, oldest first.
pub type StoreAnswers = Seq<StoreAnswer>;

/// A load that was answered with `result`.
pub open spec fn loaded(result: Result<Vec<PersistedLease>, StoreError>) -> StoreAnswer {
    match result {
        Ok(leases) => StoreAnswer::Loaded(Ok(leases@)),
        Err(e) => StoreAnswer::Loaded(Err(e)),
    }
}

/// Durable store for allocated leases by session. An error leaves what is
/// stored as it was: it rejects the allocating call, and a failed release is
/// retried by the pool. A corrupt store may list a session more than once.
///
/// `contents`, `wf`, `files_once`, `answers` and `moves` are ghosts that nothing
/// ever calls: a store outside the verified library gives them any body.
pub trait LeaseStore {
    /// What is stored, by session.
    spec fn contents(&self) -> StoredLeases;

    /// What the store keeps of itself.
    spec fn wf(&self) -> bool;

    /// The store lists every session once.
    spec fn files_once(&self) -> bool;

    /// What the store was asked and what it answered, call by call.
    spec fn answers(&self) -> StoreAnswers;

    /// What else the store says of a call that it answered so: whether it may
    /// answer so, and what becomes of it.
    spec fn moves(&self, answer: StoreAnswer, after: &Self) -> bool;

    /// Loads all persisted leases for recovery.
    fn load(&mut self) -> (result: Result<Vec<PersistedLease>, StoreError>)
        requires
            old(self).wf(),
        ensures
            final(self).wf(),
            final(self).contents() == old(self).contents(),
            final(self).files_once() == old(self).files_once(),
            final(self).answers() == old(self).answers().push(loaded(result)),
            old(self).moves(loaded(result), &*final(self)),
            result matches Ok(leases) ==> loads(leases@, old(self).contents()),
            result matches Ok(leases) ==> old(self).files_once() ==> lists(
                leases@,
                old(self).contents(),
            ),
    ;

    /// Persists one lease with its state and expiry.
    fn persist(&mut self, lease: &PersistedLease) -> (result: Result<(), StoreError>)
        requires
            old(self).wf(),
        ensures
            final(self).wf(),
            final(self).files_once() == old(self).files_once(),
            final(self).answers() == old(self).answers().push(
                StoreAnswer::Persisted(*lease, result),
            ),
            old(self).moves(StoreAnswer::Persisted(*lease, result), &*final(self)),
            final(self).contents() == match result {
                Ok(_) => old(self).contents().insert(lease.session_id.key, *lease),
                Err(_) => old(self).contents(),
            },
    ;

    /// Removes the lease for a session.
    fn release(&mut self, session_id: &SessionId) -> (result: Result<(), StoreError>)
        requires
            old(self).wf(),
        ensures
            final(self).wf(),
            final(self).files_once() == old(self).files_once(),
            final(self).answers() == old(self).answers().push(
                StoreAnswer::Released(*session_id, result),
            ),
            old(self).moves(StoreAnswer::Released(*session_id, result), &*final(self)),
            final(self).contents() == match result {
                Ok(_) => old(self).contents().remove(session_id.key),
                Err(_) => old(self).contents(),
            },
    ;
}

/// What is stored after a call that was answered so.
pub open spec fn contents_after(contents: StoredLeases, answer: StoreAnswer) -> StoredLeases {
    match answer {
        StoreAnswer::Persisted(lease, Ok(_)) => contents.insert(lease.session_id.key, lease),
        StoreAnswer::Released(session_id, Ok(_)) => contents.remove(session_id.key),
        _ => contents,
    }
}

/// A store was called once and answered so.
pub open spec fn called<S: LeaseStore>(before: S, answer: StoreAnswer, after: S) -> bool {
    &&& before.wf()
    &&& after.wf()
    &&& before.moves(answer, &after)
    &&& after.answers() == before.answers().push(answer)
    &&& after.contents() == contents_after(before.contents(), answer)
    &&& after.files_once() == before.files_once()
    &&& answer matches StoreAnswer::Loaded(Ok(leases)) ==> loads(leases, before.contents()) && (
    before.files_once() ==> lists(leases, before.contents()))
}

/// A store was called a number of times and answered so.
pub open spec fn called_all<S: LeaseStore>(before: S, answers: StoreAnswers, after: S) -> bool
    decreases answers.len(),
{
    if answers.len() == 0 {
        after == before
    } else {
        exists|between: S|
            {
                &&& called_all(before, answers.drop_last(), between)
                &&& #[trigger] called(between, answers.last(), after)
            }
    }
}

/// A store after some calls logs just those behind what it logged before.
pub proof fn lemma_called_answers<S: LeaseStore>(before: S, answers: StoreAnswers, after: S)
    requires
        called_all(before, answers, after),
    ensures
        after.answers() == before.answers() + answers,
    decreases answers.len(),
{
    if answers.len() > 0 {
        let between = choose|between: S|
            {
                &&& called_all(before, answers.drop_last(), between)
                &&& #[trigger] called(between, answers.last(), after)
            };
        lemma_called_answers(before, answers.drop_last(), between);
        assert(answers =~= answers.drop_last().push(answers.last()));
    }
    assert(after.answers() =~= before.answers() + answers);
}

/// Calls behind calls are calls.
pub proof fn lemma_called_on<S: LeaseStore>(
    before: S,
    first: StoreAnswers,
    between: S,
    then: StoreAnswers,
    after: S,
)
    requires
        called_all(before, first, between),
        called_all(between, then, after),
    ensures
        called_all(before, first + then, after),
    decreases then.len(),
{
    if then.len() == 0 {
        assert(first + then =~= first);
    } else {
        let last = choose|last: S|
            {
                &&& called_all(between, then.drop_last(), last)
                &&& #[trigger] called(last, then.last(), after)
            };
        lemma_called_on(before, first, between, then.drop_last(), last);
        assert((first + then).drop_last() =~= first + then.drop_last());
        assert(called(last, (first + then).last(), after));
    }
}

/// In-memory store for tests and single-run deployments. Failures can be
/// injected and are deterministic.
pub struct InMemoryLeaseStore {
    entries: IdMap<PersistedLease>,
    fail_load: u64,
    fail_persist: u64,
    fail_release: u64,
    answered: Ghost<StoreAnswers>,
}

impl InMemoryLeaseStore {
    /// How many of the next loads, persists and releases will fail.
    pub closed spec fn failing(&self) -> (u64, u64, u64) {
        (self.fail_load, self.fail_persist, self.fail_release)
    }

    pub fn new() -> (store: Self)
        ensures
            store.wf(),
            store.contents() == Map::<u128, PersistedLease>::empty(),
            store.failing() == (0u64, 0u64, 0u64),
            store.answers() == Seq::<StoreAnswer>::empty(),
    {
        InMemoryLeaseStore {
            entries: IdMap::new(),
            fail_load: 0,
            fail_persist: 0,
            fail_release: 0,
            answered: Ghost(Seq::empty()),
        }
    }

    /// Fails the next `times` loads beyond those already set to fail.
    pub fn fail_next_loads(&mut self, times: u64)
        requires
            old(self).wf(),
        ensures
            final(self).wf(),
            final(self).contents() == old(self).contents(),
            final(self).answers() == old(self).answers(),
            final(self).failing() == (
                arith::counted(old(self).failing().0, times as int),
                old(self).failing().1,
                old(self).failing().2,
            ),
    {
        self.fail_load = count(self.fail_load, times);
    }

    /// Fails the next `times` persists beyond those already set to fail.
    pub fn fail_next_persists(&mut self, times: u64)
        requires
            old(self).wf(),
        ensures
            final(self).wf(),
            final(self).contents() == old(self).contents(),
            final(self).answers() == old(self).answers(),
            final(self).failing() == (
                old(self).failing().0,
                arith::counted(old(self).failing().1, times as int),
                old(self).failing().2,
            ),
    {
        self.fail_persist = count(self.fail_persist, times);
    }

    /// Fails the next `times` releases beyond those already set to fail.
    pub fn fail_next_releases(&mut self, times: u64)
        requires
            old(self).wf(),
        ensures
            final(self).wf(),
            final(self).contents() == old(self).contents(),
            final(self).answers() == old(self).answers(),
            final(self).failing() == (
                old(self).failing().0,
                old(self).failing().1,
                arith::counted(old(self).failing().2, times as int),
            ),
    {
        self.fail_release = count(self.fail_release, times);
    }
}

/// Takes one from a countdown: whether it was still running, and what is left.
fn take_flag(flag: u64) -> (taken: (bool, u64))
    ensures
        taken == if flag == 0 {
            (false, 0u64)
        } else {
            (true, (flag - 1) as u64)
        },
{
    if flag == 0 {
        (false, 0)
    } else {
        (true, flag - 1)
    }
}

/// Copies the values of a map in key order.
pub fn listed_leases(entries: &IdMap<PersistedLease>) -> (leases: Vec<PersistedLease>)
    requires
        entries.wf(),
        filed(entries@),
    ensures
        lists(leases@, entries@),
        loads(leases@, entries@),
        leases@.len() == entries@.len(),
        entries@.dom().finite(),
        forall|i: int, j: int|
            0 <= i < j < leases@.len() ==> (#[trigger] leases@[i]).session_id.key < (
            #[trigger] leases@[j]).session_id.key,
{
    let list = entries.entries();
    let total: usize = list.len();
    let mut leases: Vec<PersistedLease> = Vec::new();
    let mut i: usize = 0;
    while i < total
        invariant
            entries.wf(),
            filed(entries@),
            list@ == entries.listed(),
            i <= total == entries.listed().len(),
            leases@.len() == i,
            forall|j: int| 0 <= j < i ==> #[trigger] leases@[j] == entries.listed()[j].1,
        decreases total - i,
    {
        leases.push(list[i].1);
        i = i + 1;
    }
    proof {
        entries.lemma_finite();
        assert forall|j: int| 0 <= j < leases@.len() implies entries@.contains_key(
            (#[trigger] leases@[j]).session_id.key,
        ) && entries@[leases@[j].session_id.key] == leases@[j] && leases@[j].session_id.key
            == entries.listed()[j].0 by {
            id_map::lemma_entry(entries.listed(), j);
        }
        assert forall|k: u128| #[trigger] entries@.contains_key(k) implies exists|j: int|
            0 <= j < leases@.len() && (#[trigger] leases@[j]).session_id.key == k by {
            id_map::lemma_key_entry(entries.listed(), k);
            let j = id_map::key_index(entries.listed(), k);
            assert(leases@[j].session_id.key == k);
        }
        assert forall|k: u128| #[trigger] entries@.contains_key(k) implies exists|j: int|
            0 <= j < leases@.len() && #[trigger] leases@[j] == entries@[k] by {
            let j = choose|j: int|
                0 <= j < leases@.len() && (#[trigger] leases@[j]).session_id.key == k;
            assert(leases@[j] == entries@[k]);
        }
    }
    leases
}

impl LeaseStore for InMemoryLeaseStore {
    closed spec fn contents(&self) -> Map<u128, PersistedLease> {
        self.entries@
    }

    closed spec fn wf(&self) -> bool {
        self.entries.wf() && filed(self.entries@)
    }

    open spec fn files_once(&self) -> bool {
        true
    }

    closed spec fn answers(&self) -> StoreAnswers {
        self.answered@
    }

    /// A call fails exactly while its countdown runs, and takes one from it.
    open spec fn moves(&self, answer: StoreAnswer, after: &Self) -> bool {
        let (loads, persists, releases) = self.failing();
        match answer {
            StoreAnswer::Loaded(result) => {
                &&& result is Err == (loads != 0)
                &&& result matches Err(e) ==> e == StoreError::Unavailable
                &&& after.failing() == (take_spec(loads), persists, releases)
            },
            StoreAnswer::Persisted(_, result) => {
                &&& result is Err == (persists != 0)
                &&& result matches Err(e) ==> e == StoreError::Io
                &&& after.failing() == (loads, take_spec(persists), releases)
            },
            StoreAnswer::Released(_, result) => {
                &&& result is Err == (releases != 0)
                &&& result matches Err(e) ==> e == StoreError::Io
                &&& after.failing() == (loads, persists, take_spec(releases))
            },
        }
    }

    fn load(&mut self) -> (result: Result<Vec<PersistedLease>, StoreError>) {
        let (fail, left) = take_flag(self.fail_load);
        self.fail_load = left;
        let result = if fail {
            Err(StoreError::Unavailable)
        } else {
            Ok(listed_leases(&self.entries))
        };
        proof {
            self.answered@ = self.answered@.push(loaded(result));
        }
        result
    }

    fn persist(&mut self, lease: &PersistedLease) -> (result: Result<(), StoreError>) {
        let (fail, left) = take_flag(self.fail_persist);
        self.fail_persist = left;
        let result = if fail {
            Err(StoreError::Io)
        } else {
            self.entries.insert(lease.session_id.key, *lease);
            Ok(())
        };
        proof {
            self.answered@ = self.answered@.push(StoreAnswer::Persisted(*lease, result));
        }
        result
    }

    fn release(&mut self, session_id: &SessionId) -> (result: Result<(), StoreError>) {
        let (fail, left) = take_flag(self.fail_release);
        self.fail_release = left;
        let result = if fail {
            Err(StoreError::Io)
        } else {
            let _removed = self.entries.remove(session_id.key);
            Ok(())
        };
        proof {
            self.answered@ = self.answered@.push(StoreAnswer::Released(*session_id, result));
        }
        result
    }
}

/// What is left of a countdown after taking one.
pub open spec fn take_spec(flag: u64) -> u64 {
    if flag == 0 {
        0
    } else {
        (flag - 1) as u64
    }
}

/// An answer as the managed-mode adapter passes it on: a load beyond the hard
/// lease cap becomes `Corrupt`.
pub open spec fn capped(answer: StoreAnswer) -> StoreAnswer {
    match answer {
        StoreAnswer::Loaded(Ok(leases)) => if leases.len() > MAX_LEASES_HARD_CAP {
            StoreAnswer::Loaded(Err(StoreError::Corrupt))
        } else {
            answer
        },
        _ => answer,
    }
}

/// Managed-mode store adapter. Wraps an operator-provided store and enforces
/// the hard lease cap at the store boundary: a load beyond it fails closed
/// with `Corrupt`. Everything else passes through unchanged.
pub struct ManagedLeaseStore<S> {
    inner: S,
}

impl<S: LeaseStore> ManagedLeaseStore<S> {
    /// The wrapped store.
    pub closed spec fn wrapped(&self) -> S {
        self.inner
    }

    pub fn new(inner: S) -> (store: Self)
        ensures
            store.wrapped() == inner,
            store.wf() == inner.wf(),
            store.files_once() == inner.files_once(),
            store.contents() == inner.contents(),
            store.answers() == inner.answers().map_values(|answer: StoreAnswer| capped(answer)),
    {
        ManagedLeaseStore { inner }
    }

    pub fn inner(&self) -> (inner: &S)
        ensures
            *inner == self.wrapped(),
    {
        &self.inner
    }

    /// Hands the wrapped store back.
    pub fn into_inner(self) -> (inner: S)
        ensures
            inner == self.wrapped(),
    {
        self.inner
    }
}

impl<S: LeaseStore> LeaseStore for ManagedLeaseStore<S> {
    closed spec fn contents(&self) -> Map<u128, PersistedLease> {
        self.inner.contents()
    }

    closed spec fn wf(&self) -> bool {
        self.inner.wf()
    }

    closed spec fn files_once(&self) -> bool {
        self.inner.files_once()
    }

    closed spec fn answers(&self) -> StoreAnswers {
        self.inner.answers().map_values(|answer: StoreAnswer| capped(answer))
    }

    /// The wrapped store moved, and its answer was passed on.
    open spec fn moves(&self, answer: StoreAnswer, after: &Self) -> bool {
        exists|wrapped: StoreAnswer|
            {
                &&& #[trigger] called(self.wrapped(), wrapped, after.wrapped())
                &&& answer == capped(wrapped)
            }
    }

    /// The wrapped store is asked once. Its answer comes back, unless it
    /// exceeds the cap.
    fn load(&mut self) -> (result: Result<Vec<PersistedLease>, StoreError>)
        ensures
            ({
                let answers = final(self).wrapped().answers();
                &&& answers.len() == old(self).wrapped().answers().len() + 1
                &&& answers.drop_last() == old(self).wrapped().answers()
                &&& match answers.last() {
                    StoreAnswer::Loaded(Err(e)) => result matches Err(error) && error == e,
                    StoreAnswer::Loaded(Ok(listed)) => if listed.len() > MAX_LEASES_HARD_CAP {
                        result matches Err(error) && error == StoreError::Corrupt
                    } else {
                        result matches Ok(leases) && leases@ == listed
                    },
                    _ => false,
                }
            }),
    {
        let result = self.inner.load();
        proof {
            assert(self.inner.answers().drop_last() =~= old(self).inner.answers());
            assert(self.answers() =~= old(self).answers().push(capped(loaded(result))));
            assert(called(old(self).wrapped(), loaded(result), self.wrapped()));
        }
        let leases = match result {
            Ok(leases) => leases,
            Err(e) => {
                return Err(e);
            },
        };
        if leases.len() > MAX_LEASES_HARD_CAP {
            return Err(StoreError::Corrupt);
        }
        Ok(leases)
    }

    /// The wrapped store is asked to persist the lease, once, and its answer
    /// comes back.
    fn persist(&mut self, lease: &PersistedLease) -> (result: Result<(), StoreError>)
        ensures
            final(self).wrapped().answers() == old(self).wrapped().answers().push(
                StoreAnswer::Persisted(*lease, result),
            ),
    {
        let result = self.inner.persist(lease);
        assert(self.answers() =~= old(self).answers().push(
            StoreAnswer::Persisted(*lease, result),
        ));
        assert(called(
            old(self).wrapped(),
            StoreAnswer::Persisted(*lease, result),
            self.wrapped(),
        ));
        result
    }

    /// The wrapped store is asked to release the session, once, and its answer
    /// comes back.
    fn release(&mut self, session_id: &SessionId) -> (result: Result<(), StoreError>)
        ensures
            final(self).wrapped().answers() == old(self).wrapped().answers().push(
                StoreAnswer::Released(*session_id, result),
            ),
    {
        let result = self.inner.release(session_id);
        assert(self.answers() =~= old(self).answers().push(
            StoreAnswer::Released(*session_id, result),
        ));
        assert(called(
            old(self).wrapped(),
            StoreAnswer::Released(*session_id, result),
            self.wrapped(),
        ));
        result
    }
}

/// An in-memory store does what it is asked, except while a call of that kind is set to
/// fail, which each failure makes one shorter.
pub proof fn law_in_memory_stores_work(
    before: InMemoryLeaseStore,
    answer: StoreAnswer,
    after: InMemoryLeaseStore,
)
    requires
        called(before, answer, after),
    ensures
        ({
            let (loads, persists, releases) = before.failing();
            &&& answer matches StoreAnswer::Loaded(result) ==> {
                &&& result is Ok <==> loads == 0
                &&& result matches Err(e) ==> e == StoreError::Unavailable
                &&& after.failing() == (
                    if loads > 0 {
                        (loads - 1) as u64
                    } else {
                        0
                    },
                    persists,
                    releases,
                )
                &&& after.contents() == before.contents()
            }
            &&& answer matches StoreAnswer::Persisted(lease, result) ==> {
                &&& result is Ok <==> persists == 0
                &&& result matches Err(e) ==> e == StoreError::Io
                &&& after.failing() == (
                    loads,
                    if persists > 0 {
                        (persists - 1) as u64
                    } else {
                        0
                    },
                    releases,
                )
                &&& after.contents() == if persists == 0 {
                    before.contents().insert(lease.session_id.key, lease)
                } else {
                    before.contents()
                }
            }
            &&& answer matches StoreAnswer::Released(session_id, result) ==> {
                &&& result is Ok <==> releases == 0
                &&& result matches Err(e) ==> e == StoreError::Io
                &&& after.failing() == (
                    loads,
                    persists,
                    if releases > 0 {
                        (releases - 1) as u64
                    } else {
                        0
                    },
                )
                &&& after.contents() == if releases == 0 {
                    before.contents().remove(session_id.key)
                } else {
                    before.contents()
                }
            }
        }),
{
}

/// A managed store's load is passed on up to 65,536 leases, and is corrupt beyond; all
/// else is passed on as it is.
pub proof fn law_managed_loads_are_capped(answer: StoreAnswer)
    ensures
        answer matches StoreAnswer::Loaded(Ok(leases)) ==> capped(answer) == if leases.len()
            <= 65_536 {
            answer
        } else {
            StoreAnswer::Loaded(Err(StoreError::Corrupt))
        },
        !(answer matches StoreAnswer::Loaded(Ok(_))) ==> capped(answer) == answer,
{
}

/// What a list loads, and what it lists: every stored lease, and no session that nothing
/// is stored for; a list that lists has each once.
pub proof fn law_lists_are_what_is_stored(
    leases: Seq<PersistedLease>,
    contents: StoredLeases,
    k: u128,
    i: int,
    j: int,
)
    requires
        loads(leases, contents),
        0 <= i < j < leases.len(),
    ensures
        contents.contains_key(leases[i].session_id.key),
        contents.contains_key(k) ==> leases.contains(contents[k]),
        lists(leases, contents) ==> leases[i].session_id != leases[j].session_id
            && contents[leases[i].session_id.key] == leases[i],
{
    if contents.contains_key(k) {
        let n = choose|n: int| 0 <= n < leases.len() && #[trigger] leases[n] == contents[k];
        assert(leases.contains(leases[n]));
    }
}

/// A call changes what is stored exactly as it was answered: a lease that was persisted
/// is there, one that was released is not, and a call that failed changed nothing.
pub proof fn law_answers_tell_what_is_stored(contents: StoredLeases, answer: StoreAnswer)
    ensures
        answer matches StoreAnswer::Persisted(lease, Ok(_)) ==> contents_after(contents, answer)
            == contents.insert(lease.session_id.key, lease),
        answer matches StoreAnswer::Released(session_id, Ok(_)) ==> contents_after(contents, answer)
            == contents.remove(session_id.key),
        answer matches StoreAnswer::Persisted(_, Err(_)) ==> contents_after(contents, answer)
            == contents,
        answer matches StoreAnswer::Released(_, Err(_)) ==> contents_after(contents, answer)
            == contents,
        answer is Loaded ==> contents_after(contents, answer) == contents,
{
}

} // verus!
