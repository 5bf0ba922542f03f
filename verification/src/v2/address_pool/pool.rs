//! The pool together with its durable store.
use super::config::{AddressPoolConfig, AddressPoolError, PoolShape, MAX_LEASES_HARD_CAP};
use super::lease::{AssignedAddresses, LeaseState, PersistedLease};
use super::model;
use super::model::{
    CommitVerdict, ExpiredLease, Lease, PoolModel, ReleaseVerdict, RenewVerdict, ReserveVerdict,
    MAX_RETRY_BATCH,
};
use super::pool_state::{
    AddressPoolSnapshot, CommitStep, PoolState, ReleaseStep, ReserveStep,
};
use super::store;
use super::store::{InMemoryLeaseStore, LeaseStore, StoreAnswer, StoreAnswers, StoreError};
use crate::ids::{DeviceId, SessionId};
use crate::v2::persistence;
use crate::v2::persistence::PoolTime;
use vstd::prelude::*;

verus! {

/// Bounded, deterministic IPv4 plus IPv6 `/64` allocator.
///
/// A pool without a store is ephemeral. Each method here makes its store
/// call between the two halves of the state's operation; callers that must
/// not hold the pool across store I/O drive the halves themselves.
pub struct AddressPool<S = InMemoryLeaseStore> {
    state: PoolState,
    store: Option<S>,
}

/// Stored leases by session, where there is a store.
pub type Stored = Option<Map<u128, PersistedLease>>;

/// What is stored after a persist.
pub open spec fn stored_with(stored: Stored, lease: PersistedLease) -> Stored {
    match stored {
        Some(contents) => Some(contents.insert(lease.session_id.key, lease)),
        None => None,
    }
}

/// What is stored after a delete.
pub open spec fn stored_without(stored: Stored, session: u128) -> Stored {
    match stored {
        Some(contents) => Some(contents.remove(session)),
        None => None,
    }
}

/// What is stored after a number of deletes, some of which failed.
pub open spec fn stored_after(stored: Stored, sessions: Seq<u128>, deleted: Seq<bool>) -> Stored
    decreases sessions.len(),
{
    if sessions.len() == 0 {
        stored
    } else {
        let rest = stored_after(stored, sessions.drop_last(), deleted);
        if deleted[sessions.len() - 1] {
            stored_without(rest, sessions.last())
        } else {
            rest
        }
    }
}

/// What a pool's store was asked and answered, where there is a store.
pub type Asked = Option<StoreAnswers>;

/// The store was asked once, to persist this record, and `persisted` is its
/// answer. Without a store nothing was asked and everything is persisted.
pub open spec fn asked_to_persist(
    before: Asked,
    after: Asked,
    record: PersistedLease,
    persisted: bool,
) -> bool {
    match (before, after) {
        (Some(before), Some(after)) => {
            &&& after.len() == before.len() + 1
            &&& after.drop_last() == before
            &&& after.last() matches StoreAnswer::Persisted(lease, answer) && lease == record
                && persisted == answer is Ok
        },
        (None, None) => persisted,
        _ => false,
    }
}

/// The store was asked once, to release this session, and `deleted` is its
/// answer. Without a store nothing was asked and everything is deleted.
pub open spec fn asked_to_delete(
    before: Asked,
    after: Asked,
    session: u128,
    deleted: bool,
) -> bool {
    asked_to_delete_all(before, after, seq![session], seq![deleted])
}

/// The store was asked to release these sessions, each once and in order, and
/// `deleted` are its answers.
pub open spec fn asked_to_delete_all(
    before: Asked,
    after: Asked,
    sessions: Seq<u128>,
    deleted: Seq<bool>,
) -> bool {
    match (before, after) {
        (Some(before), Some(after)) => {
            &&& after.len() == before.len() + sessions.len()
            &&& after.take(before.len() as int) == before
            &&& forall|i: int|
                0 <= i < sessions.len() ==> released_as(
                    #[trigger] after[before.len() + i],
                    sessions[i],
                    deleted[i],
                )
        },
        (None, None) => answers(None, deleted),
        _ => false,
    }
}

/// Between the two, a pool's store was called as its log says, and nothing else
/// became of it: each call met the store's own contract, and without a call it
/// is the same.
pub open spec fn consulted<S: LeaseStore>(before: Option<S>, after: Option<S>) -> bool {
    match (before, after) {
        (Some(before), Some(after)) => {
            &&& before.answers().len() <= after.answers().len()
            &&& store::called_all(
                before,
                after.answers().skip(before.answers().len() as int),
                after,
            )
        },
        (None, None) => true,
        _ => false,
    }
}

/// A store that was left alone was consulted no further.
proof fn lemma_unconsulted<S: LeaseStore>(store: Option<S>)
    ensures
        consulted(store, store),
{
    if let Some(store) = store {
        assert(store.answers().skip(store.answers().len() as int) =~= Seq::empty());
    }
}

/// One call consults a store.
proof fn lemma_consulted_once<S: LeaseStore>(before: S, answer: StoreAnswer, after: S)
    requires
        store::called(before, answer, after),
    ensures
        consulted(Some(before), Some(after)),
{
    let calls = after.answers().skip(before.answers().len() as int);
    assert(calls =~= seq![answer]);
    assert(calls.drop_last() =~= Seq::empty());
    assert(store::called_all(before, calls.drop_last(), before));
    assert(store::called(before, calls.last(), after));
}

/// Consulting on after consulting is consulting.
proof fn lemma_consulted_on<S: LeaseStore>(
    before: Option<S>,
    between: Option<S>,
    after: Option<S>,
)
    requires
        consulted(before, between),
        consulted(between, after),
    ensures
        consulted(before, after),
{
    if let (Some(first), Some(second), Some(third)) = (before, between, after) {
        let start = second.answers().skip(first.answers().len() as int);
        let end = third.answers().skip(second.answers().len() as int);
        store::lemma_called_answers(first, start, second);
        store::lemma_called_answers(second, end, third);
        store::lemma_called_on(first, start, second, end, third);
        assert(third.answers().skip(first.answers().len() as int) =~= start + end);
    }
}

/// A call was a release of this session, and `deleted` is its answer.
pub open spec fn released_as(call: StoreAnswer, session: u128, deleted: bool) -> bool {
    call matches StoreAnswer::Released(id, answer) && id.key == session && deleted == answer is Ok
}

/// Without a store every delete succeeds.
pub open spec fn answers(stored: Stored, deleted: Seq<bool>) -> bool {
    stored is None ==> forall|i: int| 0 <= i < deleted.len() ==> #[trigger] deleted[i]
}

/// The record of a new reservation.
pub open spec fn reservation_record(
    shape: PoolShape,
    session: u128,
    device: DeviceId,
    pair: AssignedAddresses,
    now: PoolTime,
) -> PersistedLease {
    PersistedLease::of(
        session,
        device,
        pair,
        LeaseState::Reserved,
        persistence::saturated(now.wall_ms + shape.pending_ttl),
    )
}

/// The record of a lease that is committed or renewed.
pub open spec fn active_record(
    shape: PoolShape,
    session: u128,
    lease: Lease,
    now: PoolTime,
) -> PersistedLease {
    PersistedLease::of(
        session,
        lease.device_id,
        lease.addresses,
        LeaseState::Active,
        persistence::saturated(now.wall_ms + shape.lease_ttl),
    )
}

/// The sessions of a list of records.
pub open spec fn sessions_of(leases: Seq<PersistedLease>) -> Seq<u128> {
    leases.map_values(|lease: PersistedLease| lease.session_id.key)
}

/// The records whose delete failed, in order.
pub open spec fn undeleted(leases: Seq<PersistedLease>, deleted: Seq<bool>) -> Seq<PersistedLease>
    decreases leases.len(),
{
    if leases.len() == 0 {
        Seq::empty()
    } else {
        let rest = undeleted(leases.drop_last(), deleted);
        if deleted[leases.len() - 1] {
            rest
        } else {
            rest.push(leases.last())
        }
    }
}

/// What could not be deleted of what recovery discards fits the quarantine.
pub open spec fn recovery_fits(
    shape: PoolShape,
    ordered: Seq<PersistedLease>,
    deleted: Seq<bool>,
    now: PoolTime,
) -> bool {
    let rec = model::recovery(shape, ordered, now);
    rec.pool.discarded(shape, undeleted(rec.stale, deleted), now.monotonic_ms).0
}

/// The sessions of a list of expired leases.
pub open spec fn batch_sessions(batch: Seq<ExpiredLease>) -> Seq<u128> {
    batch.map_values(|one: ExpiredLease| one.session_id.key)
}

/// A list that recovery works through: what a store loads, in order of session
/// and device.
pub open spec fn streamed(
    files_once: bool,
    contents: Map<u128, PersistedLease>,
    ordered: Seq<PersistedLease>,
) -> bool {
    &&& ordered.len() <= MAX_LEASES_HARD_CAP
    &&& model::leases_sorted(ordered)
    &&& store::loads(ordered, contents)
    &&& files_once ==> model::leases_ascend(ordered) && store::lists(ordered, contents)
}

/// A list in order of session and device, with the records of one session and
/// device in the order in which they were loaded.
pub open spec fn arranged(loaded: Seq<PersistedLease>, ordered: Seq<PersistedLease>) -> bool {
    &&& model::leases_sorted(ordered)
    &&& ordered.to_multiset() == loaded.to_multiset()
    &&& forall|session: SessionId, device: DeviceId| #[trigger]
        model::owned_by(ordered, session, device) == model::owned_by(loaded, session, device)
}

/// Where a record goes among sorted ones: behind all that do not sort after it.
fn sorted_position(ordered: &Vec<PersistedLease>, lease: &PersistedLease) -> (at: usize)
    requires
        model::leases_sorted(ordered@),
    ensures
        at <= ordered@.len(),
        forall|i: int| 0 <= i < at ==> !model::sorts_before(*lease, #[trigger] ordered@[i]),
        forall|i: int|
            at <= i < ordered@.len() ==> model::sorts_before(*lease, #[trigger] ordered@[i]),
{
    let mut low: usize = 0;
    let mut high: usize = ordered.len();
    while low < high
        invariant
            low <= high <= ordered@.len(),
            model::leases_sorted(ordered@),
            forall|i: int| 0 <= i < low ==> !model::sorts_before(*lease, #[trigger] ordered@[i]),
            forall|i: int|
                high <= i < ordered@.len() ==> model::sorts_before(*lease, #[trigger] ordered@[i]),
        decreases high - low,
    {
        let mid: usize = low + (high - low) / 2;
        let other = &ordered[mid];
        let earlier: bool = lease.session_id.key < other.session_id.key || (lease.session_id.key
            == other.session_id.key && lease.device_id.key < other.device_id.key);
        assert(earlier == model::sorts_before(*lease, ordered@[mid as int]));
        if earlier {
            assert forall|i: int| mid <= i < ordered@.len() implies model::sorts_before(
                *lease,
                #[trigger] ordered@[i],
            ) by {
                assert(i == mid || !model::sorts_before(ordered@[i], ordered@[mid as int]));
            }
            high = mid;
        } else {
            assert forall|i: int| 0 <= i <= mid implies !model::sorts_before(
                *lease,
                #[trigger] ordered@[i],
            ) by {
                assert(i == mid || !model::sorts_before(ordered@[mid as int], ordered@[i]));
            }
            low = mid + 1;
        }
    }
    low
}

/// Inserting a record behind all that do not sort after it keeps the others in
/// order, and puts it last among the records of its session and device.
proof fn lemma_inserts(s: Seq<PersistedLease>, at: int, lease: PersistedLease)
    requires
        model::leases_sorted(s),
        0 <= at <= s.len(),
        forall|i: int| 0 <= i < at ==> !model::sorts_before(lease, #[trigger] s[i]),
        forall|i: int| at <= i < s.len() ==> model::sorts_before(lease, #[trigger] s[i]),
    ensures
        model::leases_sorted(s.insert(at, lease)),
        forall|session: SessionId, device: DeviceId| #[trigger]
            model::owned_by(s.insert(at, lease), session, device) == model::owned_by(
                s.push(lease),
                session,
                device,
            ),
{
    let t = s.insert(at, lease);
    assert forall|i: int, j: int| 0 <= i < j < t.len() implies !model::sorts_before(
        #[trigger] t[j],
        #[trigger] t[i],
    ) by {
        let from_i = if i < at { i } else { i - 1 };
        let from_j = if j < at { j } else { j - 1 };
        if i != at {
            assert(t[i] == s[from_i]);
        }
        if j != at {
            assert(t[j] == s[from_j]);
        }
    }
    assert forall|session: SessionId, device: DeviceId| #[trigger]
        model::owned_by(t, session, device) == model::owned_by(s.push(lease), session, device) by {
        let owned = |l: PersistedLease| l.session_id == session && l.device_id == device;
        let front = s.take(at);
        let back = s.skip(at);
        let one = seq![lease];
        assert(t =~= front + (one + back));
        assert(s.push(lease) =~= front + (back + one));
        Seq::filter_distributes_over_add(front, one + back, owned);
        Seq::filter_distributes_over_add(one, back, owned);
        Seq::filter_distributes_over_add(front, back + one, owned);
        Seq::filter_distributes_over_add(back, one, owned);
        if owned(lease) {
            assert forall|i: int| 0 <= i < back.len() implies !owned(#[trigger] back[i]) by {
                assert(back[i] == s[at + i]);
            }
            back.lemma_all_neg_filter_empty(owned);
            assert(back.filter(owned).len() == 0);
        } else {
            one.lemma_all_neg_filter_empty(owned);
            assert(one.filter(owned).len() == 0);
        }
        assert((one + back).filter(owned) =~= (back + one).filter(owned));
    }
}

/// Brings persisted records into order of session and device. Records of one
/// session and device keep their order.
pub fn sort_leases(leases: &Vec<PersistedLease>) -> (ordered: Vec<PersistedLease>)
    ensures
        arranged(leases@, ordered@),
{
    let mut ordered: Vec<PersistedLease> = Vec::new();
    let mut i: usize = 0;
    proof {
        assert(leases@.take(0) =~= Seq::empty());
    }
    while i < leases.len()
        invariant
            i <= leases@.len(),
            ordered@.len() == i,
            model::leases_sorted(ordered@),
            ordered@.to_multiset() == leases@.take(i as int).to_multiset(),
            forall|session: SessionId, device: DeviceId| #[trigger]
                model::owned_by(ordered@, session, device) == model::owned_by(
                    leases@.take(i as int),
                    session,
                    device,
                ),
        decreases leases@.len() - i,
    {
        let lease = leases[i];
        let at = sorted_position(&ordered, &lease);
        let ghost before = ordered@;
        ordered.insert(at, lease);
        proof {
            let done = leases@.take(i as int);
            assert(leases@.take(i + 1) =~= done.push(lease));
            lemma_inserts(before, at as int, lease);
            vstd::seq_lib::to_multiset_insert(before, at as int, lease);
            vstd::seq_lib::to_multiset_build(done, lease);
            assert forall|session: SessionId, device: DeviceId| #[trigger]
                model::owned_by(ordered@, session, device) == model::owned_by(
                    leases@.take(i + 1),
                    session,
                    device,
                ) by {
                let owned = |l: PersistedLease| l.session_id == session && l.device_id == device;
                assert(model::owned_by(before, session, device) == model::owned_by(
                    done,
                    session,
                    device,
                ));
                before.lemma_filter_push(lease, owned);
                done.lemma_filter_push(lease, owned);
            }
        }
        i = i + 1;
    }
    assert(leases@.take(i as int) =~= leases@);
    ordered
}

/// Sorting what a store loads gives a list that recovery can work through.
proof fn lemma_streams(
    leases: Seq<PersistedLease>,
    ordered: Seq<PersistedLease>,
    files_once: bool,
    contents: Map<u128, PersistedLease>,
)
    requires
        leases.len() <= MAX_LEASES_HARD_CAP,
        model::leases_sorted(ordered),
        ordered.to_multiset() == leases.to_multiset(),
        store::loads(leases, contents),
        files_once ==> store::lists(leases, contents),
    ensures
        streamed(files_once, contents, ordered),
{
    vstd::seq_lib::to_multiset_len(leases);
    vstd::seq_lib::to_multiset_len(ordered);
    assert forall|lease: PersistedLease| #[trigger] ordered.contains(lease) == leases.contains(
        lease,
    ) by {
        vstd::seq_lib::to_multiset_contains(ordered, lease);
        vstd::seq_lib::to_multiset_contains(leases, lease);
    }
    assert forall|i: int| 0 <= i < ordered.len() implies contents.contains_key(
        (#[trigger] ordered[i]).session_id.key,
    ) && (files_once ==> contents[ordered[i].session_id.key] == ordered[i]) by {
        assert(ordered.contains(ordered[i]));
        let j = leases.index_of(ordered[i]);
        assert(leases[j] == ordered[i]);
    }
    assert forall|k: u128| #[trigger] contents.contains_key(k) implies exists|i: int|
        0 <= i < ordered.len() && #[trigger] ordered[i] == contents[k] by {
        let j = choose|j: int| 0 <= j < leases.len() && #[trigger] leases[j] == contents[k];
        assert(leases.contains(leases[j]));
        assert(ordered.contains(contents[k]));
        let i = ordered.index_of(contents[k]);
        assert(ordered[i] == contents[k]);
    }
    if files_once {
        assert(leases.no_duplicates()) by {
            assert forall|i: int, j: int| 0 <= i < leases.len() && 0 <= j < leases.len() && i
                != j implies leases[i] != leases[j] by {
                if i < j {
                    assert(leases[i].session_id != leases[j].session_id);
                } else {
                    assert(leases[j].session_id != leases[i].session_id);
                }
            }
        }
        leases.lemma_multiset_has_no_duplicates();
        ordered.lemma_multiset_has_no_duplicates_conv();
        assert forall|i: int, j: int| 0 <= i < j < ordered.len() implies (
        #[trigger] ordered[i]).session_id.key < (#[trigger] ordered[j]).session_id.key by {
            assert(contents[ordered[i].session_id.key] == ordered[i]);
            assert(contents[ordered[j].session_id.key] == ordered[j]);
            assert(ordered[i] != ordered[j]);
            assert(!model::sorts_before(ordered[j], ordered[i]));
        }
        assert forall|k: u128| #[trigger] contents.contains_key(k) implies exists|i: int|
            0 <= i < ordered.len() && (#[trigger] ordered[i]).session_id.key == k by {
            let j = choose|j: int|
                0 <= j < leases.len() && (#[trigger] leases[j]).session_id.key == k;
            assert(contents[leases[j].session_id.key] == leases[j]);
            let i = choose|i: int| 0 <= i < ordered.len() && #[trigger] ordered[i] == contents[k];
            assert(ordered[i].session_id.key == k);
        }
    }
}

/// What is stored depends on the answers that were given so far only.
pub proof fn lemma_stored_prefix(stored: Stored, sessions: Seq<u128>, a: Seq<bool>, b: Seq<bool>)
    requires
        sessions.len() <= a.len(),
        sessions.len() <= b.len(),
        forall|i: int| 0 <= i < sessions.len() ==> a[i] == b[i],
    ensures
        stored_after(stored, sessions, a) == stored_after(stored, sessions, b),
    decreases sessions.len(),
{
    if sessions.len() > 0 {
        lemma_stored_prefix(stored, sessions.drop_last(), a, b);
    }
}

/// One more release is asked behind a number of them.
proof fn lemma_asked_again(
    before: Asked,
    between: Asked,
    after: Asked,
    sessions: Seq<u128>,
    deleted: Seq<bool>,
    session: u128,
    last: bool,
)
    requires
        sessions.len() == deleted.len(),
        asked_to_delete_all(before, between, sessions, deleted),
        asked_to_delete(between, after, session, last),
    ensures
        asked_to_delete_all(before, after, sessions.push(session), deleted.push(last)),
{
    match (before, between, after) {
        (Some(first), Some(second), Some(third)) => {
            let end = second.len() as int;
            assert(third.take(end) == second);
            assert(third.take(first.len() as int) =~= second.take(first.len() as int));
            assert(released_as(third[end + 0], seq![session][0], seq![last][0]));
            assert forall|i: int| 0 <= i < sessions.push(session).len() implies released_as(
                #[trigger] third[first.len() + i],
                sessions.push(session)[i],
                deleted.push(last)[i],
            ) by {
                if i < sessions.len() {
                    assert(third.take(end)[first.len() + i] == second[first.len() + i]);
                }
            }
        },
        _ => {
            assert(answers(None, seq![last]));
            assert(seq![last][0]);
        },
    }
}

/// First part of recovery: from what loading came to, the state with what
/// comes back, and the records whose store entries are to be deleted. A load
/// that failed, or that exceeds the hard cap, fails closed with `Store`.
pub fn begin_recovery(
    config: AddressPoolConfig,
    loaded: Result<Vec<PersistedLease>, StoreError>,
    now: PoolTime,
) -> (result: Result<(PoolState, Vec<PersistedLease>), AddressPoolError>)
    requires
        config.wf(),
    ensures
        match loaded {
            Ok(leases) if leases@.len() <= MAX_LEASES_HARD_CAP => result matches Ok(begun)
                && begun.0.wf() && begun.0.shape() == config@ && recovery_begun(
                config@,
                leases@,
                now,
                begun.0@,
                begun.1@,
            ),
            _ => result matches Err(e) && e == AddressPoolError::Store,
        },
{
    let leases = match loaded {
        Ok(leases) => leases,
        Err(_) => {
            return Err(AddressPoolError::Store);
        },
    };
    if leases.len() > MAX_LEASES_HARD_CAP {
        return Err(AddressPoolError::Store);
    }
    let ghost shape = config@;
    let ordered = sort_leases(&leases);
    let (state, stale) = PoolState::recover(config, &ordered, now);
    proof {
        assert(recovers_from(shape, leases@, ordered@, now, state@, stale@));
    }
    Ok((state, stale))
}

/// What comes back from a list in order, and what is discarded.
pub open spec fn recovers_from(
    shape: PoolShape,
    loaded: Seq<PersistedLease>,
    ordered: Seq<PersistedLease>,
    now: PoolTime,
    state: PoolModel,
    stale: Seq<PersistedLease>,
) -> bool {
    &&& arranged(loaded, ordered)
    &&& state == model::recovery(shape, ordered, now).pool
    &&& stale == model::recovery(shape, ordered, now).stale
    &&& state.parked == Map::<u128, Option<AssignedAddresses>>::empty()
}

/// How the first part of recovery ends.
pub open spec fn recovery_begun(
    shape: PoolShape,
    loaded: Seq<PersistedLease>,
    now: PoolTime,
    state: PoolModel,
    stale: Seq<PersistedLease>,
) -> bool {
    exists|ordered: Seq<PersistedLease>| #[trigger]
        recovers_from(shape, loaded, ordered, now, state, stale)
}

/// Second part of recovery, once the store has answered to the deletes of what
/// was discarded. What could not be deleted is quarantined; where that
/// overflows, recovery fails closed with `Store`.
pub fn end_recovery(
    state: PoolState,
    stale: &Vec<PersistedLease>,
    deleted: &Vec<bool>,
    now: PoolTime,
) -> (result: Result<PoolState, AddressPoolError>)
    requires
        state.wf(),
        state@.parked == Map::<u128, Option<AssignedAddresses>>::empty(),
        deleted@.len() == stale@.len(),
    ensures
        ({
            let (fits, next) = state@.discarded(
                state.shape(),
                undeleted(stale@, deleted@),
                now.monotonic_ms,
            );
            if fits {
                result matches Ok(ended) && ended.wf() && ended.shape() == state.shape()
                    && ended@ == next
            } else {
                result matches Err(e) && e == AddressPoolError::Store
            }
        }),
{
    let mut failed: Vec<PersistedLease> = Vec::new();
    let mut j: usize = 0;
    while j < stale.len()
        invariant
            j <= stale@.len() == deleted@.len(),
            failed@ == undeleted(stale@.take(j as int), deleted@),
        decreases stale@.len() - j,
    {
        if !deleted[j] {
            failed.push(stale[j]);
        }
        proof {
            let longer = stale@.take(j + 1);
            assert(longer.drop_last() =~= stale@.take(j as int));
            assert(longer.last() == stale@[j as int]);
        }
        j = j + 1;
    }
    assert(stale@.take(j as int) =~= stale@);
    let mut state = state;
    if !state.quarantine_discarded(&failed, now.monotonic_ms) {
        return Err(AddressPoolError::Store);
    }
    Ok(state)
}

impl<S: LeaseStore> AddressPool<S> {
    /// The state without the store.
    pub closed spec fn model(&self) -> PoolModel {
        self.state@
    }

    /// What the pool may lease.
    pub closed spec fn shape(&self) -> PoolShape {
        self.state.shape()
    }

    /// The store.
    pub closed spec fn store(&self) -> Option<S> {
        self.store
    }

    /// What the store holds.
    pub open spec fn stored(&self) -> Stored {
        match self.store() {
            Some(store) => Some(store.contents()),
            None => None,
        }
    }

    /// What the store was asked so far, and what it answered.
    pub open spec fn answered(&self) -> Asked {
        match self.store() {
            Some(store) => Some(store.answers()),
            None => None,
        }
    }

    pub closed spec fn wf(&self) -> bool {
        &&& self.state.wf()
        &&& self.store matches Some(store) ==> store.wf()
    }

    /// What every pool keeps.
    pub proof fn lemma_wf(&self)
        requires
            self.wf(),
        ensures
            self.shape().valid(),
            self.model().wf(self.shape()),
            self.store() matches Some(store) ==> store.wf(),
    {
        self.state.lemma_wf();
    }

    /// Ephemeral pool. A restart frees all leases.
    pub fn new(config: AddressPoolConfig) -> (result: Result<Self, AddressPoolError>)
        requires
            config.wf(),
        ensures
            result matches Ok(pool) && pool.wf() && pool.shape() == config@ && pool.model()
                == PoolModel::empty() && pool.store() is None,
    {
        Ok(AddressPool { state: PoolState::new(config), store: None })
    }

    /// Writes a record, where there is a store.
    fn persist(&mut self, lease: &PersistedLease) -> (persisted: bool)
        requires
            old(self).wf(),
        ensures
            final(self).wf(),
            final(self).shape() == old(self).shape(),
            final(self).model() == old(self).model(),
            old(self).stored() is None ==> persisted,
            asked_to_persist(old(self).answered(), final(self).answered(), *lease, persisted),
            consulted(old(self).store(), final(self).store()),
            final(self).stored() == if persisted {
                stored_with(old(self).stored(), *lease)
            } else {
                old(self).stored()
            },
    {
        match &mut self.store {
            Some(store) => {
                let ghost before = *store;
                let result = store.persist(lease);
                proof {
                    assert(store.answers().drop_last() =~= before.answers());
                    lemma_consulted_once(before, StoreAnswer::Persisted(*lease, result), *store);
                }
                result.is_ok()
            },
            None => true,
        }
    }

    /// Deletes a record, where there is a store.
    fn delete(&mut self, session_id: &SessionId) -> (deleted: bool)
        requires
            old(self).wf(),
        ensures
            final(self).wf(),
            final(self).shape() == old(self).shape(),
            final(self).model() == old(self).model(),
            old(self).stored() is None ==> deleted,
            asked_to_delete(
                old(self).answered(),
                final(self).answered(),
                session_id.key,
                deleted,
            ),
            consulted(old(self).store(), final(self).store()),
            final(self).stored() == if deleted {
                stored_without(old(self).stored(), session_id.key)
            } else {
                old(self).stored()
            },
    {
        match &mut self.store {
            Some(store) => {
                let ghost before = *store;
                let result = store.release(session_id);
                proof {
                    assert(store.answers().take(before.answers().len() as int)
                        =~= before.answers());
                    lemma_consulted_once(
                        before,
                        StoreAnswer::Released(*session_id, result),
                        *store,
                    );
                }
                result.is_ok()
            },
            None => true,
        }
    }

    /// Reserves (or idempotently returns) the lease for a session; both clock
    /// domains read the same.
    pub fn reserve(&mut self, session_id: SessionId, device_id: DeviceId, now_ms: u64) -> (result:
        Result<AssignedAddresses, AddressPoolError>)
        requires
            old(self).wf(),
        ensures
            final(self).wf(),
            final(self).shape() == old(self).shape(),
            Self::reserve_ends(
                *old(self),
                session_id.key,
                device_id,
                PoolTime { monotonic_ms: now_ms, wall_ms: now_ms },
                result,
                *final(self),
            ),
    {
        self.reserve_at_time(session_id, device_id, PoolTime::from_monotonic(now_ms))
    }

    /// How a reservation ends.
    pub open spec fn reserve_ends(
        before: Self,
        session: u128,
        device: DeviceId,
        now: PoolTime,
        result: Result<AssignedAddresses, AddressPoolError>,
        after: Self,
    ) -> bool {
        let shape = before.shape();
        let (verdict, ready) = before.model().reserve_verdict(
            shape,
            session,
            device,
            now.monotonic_ms,
        );
        &&& consulted(before.store(), after.store())
        &&& match verdict {
            ReserveVerdict::Refuse(e) => {
                &&& result == Err::<AssignedAddresses, _>(e)
                &&& after.model() == ready
                &&& after.stored() == before.stored()
                &&& after.answered() == before.answered()
            },
            ReserveVerdict::Grant(pair) => {
                &&& result == Ok::<_, AddressPoolError>(pair)
                &&& after.model() == ready
                &&& after.stored() == before.stored()
                &&& after.answered() == before.answered()
            },
            ReserveVerdict::Allocate => match result {
                Ok(pair) => {
                    &&& ready.picks(shape, pair)
                    &&& after.model() == ready.reserved(
                        session,
                        Lease {
                            device_id: device,
                            addresses: pair,
                            expires_at_ms: persistence::saturated(
                                now.monotonic_ms + shape.pending_ttl,
                            ),
                        },
                    )
                    &&& after.stored() == stored_with(
                        before.stored(),
                        reservation_record(shape, session, device, pair, now),
                    )
                    &&& asked_to_persist(
                        before.answered(),
                        after.answered(),
                        reservation_record(shape, session, device, pair, now),
                        true,
                    )
                },
                Err(AddressPoolError::Exhausted) => {
                    &&& ready.spent(shape)
                    &&& after.model() == ready.exhausted()
                    &&& after.stored() == before.stored()
                    &&& after.answered() == before.answered()
                },
                Err(AddressPoolError::Store) => {
                    &&& before.stored() is Some
                    &&& exists|pair: AssignedAddresses|
                        {
                            &&& #[trigger] ready.picks(shape, pair)
                            &&& asked_to_persist(
                                before.answered(),
                                after.answered(),
                                reservation_record(shape, session, device, pair, now),
                                false,
                            )
                        }
                    &&& after.model() == ready.store_failed()
                    &&& after.stored() == before.stored()
                },
                Err(_) => false,
            },
        }
    }

    /// Reserves (or idempotently returns) the lease for a session. A new
    /// reservation is persisted before it is returned, so a store failure
    /// fails closed with no allocation. In-memory expiry is monotonic, durable
    /// expiry is wall.
    pub fn reserve_at_time(
        &mut self,
        session_id: SessionId,
        device_id: DeviceId,
        now: PoolTime,
    ) -> (result: Result<AssignedAddresses, AddressPoolError>)
        requires
            old(self).wf(),
        ensures
            final(self).wf(),
            final(self).shape() == old(self).shape(),
            Self::reserve_ends(*old(self), session_id.key, device_id, now, result, *final(self)),
    {
        let ghost before = *self;
        proof {
            lemma_unconsulted(before.store());
        }
        let plan = match self.state.begin_reserve(session_id, device_id, now) {
            Ok(ReserveStep::Granted(addresses)) => {
                return Ok(addresses);
            },
            Ok(ReserveStep::Persist(plan)) => plan,
            Err(e) => {
                return Err(e);
            },
        };
        let ghost ready = before.model().reserve_verdict(
            before.shape(),
            session_id.key,
            device_id,
            now.monotonic_ms,
        ).1;
        let record = plan.record();
        let persisted = self.persist(&record);
        proof {
            assert(!ready.parked.contains_key(session_id.key));
            assert(ready.park(session_id.key, plan.lease.addresses).unpark(session_id.key)
                =~= ready);
        }
        self.state.finish_reserve(plan, persisted)
    }

    /// How a commit ends.
    pub open spec fn commit_ends(
        before: Self,
        session: u128,
        now: PoolTime,
        result: Result<AssignedAddresses, AddressPoolError>,
        after: Self,
    ) -> bool {
        let shape = before.shape();
        let (verdict, taken) = before.model().commit_verdict(session, now.monotonic_ms);
        &&& consulted(before.store(), after.store())
        &&& match verdict {
            CommitVerdict::Refuse(e) => {
                &&& result == Err::<AssignedAddresses, _>(e)
                &&& after.model() == taken
                &&& after.stored() == before.stored()
                &&& after.answered() == before.answered()
            },
            CommitVerdict::Grant(pair) => {
                &&& result == Ok::<_, AddressPoolError>(pair)
                &&& after.model() == taken
                &&& after.stored() == before.stored()
                &&& after.answered() == before.answered()
            },
            CommitVerdict::Delete(lease) => exists|deleted: bool|
                {
                    &&& before.stored() is None ==> deleted
                    &&& result is Err
                    &&& (result->Err_0, after.model()) == #[trigger] taken.expired_reservation(
                        shape,
                        session,
                        lease,
                        deleted,
                        now.monotonic_ms,
                    )
                    &&& after.stored() == if deleted {
                        stored_without(before.stored(), session)
                    } else {
                        before.stored()
                    }
                    &&& asked_to_delete(before.answered(), after.answered(), session, deleted)
                },
            CommitVerdict::Persist(lease) => match result {
                Ok(pair) => {
                    &&& pair == lease.addresses
                    &&& after.model() == taken.unpark(session).with_active(
                        session,
                        Lease {
                            expires_at_ms: persistence::saturated(
                                now.monotonic_ms + shape.lease_ttl,
                            ),
                            ..lease
                        },
                    ).commit_counted()
                    &&& after.stored() == stored_with(
                        before.stored(),
                        active_record(shape, session, lease, now),
                    )
                    &&& asked_to_persist(
                        before.answered(),
                        after.answered(),
                        active_record(shape, session, lease, now),
                        true,
                    )
                },
                Err(e) => {
                    &&& e == AddressPoolError::Store
                    &&& before.stored() is Some
                    &&& after.model() == taken.unpark(session).with_pending(
                        session,
                        lease,
                    ).store_failed()
                    &&& after.stored() == before.stored()
                    &&& asked_to_persist(
                        before.answered(),
                        after.answered(),
                        active_record(shape, session, lease, now),
                        false,
                    )
                },
            },
        }
    }

    /// Commits a reservation; both clock domains read the same.
    pub fn commit(&mut self, session_id: SessionId, now_ms: u64) -> (result: Result<
        AssignedAddresses,
        AddressPoolError,
    >)
        requires
            old(self).wf(),
        ensures
            final(self).wf(),
            final(self).shape() == old(self).shape(),
            Self::commit_ends(
                *old(self),
                session_id.key,
                PoolTime { monotonic_ms: now_ms, wall_ms: now_ms },
                result,
                *final(self),
            ),
    {
        self.commit_at_time(session_id, PoolTime::from_monotonic(now_ms))
    }

    /// Commits a reservation to active. Idempotent when the session is already
    /// active or quarantined. A failed persist restores the reservation; an
    /// expired reservation is durably released and reports `Expired`.
    pub fn commit_at_time(&mut self, session_id: SessionId, now: PoolTime) -> (result: Result<
        AssignedAddresses,
        AddressPoolError,
    >)
        requires
            old(self).wf(),
        ensures
            final(self).wf(),
            final(self).shape() == old(self).shape(),
            Self::commit_ends(*old(self), session_id.key, now, result, *final(self)),
    {
        proof {
            lemma_unconsulted(self.store());
        }
        match self.state.begin_commit(session_id, now) {
            Ok(CommitStep::Granted(addresses)) => Ok(addresses),
            Ok(CommitStep::Delete(plan)) => {
                let deleted = self.delete(&session_id);
                let e = self.state.finish_expired(plan, deleted, now.monotonic_ms);
                Err(e)
            },
            Ok(CommitStep::Persist(plan)) => {
                let record = plan.record();
                let persisted = self.persist(&record);
                self.state.finish_commit(plan, persisted)
            },
            Err(e) => Err(e),
        }
    }

    /// How a release ends.
    pub open spec fn release_ends(
        before: Self,
        session: u128,
        now_ms: u64,
        result: Result<bool, AddressPoolError>,
        after: Self,
    ) -> bool {
        let shape = before.shape();
        let (verdict, taken) = before.model().release_verdict(session);
        &&& consulted(before.store(), after.store())
        &&& match verdict {
            ReleaseVerdict::Refuse(e) => {
                &&& result == Err::<bool, _>(e)
                &&& after.model() == taken
                &&& after.stored() == before.stored()
                &&& after.answered() == before.answered()
            },
            ReleaseVerdict::Absent => {
                &&& result == Ok::<_, AddressPoolError>(false)
                &&& after.model() == taken
                &&& after.stored() == before.stored()
                &&& after.answered() == before.answered()
            },
            ReleaseVerdict::Delete { lease, was_pending } => exists|deleted: bool|
                {
                    &&& before.stored() is None ==> deleted
                    &&& (result, after.model()) == #[trigger] taken.released(
                        shape,
                        session,
                        lease,
                        was_pending,
                        deleted,
                        now_ms,
                    )
                    &&& after.stored() == if deleted {
                        stored_without(before.stored(), session)
                    } else {
                        before.stored()
                    }
                    &&& asked_to_delete(before.answered(), after.answered(), session, deleted)
                },
        }
    }

    /// Releases a lease; a failed durable delete is due for retry at once.
    pub fn release(&mut self, session_id: SessionId) -> (result: Result<bool, AddressPoolError>)
        requires
            old(self).wf(),
        ensures
            final(self).wf(),
            final(self).shape() == old(self).shape(),
            Self::release_ends(*old(self), session_id.key, 0, result, *final(self)),
    {
        self.release_at(session_id, 0)
    }

    /// Releases a reserved or active lease. When the store deletes it, its
    /// addresses are free; when the delete fails the lease is quarantined, and
    /// when the quarantine is full the call fails closed with `Store`. Returns
    /// whether the session held a lease.
    pub fn release_at(&mut self, session_id: SessionId, now_ms: u64) -> (result: Result<
        bool,
        AddressPoolError,
    >)
        requires
            old(self).wf(),
        ensures
            final(self).wf(),
            final(self).shape() == old(self).shape(),
            Self::release_ends(*old(self), session_id.key, now_ms, result, *final(self)),
    {
        proof {
            self.lemma_wf();
            assert(self.model().placed_once(session_id.key));
            lemma_unconsulted(self.store());
        }
        match self.state.begin_release(session_id) {
            Ok(ReleaseStep::Absent) => Ok(false),
            Ok(ReleaseStep::Delete(plan)) => {
                let deleted = self.delete(&session_id);
                self.state.finish_release(plan, deleted, now_ms)
            },
            Err(e) => Err(e),
        }
    }

    /// Moves a lease straight to quarantine without store I/O, for session
    /// cleanup.
    pub fn release_deferred(&mut self, session_id: SessionId) -> (moved: bool)
        requires
            old(self).wf(),
        ensures
            final(self).wf(),
            final(self).shape() == old(self).shape(),
            (moved, final(self).model()) == old(self).model().deferred(
                old(self).shape(),
                session_id.key,
            ),
            final(self).store() == old(self).store(),
    {
        self.state.release_deferred(session_id)
    }

    /// The committed or pending addresses for a session, if any.
    pub fn lookup(&self, session_id: SessionId) -> (found: Option<AssignedAddresses>)
        requires
            self.wf(),
        ensures
            found == if self.model().active.contains_key(session_id.key) {
                Some(self.model().active[session_id.key].addresses)
            } else if self.model().pending.contains_key(session_id.key) {
                Some(self.model().pending[session_id.key].addresses)
            } else {
                None
            },
    {
        self.state.lookup(session_id)
    }

    /// The committed lease for a session, if any: the only kind that
    /// authorizes payload.
    pub fn lookup_active(&self, session_id: SessionId) -> (found: Option<AssignedAddresses>)
        requires
            self.wf(),
        ensures
            found == if self.model().active.contains_key(session_id.key) {
                Some(self.model().active[session_id.key].addresses)
            } else {
                None
            },
    {
        self.state.lookup_active(session_id)
    }

    /// How a renewal ends.
    pub open spec fn renew_ends(
        before: Self,
        session: u128,
        now: PoolTime,
        result: Result<(), AddressPoolError>,
        after: Self,
    ) -> bool {
        let shape = before.shape();
        let (verdict, parked) = before.model().renew_verdict(session, now.monotonic_ms);
        &&& consulted(before.store(), after.store())
        &&& match verdict {
            RenewVerdict::Refuse(e) => {
                &&& result == Err::<(), _>(e)
                &&& after.model() == parked
                &&& after.stored() == before.stored()
                &&& after.answered() == before.answered()
            },
            RenewVerdict::Persist(lease) => match result {
                Ok(_) => {
                    &&& after.model() == before.model().with_active(
                        session,
                        Lease {
                            expires_at_ms: persistence::saturated(
                                now.monotonic_ms + shape.lease_ttl,
                            ),
                            ..lease
                        },
                    ).renewal_counted()
                    &&& after.stored() == stored_with(
                        before.stored(),
                        active_record(shape, session, lease, now),
                    )
                    &&& asked_to_persist(
                        before.answered(),
                        after.answered(),
                        active_record(shape, session, lease, now),
                        true,
                    )
                },
                Err(e) => {
                    &&& e == AddressPoolError::Store
                    &&& before.stored() is Some
                    &&& after.model() == before.model().store_failed()
                    &&& after.stored() == before.stored()
                    &&& asked_to_persist(
                        before.answered(),
                        after.answered(),
                        active_record(shape, session, lease, now),
                        false,
                    )
                },
            },
        }
    }

    /// Extends an active lease; both clock domains read the same.
    pub fn renew(&mut self, session_id: SessionId, now_ms: u64) -> (result: Result<
        (),
        AddressPoolError,
    >)
        requires
            old(self).wf(),
        ensures
            final(self).wf(),
            final(self).shape() == old(self).shape(),
            Self::renew_ends(
                *old(self),
                session_id.key,
                PoolTime { monotonic_ms: now_ms, wall_ms: now_ms },
                result,
                *final(self),
            ),
    {
        self.renew_at_time(session_id, PoolTime::from_monotonic(now_ms))
    }

    /// Extends an active lease to `now + lease_ttl` and persists it. Fails
    /// with `UnknownLease` (never committed, or quarantined) or `Expired`. A
    /// failed persist keeps the old expiry and fails closed with `Store`.
    pub fn renew_at_time(&mut self, session_id: SessionId, now: PoolTime) -> (result: Result<
        (),
        AddressPoolError,
    >)
        requires
            old(self).wf(),
        ensures
            final(self).wf(),
            final(self).shape() == old(self).shape(),
            Self::renew_ends(*old(self), session_id.key, now, result, *final(self)),
    {
        let ghost before = *self;
        proof {
            lemma_unconsulted(before.store());
        }
        let plan = match self.state.begin_renew(session_id, now) {
            Ok(plan) => plan,
            Err(e) => {
                return Err(e);
            },
        };
        let record = plan.record();
        let persisted = self.persist(&record);
        proof {
            assert(self.model().unpark(session_id.key) =~= before.model());
            before.lemma_wf();
        }
        self.state.finish_renew(plan, persisted)
    }

    /// Deletes a number of records, where there is a store.
    fn delete_all(&mut self, sessions: &Vec<u128>) -> (deleted: Vec<bool>)
        requires
            old(self).wf(),
        ensures
            final(self).wf(),
            final(self).shape() == old(self).shape(),
            final(self).model() == old(self).model(),
            deleted@.len() == sessions@.len(),
            answers(old(self).stored(), deleted@),
            asked_to_delete_all(old(self).answered(), final(self).answered(), sessions@, deleted@),
            consulted(old(self).store(), final(self).store()),
            final(self).stored() == stored_after(old(self).stored(), sessions@, deleted@),
    {
        let ghost before = *self;
        let mut deleted: Vec<bool> = Vec::new();
        let mut i: usize = 0;
        proof {
            assert(sessions@.take(0) =~= Seq::empty());
            if let Some(asked) = before.answered() {
                assert(asked.take(asked.len() as int) =~= asked);
            }
            lemma_unconsulted(before.store());
        }
        while i < sessions.len()
            invariant
                i <= sessions@.len(),
                self.wf(),
                self.shape() == before.shape(),
                self.model() == before.model(),
                deleted@.len() == i,
                answers(before.stored(), deleted@),
                consulted(before.store(), self.store()),
                asked_to_delete_all(
                    before.answered(),
                    self.answered(),
                    sessions@.take(i as int),
                    deleted@,
                ),
                self.stored() == stored_after(before.stored(), sessions@.take(i as int), deleted@),
                before.stored() is None == self.stored() is None,
            decreases sessions@.len() - i,
        {
            let session_id = SessionId { key: sessions[i] };
            let ghost earlier = deleted@;
            let ghost asked = self.answered();
            let ghost between = self.store();
            let ok = self.delete(&session_id);
            deleted.push(ok);
            proof {
                lemma_consulted_on(before.store(), between, self.store());
                let longer = sessions@.take(i + 1);
                assert(longer.drop_last() =~= sessions@.take(i as int));
                assert(longer.last() == session_id.key);
                lemma_stored_prefix(
                    before.stored(),
                    sessions@.take(i as int),
                    earlier,
                    deleted@,
                );
                lemma_asked_again(
                    before.answered(),
                    asked,
                    self.answered(),
                    sessions@.take(i as int),
                    earlier,
                    session_id.key,
                    ok,
                );
                assert(longer =~= sessions@.take(i as int).push(session_id.key));
            }
            i = i + 1;
        }
        assert(sessions@.take(i as int) =~= sessions@);
        deleted
    }

    /// How a bounded retry ends: what is left, for the store's answers.
    pub open spec fn retry_ends(
        before: Self,
        now_ms: u64,
        max_batch: nat,
        left: usize,
        after: Self,
    ) -> bool {
        if before.store() is None {
            left == after.model().quarantine.len() && after == before
        } else {
            let batch = before.model().select(now_ms, max_batch, before.model().order).0;
            let taken = before.model().retry_taken(now_ms, max_batch);
            exists|deleted: Seq<bool>|
                {
                    &&& deleted.len() == batch.len()
                    &&& after.model() == #[trigger] taken.retried(batch, deleted, now_ms)
                    &&& left == after.model().quarantine.len()
                    &&& consulted(before.store(), after.store())
                    &&& after.stored() == stored_after(before.stored(), batch, deleted)
                    &&& asked_to_delete_all(before.answered(), after.answered(), batch, deleted)
                }
        }
    }

    /// Retries every failed durable delete.
    pub fn retry_pending_releases(&mut self) -> (left: usize)
        requires
            old(self).wf(),
        ensures
            final(self).wf(),
            final(self).shape() == old(self).shape(),
            Self::retry_ends(*old(self), u64::MAX, usize::MAX as nat, left, *final(self)),
    {
        self.retry_pending_releases_bounded(u64::MAX, usize::MAX)
    }

    /// Bounded retry with exponential backoff: attempts at most `max_batch`
    /// deletes of failed deletes that are due, first come first served.
    /// Returns how many failed deletes are left.
    pub fn retry_pending_releases_bounded(&mut self, now_ms: u64, max_batch: usize) -> (left: usize)
        requires
            old(self).wf(),
        ensures
            final(self).wf(),
            final(self).shape() == old(self).shape(),
            Self::retry_ends(*old(self), now_ms, max_batch as nat, left, *final(self)),
    {
        if self.store.is_none() {
            return self.state.pending_releases();
        }
        let ghost before = *self;
        let batch = self.state.begin_retry(now_ms, max_batch);
        let ghost taken = self.model();
        proof {
            before.lemma_wf();
            let m = before.model();
            m.lemma_select(now_ms, max_batch as nat, m.order);
            assert forall|i: int| 0 <= i < batch@.len() implies taken.quarantine.contains_key(
                #[trigger] batch@[i],
            ) && taken.with_store(batch@[i]) && !taken.order.contains(batch@[i]) by {
                assert(batch@.contains(batch@[i]));
                assert(m.order.contains(batch@[i]));
                let at = m.order.index_of(batch@[i]);
                assert(m.quarantine.contains_key(m.order[at]));
            }
        }
        let deleted = self.delete_all(&batch);
        self.state.finish_retry(&batch, &deleted, now_ms)
    }

    /// How a sweep ends: the sessions that ran out, for the store's answers.
    pub open spec fn sweep_ends(
        before: Self,
        now_ms: u64,
        ids: Seq<SessionId>,
        after: Self,
    ) -> bool {
        exists|batch: Seq<ExpiredLease>, deleted: Seq<bool>, between: Self, left: usize|
            {
                &&& #[trigger] before.model().lists_expired(now_ms, batch)
                &&& ids == batch.map_values(|one: ExpiredLease| one.session_id)
                &&& deleted.len() == batch.len()
                &&& answers(before.stored(), deleted)
                &&& between.wf()
                &&& between.shape() == before.shape()
                &&& consulted(before.store(), between.store())
                &&& between.model() == before.model().sweep_taken(now_ms).swept(
                    before.shape(),
                    batch,
                    deleted,
                    now_ms,
                )
                &&& between.stored() == #[trigger] stored_after(
                    before.stored(),
                    batch_sessions(batch),
                    deleted,
                )
                &&& asked_to_delete_all(
                    before.answered(),
                    between.answered(),
                    batch_sessions(batch),
                    deleted,
                )
                &&& #[trigger] Self::retry_ends(
                    between,
                    now_ms,
                    MAX_RETRY_BATCH as nat,
                    left,
                    after,
                )
            }
    }

    /// Expires leases past their TTL with a durable release (quarantining on
    /// store failure), then retries failed deletes with a bounded batch.
    /// Returns the expired sessions so that the caller can close them.
    pub fn sweep(&mut self, now_ms: u64) -> (ids: Vec<SessionId>)
        requires
            old(self).wf(),
        ensures
            final(self).wf(),
            final(self).shape() == old(self).shape(),
            Self::sweep_ends(*old(self), now_ms, ids@, *final(self)),
    {
        let ghost before = *self;
        let batch = self.state.begin_sweep(now_ms);
        let mut sessions: Vec<u128> = Vec::new();
        let mut i: usize = 0;
        while i < batch.len()
            invariant
                i <= batch@.len(),
                sessions@ == batch_sessions(batch@.take(i as int)),
            decreases batch@.len() - i,
        {
            sessions.push(batch[i].session_id.key);
            i = i + 1;
            assert(sessions@ =~= batch_sessions(batch@.take(i as int)));
        }
        proof {
            assert(batch@.take(i as int) =~= batch@);
            before.lemma_wf();
            before.model().lemma_batch_parked(now_ms, batch@);
        }
        let deleted = self.delete_all(&sessions);
        let ids = self.state.finish_sweep(&batch, &deleted, now_ms);
        let ghost between = *self;
        let _left = self.retry_pending_releases_bounded(now_ms, MAX_RETRY_BATCH);
        proof {
            assert(before.model().lists_expired(now_ms, batch@));
            assert(between.stored() == stored_after(
                before.stored(),
                batch_sessions(batch@),
                deleted@,
            ));
            assert(Self::retry_ends(between, now_ms, MAX_RETRY_BATCH as nat, _left, *self));
        }
        ids
    }

    /// How recovery from a loaded list ends, for the store's answers to the
    /// deletes of what is discarded. The store was asked to load once, and then
    /// to release each discarded record once.
    pub open spec fn recovers(
        shape: PoolShape,
        contents: Map<u128, PersistedLease>,
        asked: StoreAnswers,
        loaded: Seq<PersistedLease>,
        ordered: Seq<PersistedLease>,
        deleted: Seq<bool>,
        now: PoolTime,
        pool: Self,
    ) -> bool {
        let rec = model::recovery(shape, ordered, now);
        let (fits, next) = rec.pool.discarded(
            shape,
            undeleted(rec.stale, deleted),
            now.monotonic_ms,
        );
        &&& arranged(loaded, ordered)
        &&& deleted.len() == rec.stale.len()
        &&& asked_to_delete_all(
            Some(asked.push(StoreAnswer::Loaded(Ok(loaded)))),
            pool.answered(),
            sessions_of(rec.stale),
            deleted,
        )
        &&& fits
        &&& pool.model() == next
        &&& pool.stored() == stored_after(Some(contents), sessions_of(rec.stale), deleted)
    }

    /// What recovery asks a store that answered the load: to delete each
    /// discarded record, once.
    pub open spec fn recovery_asked(
        shape: PoolShape,
        listing: S,
        loaded: Seq<PersistedLease>,
        ordered: Seq<PersistedLease>,
        deleted: Seq<bool>,
        now: PoolTime,
        end: S,
    ) -> bool {
        let stale = model::recovery(shape, ordered, now).stale;
        &&& arranged(loaded, ordered)
        &&& streamed(listing.files_once(), listing.contents(), ordered)
        &&& deleted.len() == stale.len()
        &&& asked_to_delete_all(
            Some(listing.answers()),
            Some(end.answers()),
            sessions_of(stale),
            deleted,
        )
        &&& consulted(Some(listing), Some(end))
    }

    /// How opening a pool ends once its store has answered the load.
    pub open spec fn recovery_of(
        shape: PoolShape,
        store: S,
        answer: Result<Seq<PersistedLease>, StoreError>,
        listing: S,
        now: PoolTime,
        result: Result<Self, AddressPoolError>,
    ) -> bool {
        match answer {
            Ok(loaded) if loaded.len() <= MAX_LEASES_HARD_CAP => exists|
                ordered: Seq<PersistedLease>,
                deleted: Seq<bool>,
                end: S,
            |
                {
                    &&& #[trigger] Self::recovery_asked(
                        shape,
                        listing,
                        loaded,
                        ordered,
                        deleted,
                        now,
                        end,
                    )
                    &&& match result {
                        Ok(pool) => {
                            &&& pool.wf()
                            &&& pool.shape() == shape
                            &&& pool.store() == Some(end)
                            &&& Self::recovers(
                                shape,
                                store.contents(),
                                store.answers(),
                                loaded,
                                ordered,
                                deleted,
                                now,
                                pool,
                            )
                        },
                        Err(e) => e == AddressPoolError::Store && !recovery_fits(
                            shape,
                            ordered,
                            deleted,
                            now,
                        ),
                    }
                },
            _ => result matches Err(e) && e == AddressPoolError::Store,
        }
    }

    /// How opening a pool on a store ends, for the store's answers: it fails
    /// with `Store` exactly where the load failed or exceeds the hard cap, or
    /// where failed deletes of what is discarded overflow the quarantine.
    pub open spec fn recovery_ends(
        shape: PoolShape,
        store: S,
        now: PoolTime,
        result: Result<Self, AddressPoolError>,
    ) -> bool {
        exists|answer: Result<Seq<PersistedLease>, StoreError>, listing: S|
            {
                &&& #[trigger] store::called(store, StoreAnswer::Loaded(answer), listing)
                &&& Self::recovery_of(shape, store, answer, listing, now, result)
            }
    }

    /// Durable pool; both clock domains read the same.
    pub fn with_store(config: AddressPoolConfig, store: S, now_ms: u64) -> (result: Result<
        Self,
        AddressPoolError,
    >)
        requires
            config.wf(),
            store.wf(),
        ensures
            Self::recovery_ends(
                config@,
                store,
                PoolTime { monotonic_ms: now_ms, wall_ms: now_ms },
                result,
            ),
    {
        Self::with_store_at_time(config, store, PoolTime::from_monotonic(now_ms))
    }

    /// Durable pool: loads what is stored and restores it with its state and
    /// what is left of its wall expiry ([`begin_recovery`], [`end_recovery`]).
    /// Fails closed with `Store` when the load fails, when it exceeds the hard
    /// cap, or when failed deletes of discarded records overflow the
    /// quarantine.
    pub fn with_store_at_time(config: AddressPoolConfig, store: S, now: PoolTime) -> (result:
        Result<Self, AddressPoolError>)
        requires
            config.wf(),
            store.wf(),
        ensures
            Self::recovery_ends(config@, store, now, result),
    {
        let ghost shape = config@;
        let ghost given = store;
        let mut store = store;
        let loaded = store.load();
        let ghost listing = store;
        let ghost answer = store::loaded(loaded)->Loaded_0;
        assert(store::called(given, StoreAnswer::Loaded(answer), listing));
        let ghost leases = loaded->Ok_0@;
        let (state, stale) = match begin_recovery(config, loaded, now) {
            Ok(begun) => begun,
            Err(e) => {
                return Err(e);
            },
        };
        let ghost ordered = choose|ordered: Seq<PersistedLease>| #[trigger]
            recovers_from(shape, leases, ordered, now, state@, stale@);
        proof {
            assert(recovery_begun(shape, leases, now, state@, stale@));
            lemma_streams(leases, ordered, given.files_once(), given.contents());
        }
        let mut sessions: Vec<u128> = Vec::new();
        let mut i: usize = 0;
        while i < stale.len()
            invariant
                i <= stale@.len(),
                sessions@ == sessions_of(stale@.take(i as int)),
            decreases stale@.len() - i,
        {
            sessions.push(stale[i].session_id.key);
            i = i + 1;
            assert(sessions@ =~= sessions_of(stale@.take(i as int)));
        }
        assert(stale@.take(i as int) =~= stale@);
        let mut pool = AddressPool { state, store: Some(store) };
        let deleted = pool.delete_all(&sessions);
        assert(Self::recovery_asked(
            shape,
            listing,
            leases,
            ordered,
            deleted@,
            now,
            pool.store()->0,
        ));
        let AddressPool { state, store } = pool;
        let state = match end_recovery(state, &stale, &deleted, now) {
            Ok(state) => state,
            Err(e) => {
                return Err(e);
            },
        };
        let pool = AddressPool { state, store };
        proof {
            assert(Self::recovers(
                shape,
                given.contents(),
                given.answers(),
                leases,
                ordered,
                deleted@,
                now,
                pool,
            ));
        }
        Ok(pool)
    }

    /// Takes the pool apart, for callers that make the store calls themselves
    /// and must not hold the state across them.
    pub fn into_parts(self) -> (parts: (PoolState, Option<S>))
        requires
            self.wf(),
        ensures
            parts.0.wf(),
            parts.0@ == self.model(),
            parts.0.shape() == self.shape(),
            parts.1 == self.store(),
            parts.1 matches Some(store) ==> store.wf(),
    {
        (self.state, self.store)
    }

    /// Hands the store back, for a restart.
    pub fn into_store(self) -> (store: Option<S>)
        requires
            self.wf(),
        ensures
            store == self.store(),
            store matches Some(store) ==> store.wf(),
    {
        self.store
    }

    /// The state, for callers that make the store calls themselves.
    pub fn state_mut(&mut self) -> (state: &mut PoolState)
        requires
            old(self).wf(),
        ensures
            (*state)@ == old(self).model(),
            state.wf(),
            state.shape() == old(self).shape(),
            final(state).wf() ==> final(self).wf(),
            final(self).model() == final(state)@,
            final(self).shape() == final(state).shape(),
            final(self).store() == old(self).store(),
    {
        &mut self.state
    }

    /// The store, for callers that make the store calls themselves.
    pub fn store_mut(&mut self) -> (store: Option<&mut S>)
        requires
            old(self).wf(),
        ensures
            match store {
                Some(store) => {
                    &&& old(self).store() == Some(*store)
                    &&& final(self).store() == Some(*final(store))
                    &&& store.wf()
                    &&& final(store).wf() ==> final(self).wf()
                    &&& final(self).model() == old(self).model()
                    &&& final(self).shape() == old(self).shape()
                },
                None => old(self).store() is None && *final(self) == *old(self),
            },
    {
        match &mut self.store {
            Some(store) => Some(store),
            None => None,
        }
    }

    /// Failed deletes in session order, each with its original expiry and the
    /// number of attempts so far.
    pub fn quarantined(&self) -> (entries: Vec<(SessionId, u64, u64)>)
        requires
            self.wf(),
        ensures
            entries@.len() == self.model().quarantine.len(),
            forall|i: int, j: int|
                0 <= i < j < entries@.len() ==> (#[trigger] entries@[i]).0.key < (
                #[trigger] entries@[j]).0.key,
            forall|i: int|
                0 <= i < entries@.len() ==> {
                    let entry = #[trigger] entries@[i];
                    &&& self.model().quarantine.contains_key(entry.0.key)
                    &&& entry.1 == self.model().quarantine[entry.0.key].lease.expires_at_ms
                    &&& entry.2 == self.model().quarantine[entry.0.key].attempts
                },
    {
        self.state.quarantined()
    }

    /// Occupancy and counters.
    pub fn snapshot(&self) -> (snapshot: AddressPoolSnapshot)
        requires
            self.wf(),
        ensures
            snapshot == AddressPoolSnapshot::of(self.shape(), self.model()),
    {
        self.state.snapshot()
    }

    pub fn config(&self) -> (config: &AddressPoolConfig)
        ensures
            config@ == self.shape(),
    {
        self.state.config()
    }
}

} // verus!
