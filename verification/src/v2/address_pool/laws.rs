//! What holds of the address pool as a whole.
use super::config::{AddressPoolError, PoolShape, IPV6_LEASE_PREFIX_LEN, MAX_LEASES_HARD_CAP};
use super::durability;
use super::lease::{AssignedAddresses, PersistedLease};
use super::model;
use super::model::{Lease, PoolModel, ReleaseVerdict, ReserveVerdict};
use super::pool;
use super::pool::AddressPool;
use super::store;
use super::store::{InMemoryLeaseStore, LeaseStore, StoreAnswer, StoreAnswers, StoreError};
use crate::encoding;
use crate::ids::{DeviceId, SessionId};
use crate::v2::persistence;
use crate::v2::persistence::PoolTime;
use vstd::arithmetic::power2;
use vstd::prelude::*;

verus! {

/// No two live sessions share an IPv4 host or an IPv6 `/64`.
pub proof fn law_live_addresses_are_unique(m: PoolModel, shape: PoolShape, j: u128, k: u128)
    requires
        m.wf(shape),
        m.live(j),
        m.live(k),
        j != k,
    ensures
        m.pair_of(j)->0.v4() != m.pair_of(k)->0.v4(),
        m.pair_of(j)->0.v6() != m.pair_of(k)->0.v6(),
{
}

/// A live session never holds the gateway, network, broadcast or a reserved
/// IPv4 address, nor the gateway's IPv6 subnet zero, and both its addresses
/// lie inside the configured networks.
pub proof fn law_live_addresses_are_leasable(m: PoolModel, shape: PoolShape, k: u128)
    requires
        shape.valid(),
        m.wf(shape),
        m.live(k),
    ensures
        ({
            let pair = m.pair_of(k)->0;
            &&& pair.v4() != shape.gateway
            &&& shape.network < pair.v4() < shape.broadcast()
            &&& !shape.reserved.contains(pair.v4())
            &&& pair.ipv4_prefix_len == shape.v4_len
            &&& pair.v6() != shape.v6_subnet(0)
            &&& exists|subnet: nat|
                1 <= subnet < shape.v6_subnets() && pair.v6() == #[trigger] shape.v6_subnet(subnet)
            &&& pair.ipv6_prefix_len == IPV6_LEASE_PREFIX_LEN
        }),
{
    let pair = m.pair_of(k)->0;
    shape.lemma_subnet_of(pair.v6());
    let subnet = shape.subnet_index(pair.v6());
    assert(pair.v6() == shape.v6_subnet(subnet));
}

/// The pool never leases more sessions than it may, and never quarantines
/// more failed deletes than it may.
pub proof fn law_bounds_hold(m: PoolModel, shape: PoolShape)
    requires
        m.wf(shape),
    ensures
        m.live_set().len() <= shape.max_leases,
        m.quarantine.len() <= shape.max_quarantine,
        m.metrics.release_retry_dropped == 0,
{
}

/// Allocation is deterministic: one state has at most one next pair.
pub proof fn law_allocation_is_deterministic(
    m: PoolModel,
    shape: PoolShape,
    a: AssignedAddresses,
    b: AssignedAddresses,
)
    requires
        m.picks(shape, a),
        m.picks(shape, b),
    ensures
        a == b,
{
    if a.v4() < b.v4() {
        assert(!m.free_v4(shape, a.v4()));
    }
    if b.v4() < a.v4() {
        assert(!m.free_v4(shape, b.v4()));
    }
    if a.v6() < b.v6() {
        assert(!m.free_v6(shape, a.v6()));
    }
    if b.v6() < a.v6() {
        assert(!m.free_v6(shape, b.v6()));
    }
    encoding::lemma_be_injective(a.ipv4@, b.ipv4@);
    encoding::lemma_be_injective(a.ipv6_prefix@, b.ipv6_prefix@);
    assert(a.ipv4 =~= b.ipv4);
    assert(a.ipv6_prefix =~= b.ipv6_prefix);
}

/// An address that any session holds - reserved, active, quarantined, or with
/// a store operation under way - is never allocated.
pub proof fn law_held_addresses_are_never_allocated(
    m: PoolModel,
    shape: PoolShape,
    k: u128,
    pair: AssignedAddresses,
)
    requires
        m.pair_of(k) is Some,
        m.picks(shape, pair),
    ensures
        pair.v4() != m.pair_of(k)->0.v4(),
        pair.v6() != m.pair_of(k)->0.v6(),
{
    assert(!m.blocks_v4(pair.v4()));
    assert(!m.blocks_v6(pair.v6()));
}

/// Resume: a session that holds a lease is granted the same addresses again
/// for the same device, and nothing changes.
pub proof fn law_reserve_is_idempotent<S: LeaseStore>(
    before: AddressPool<S>,
    session: u128,
    device: DeviceId,
    now: PoolTime,
    pair: AssignedAddresses,
    after: AddressPool<S>,
    later: PoolTime,
    again: Result<AssignedAddresses, AddressPoolError>,
    last: AddressPool<S>,
)
    requires
        before.wf(),
        AddressPool::<S>::reserve_ends(
            before,
            session,
            device,
            now,
            Ok::<_, AddressPoolError>(pair),
            after,
        ),
        AddressPool::<S>::reserve_ends(after, session, device, later, again, last),
        after.model().pending.contains_key(session) ==> later.monotonic_ms
            < after.model().pending[session].expires_at_ms,
    ensures
        again == Ok::<_, AddressPoolError>(pair),
        last.model() == after.model(),
        last.stored() == after.stored(),
{
    before.lemma_wf();
    assert(before.model().placed_once(session));
}

/// A commit promotes what was reserved, unchanged: the session is active with
/// the very addresses that its reservation was given. A session with both a
/// live lease and a failed delete is outside this: it is granted the one and
/// committed with the other.
pub proof fn law_commit_promotes_the_reservation<S: LeaseStore>(
    before: AddressPool<S>,
    session: u128,
    device: DeviceId,
    now: PoolTime,
    reserved: AssignedAddresses,
    after: AddressPool<S>,
    later: PoolTime,
    committed: AssignedAddresses,
    last: AddressPool<S>,
)
    requires
        before.wf(),
        before.model().apart_at(session),
        AddressPool::<S>::reserve_ends(
            before,
            session,
            device,
            now,
            Ok::<_, AddressPoolError>(reserved),
            after,
        ),
        AddressPool::<S>::commit_ends(
            after,
            session,
            later,
            Ok::<_, AddressPoolError>(committed),
            last,
        ),
    ensures
        committed == reserved,
        last.model().pair_of(session) == Some(reserved),
        last.model().active.contains_key(session) || last.model().quarantine.contains_key(session),
{
    before.lemma_wf();
    assert(before.model().placed_once(session));
}

/// A different device never gets a session's lease, as long as the session
/// does not have a failed delete beside its live lease.
pub proof fn law_other_devices_are_refused<S: LeaseStore>(
    before: AddressPool<S>,
    session: u128,
    lease: Lease,
    device: DeviceId,
    now: PoolTime,
    result: Result<AssignedAddresses, AddressPoolError>,
    after: AddressPool<S>,
)
    requires
        before.wf(),
        before.model().apart_at(session),
        session != 0,
        !before.model().parked.contains_key(session),
        ({
            ||| before.model().active.contains_key(session) && before.model().active[session]
                == lease
            ||| before.model().pending.contains_key(session) && before.model().pending[session]
                == lease
            ||| before.model().quarantine.contains_key(session)
                && before.model().quarantine[session].lease == lease
        }),
        lease.device_id != device,
        AddressPool::<S>::reserve_ends(before, session, device, now, result, after),
    ensures
        result == Err::<AssignedAddresses, _>(AddressPoolError::OwnerMismatch),
        after.model().pair_of(session) == before.model().pair_of(session),
        after.stored() == before.stored(),
{
    before.lemma_wf();
    assert(before.model().placed_once(session));
}

/// While a store operation for a session is under way, other requests for it
/// fail closed with `Store` and change no lease.
pub proof fn law_operations_under_way_are_exclusive(
    m: PoolModel,
    shape: PoolShape,
    session: u128,
    device: DeviceId,
    now_ms: u64,
)
    requires
        session != 0,
        device.key != 0,
        m.parked.contains_key(session),
    ensures
        m.reserve_verdict(shape, session, device, now_ms) == (
            ReserveVerdict::Refuse(AddressPoolError::Store),
            m.conflicted(),
        ),
        m.commit_verdict(session, now_ms) == (
            model::CommitVerdict::Refuse(AddressPoolError::Store),
            m.conflicted(),
        ),
        m.release_verdict(session) == (
            ReleaseVerdict::Refuse(AddressPoolError::Store),
            m.conflicted(),
        ),
        m.renew_verdict(session, now_ms) == (
            model::RenewVerdict::Refuse(AddressPoolError::Store),
            m.conflicted(),
        ),
        m.deferred(shape, session) == (false, m),
        !m.expired(now_ms, session),
{
}

/// A renewed lease is not expired by any sweep before its new deadline.
pub proof fn law_renewal_prevents_expiry<S: LeaseStore>(
    before: AddressPool<S>,
    session: u128,
    now: PoolTime,
    after: AddressPool<S>,
    later_ms: u64,
)
    requires
        before.wf(),
        AddressPool::<S>::renew_ends(before, session, now, Ok::<_, AddressPoolError>(()), after),
        later_ms < now.monotonic_ms + before.shape().lease_ttl,
        later_ms < u64::MAX,
    ensures
        after.model().active.contains_key(session),
        !after.model().expired(later_ms, session),
{
    before.lemma_wf();
    assert(before.model().placed_once(session));
}

/// A lease whose durable delete succeeded is gone: the session holds nothing,
/// and its addresses are free unless a failed delete of another session
/// names them too.
pub proof fn law_release_frees<S: LeaseStore>(
    before: AddressPool<S>,
    session: u128,
    lease: Lease,
    was_pending: bool,
    now_ms: u64,
)
    requires
        before.wf(),
        (before.model().release_verdict(session).0 == ReleaseVerdict::Delete { lease, was_pending }),
    ensures
        ({
            let taken = before.model().release_verdict(session).1;
            let (result, next) = taken.released(
                before.shape(),
                session,
                lease,
                was_pending,
                true,
                now_ms,
            );
            &&& result == Ok::<_, AddressPoolError>(true)
            &&& next.pair_of(session) is None
            &&& forall|k: u128| #[trigger]
                next.pair_of(k) is Some && next.pair_of(k)->0.v4() == lease.addresses.v4()
                    ==> next.quarantine.contains_key(k)
            &&& forall|k: u128| #[trigger]
                next.pair_of(k) is Some && next.pair_of(k)->0.v6() == lease.addresses.v6()
                    ==> next.quarantine.contains_key(k)
        }),
{
    before.lemma_wf();
    let m = before.model();
    assert(m.placed_once(session));
    let taken = m.release_verdict(session).1;
    let next = taken.released(
                before.shape(),
                session,
                lease,
                was_pending,
                true,
                now_ms,
            ).1;
    assert(m.live(session));
    assert(m.pair_of(session) == Some(lease.addresses));
    assert forall|k: u128| #[trigger] next.pair_of(k) is Some && !next.quarantine.contains_key(
        k,
    ) implies next.pair_of(k)->0.v4() != lease.addresses.v4() && next.pair_of(k)->0.v6()
        != lease.addresses.v6() by {
        assert(m.placed_once(k));
        assert(m.live(k));
        assert(m.pair_of(k) == next.pair_of(k));
    }
}

/// A failed durable delete never frees an address: the session keeps its
/// pair, in quarantine or, when that is full, as the lease it was. A
/// reservation that was never committed does not become active by it.
pub proof fn law_failed_release_keeps_addresses(
    m: PoolModel,
    shape: PoolShape,
    session: u128,
    lease: Lease,
    was_pending: bool,
    now_ms: u64,
)
    requires
        m.wf(shape),
        (m.release_verdict(session).0 == ReleaseVerdict::Delete { lease, was_pending }),
    ensures
        ({
            let taken = m.release_verdict(session).1;
            let next = taken.released(shape, session, lease, was_pending, false, now_ms).1;
            &&& next.pair_of(session) == Some(lease.addresses)
            &&& was_pending ==> !next.active.contains_key(session)
        }),
{
    assert(m.placed_once(session));
}

/// Backoff is at least a second, never shrinks with more attempts, and never
/// exceeds a minute.
pub proof fn law_backoff_is_bounded_and_monotone(a: u64, b: u64)
    requires
        a <= b,
    ensures
        1_000 <= model::retry_backoff(a) <= model::retry_backoff(b) <= 60_000,
{
    power2::lemma2_to64();
    if a < 6 {
        if 0 < a {
            power2::lemma_pow2_strictly_increases(0, a as nat);
        }
        if a < 5 {
            power2::lemma_pow2_strictly_increases(a as nat, 5);
        }
        if b < 6 {
            if a < b {
                power2::lemma_pow2_strictly_increases(a as nat, b as nat);
            }
            if b < 5 {
                power2::lemma_pow2_strictly_increases(b as nat, 5);
            }
        }
    }
}

/// A pool whose store's log grew by one call made that call, and the store met
/// its own contract; one whose log did not grow left its store alone.
pub proof fn law_logged_calls_are_the_calls<S: LeaseStore>(before: S, after: S)
    requires
        pool::consulted(Some(before), Some(after)),
    ensures
        after.answers().len() == before.answers().len() ==> after == before,
        after.answers().len() == before.answers().len() + 1 ==> store::called(
            before,
            after.answers().last(),
            after,
        ),
{
    let calls = after.answers().skip(before.answers().len() as int);
    if calls.len() == 1 {
        assert(calls.drop_last() =~= Seq::empty());
        let between = choose|between: S|
            {
                &&& store::called_all(before, calls.drop_last(), between)
                &&& #[trigger] store::called(between, calls.last(), after)
            };
        assert(store::called_all(before, calls.drop_last(), between));
    }
}

/// Retrying the only failed delete: where it is due the store is asked to
/// delete it, once, and its answer decides whether it is left with one more
/// attempt behind it; where it is not due nothing is asked and it stays as it
/// was.
pub proof fn law_retry_follows_the_store<S: LeaseStore>(
    before: AddressPool<S>,
    now_ms: u64,
    max_batch: nat,
    left: usize,
    after: AddressPool<S>,
    session: u128,
)
    requires
        before.store() is Some,
        before.model().order == seq![session],
        before.model().quarantine.dom() == set![session],
        max_batch >= 1,
        AddressPool::<S>::retry_ends(before, now_ms, max_batch, left, after),
    ensures
        after.store() is Some,
        if before.model().ready(now_ms, session) {
            exists|answer: Result<(), StoreError>|
                {
                    &&& #[trigger] store::called(
                        before.store()->0,
                        StoreAnswer::Released(SessionId { key: session }, answer),
                        after.store()->0,
                    )
                    &&& match answer {
                        Ok(_) => left == 0 && !after.model().quarantine.contains_key(session),
                        Err(_) => {
                            let attempts = persistence::saturated(
                                before.model().quarantine[session].attempts + 1,
                            );
                            &&& left == 1
                            &&& after.model().quarantine.contains_key(session)
                            &&& after.model().quarantine[session].attempts == attempts
                            &&& after.model().quarantine[session].next_retry_ms
                                == model::retry_deadline(now_ms, attempts)
                            &&& after.model().order == seq![session]
                        },
                    }
                }
        } else {
            &&& after.store() == before.store()
            &&& after.model().quarantine == before.model().quarantine
            &&& after.model().order == before.model().order
            &&& left == 1
        },
{
    let m = before.model();
    let (batch, rest) = m.select(now_ms, max_batch, m.order);
    let taken = m.retry_taken(now_ms, max_batch);
    reveal_with_fuel(PoolModel::select, 2);
    reveal_with_fuel(PoolModel::retried, 2);
    assert(m.order.drop_last() =~= Seq::empty());
    let deleted = choose|deleted: Seq<bool>|
        {
            &&& deleted.len() == batch.len()
            &&& after.model() == #[trigger] taken.retried(batch, deleted, now_ms)
            &&& left == after.model().quarantine.len()
            &&& pool::consulted(before.store(), after.store())
            &&& after.stored() == pool::stored_after(before.stored(), batch, deleted)
            &&& pool::asked_to_delete_all(before.answered(), after.answered(), batch, deleted)
        };
    law_logged_calls_are_the_calls(before.store()->0, after.store()->0);
    let asked = before.answered()->0;
    let log = after.answered()->0;
    if m.ready(now_ms, session) {
        assert(batch =~= seq![session]);
        assert(batch.drop_last() =~= Seq::empty());
        assert(pool::released_as(log[asked.len() + 0int], batch[0], deleted[0]));
        let answer = log.last()->Released_1;
        assert(log.last() == StoreAnswer::Released(SessionId { key: session }, answer));
        assert(store::called(
            before.store()->0,
            StoreAnswer::Released(SessionId { key: session }, answer),
            after.store()->0,
        ));
        if answer is Ok {
            assert(after.model().quarantine.dom() =~= Set::empty());
        } else {
            assert(after.model().quarantine.dom() =~= set![session]);
            assert(after.model().order =~= seq![session]);
        }
    } else {
        assert(batch =~= Seq::empty());
        assert(rest =~= m.order);
    }
}

/// While its releases are not set to fail, an in-memory store releases.
proof fn lemma_in_memory_releases(
    before: InMemoryLeaseStore,
    answers: StoreAnswers,
    after: InMemoryLeaseStore,
)
    requires
        store::called_all(before, answers, after),
        before.failing().2 == 0,
    ensures
        after.failing().2 == 0,
        forall|i: int|
            0 <= i < answers.len() ==> (#[trigger] answers[i] matches StoreAnswer::Released(
                _,
                result,
            ) ==> result is Ok),
    decreases answers.len(),
{
    if answers.len() > 0 {
        let between = choose|between: InMemoryLeaseStore|
            {
                &&& store::called_all(before, answers.drop_last(), between)
                &&& #[trigger] store::called(between, answers.last(), after)
            };
        lemma_in_memory_releases(before, answers.drop_last(), between);
        assert forall|i: int| 0 <= i < answers.len() implies (
        #[trigger] answers[i] matches StoreAnswer::Released(_, result) ==> result is Ok) by {
            if i < answers.len() - 1 {
                assert(answers.drop_last()[i] == answers[i]);
            }
        }
    }
}

/// A pool opens on an in-memory store that holds no more leases than the hard
/// cap and that is not set to fail.
pub proof fn law_pool_opens_on_a_working_store(
    shape: PoolShape,
    given: InMemoryLeaseStore,
    now: PoolTime,
    result: Result<AddressPool<InMemoryLeaseStore>, AddressPoolError>,
)
    requires
        AddressPool::<InMemoryLeaseStore>::recovery_ends(shape, given, now, result),
        given.failing().0 == 0,
        given.failing().2 == 0,
        given.contents().len() <= MAX_LEASES_HARD_CAP,
    ensures
        result is Ok,
{
    let (answer, listing) = choose|
        answer: Result<Seq<PersistedLease>, StoreError>,
        listing: InMemoryLeaseStore,
    |
        #[trigger]
        store::called(given, StoreAnswer::Loaded(answer), listing) && AddressPool::<
            InMemoryLeaseStore,
        >::recovery_of(shape, given, answer, listing, now, result);
    let loaded = answer->Ok_0;
    store::lemma_lists_len(loaded, given.contents());
    if let Err(_) = result {
        let (ordered, deleted, end) = choose|
            ordered: Seq<PersistedLease>,
            deleted: Seq<bool>,
            end: InMemoryLeaseStore,
        |
            #[trigger]
            AddressPool::<InMemoryLeaseStore>::recovery_asked(
                shape,
                listing,
                loaded,
                ordered,
                deleted,
                now,
                end,
            ) && !pool::recovery_fits(shape, ordered, deleted, now);
        let before = listing.answers();
        let calls = end.answers().skip(before.len() as int);
        lemma_in_memory_releases(listing, calls, end);
        let sessions = pool::sessions_of(model::recovery(shape, ordered, now).stale);
        assert forall|i: int| 0 <= i < deleted.len() implies deleted[i] by {
            assert(pool::released_as(end.answers()[before.len() + i], sessions[i], deleted[i]));
            assert(calls[i] == end.answers()[before.len() + i]);
        }
        durability::law_recovery_succeeds_where_deletes_do(shape, ordered, deleted, now);
    }
}

/// A restart never moves a deadline: what is left of a lease by the wall
/// clock is what is left of it by the monotonic clock afterwards.
pub proof fn law_restart_keeps_remaining_time(wall_expiry: u64, wall_now: u64, mono_now: u64)
    ensures
        persistence::monotonic_deadline(wall_expiry, wall_now, mono_now) >= mono_now,
        wall_expiry >= wall_now && mono_now + (wall_expiry - wall_now) <= u64::MAX
            ==> persistence::monotonic_deadline(wall_expiry, wall_now, mono_now) - mono_now
            == wall_expiry - wall_now,
{
}

} // verus!
