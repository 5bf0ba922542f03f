//! What each request does to the lease of its session, and that it does nothing
//! to any other.
use super::config::AddressPoolError;
use super::lease::{AssignedAddresses, LeaseState, PersistedLease};
use super::model;
use super::model::{Lease, PoolMetrics, PoolModel, QuarantinedLease};
use super::pool::AddressPool;
use super::store::{LeaseStore, StoreAnswer};
use crate::arith;
use crate::ids::{DeviceId, SessionId};
use crate::v2::persistence::PoolTime;
use vstd::prelude::*;

verus! {

/// Two states hold the same leases, failed deletes and operations under way for
/// every session but one.
pub open spec fn same_elsewhere(a: PoolModel, b: PoolModel, session: u128) -> bool {
    &&& a.active.remove(session) == b.active.remove(session)
    &&& a.pending.remove(session) == b.pending.remove(session)
    &&& a.quarantine.remove(session) == b.quarantine.remove(session)
    &&& a.parked.remove(session) == b.parked.remove(session)
}

/// Two states hold the same leases, failed deletes and operations under way.
pub open spec fn same_leases(a: PoolModel, b: PoolModel) -> bool {
    &&& a.active == b.active
    &&& a.pending == b.pending
    &&& a.quarantine == b.quarantine
    &&& a.order == b.order
    &&& a.parked == b.parked
}

/// Two stores hold the same records of every session but one.
pub open spec fn stored_elsewhere<S: LeaseStore>(
    a: AddressPool<S>,
    b: AddressPool<S>,
    session: u128,
) -> bool {
    match (a.stored(), b.stored()) {
        (Some(a), Some(b)) => a.remove(session) == b.remove(session),
        (None, None) => true,
        _ => false,
    }
}

/// The store was asked nothing.
pub open spec fn store_untouched<S: LeaseStore>(a: AddressPool<S>, b: AddressPool<S>) -> bool {
    a.stored() == b.stored() && a.answered() == b.answered()
}

/// The store, where there is one, was asked once more, to file this record, and
/// did so or not.
pub open spec fn filed<S: LeaseStore>(
    before: AddressPool<S>,
    record: PersistedLease,
    done: bool,
    after: AddressPool<S>,
) -> bool {
    match (before.answered(), after.answered()) {
        (Some(asked), Some(log)) => {
            &&& log.len() == asked.len() + 1
            &&& log.last() matches StoreAnswer::Persisted(lease, answer) && lease == record
                && answer is Ok == done
            &&& done ==> after.stored()->0 == before.stored()->0.insert(
                record.session_id.key,
                record,
            )
            &&& !done ==> after.stored() == before.stored()
        },
        (None, None) => done,
        _ => false,
    }
}

/// The store, where there is one, was asked once more, to delete what it holds of
/// a session, and did so or not.
pub open spec fn struck<S: LeaseStore>(
    before: AddressPool<S>,
    session: u128,
    done: bool,
    after: AddressPool<S>,
) -> bool {
    match (before.answered(), after.answered()) {
        (Some(asked), Some(log)) => {
            &&& log.len() == asked.len() + 1
            &&& log.last() matches StoreAnswer::Released(id, answer) && id.key == session
                && answer is Ok == done
            &&& done ==> after.stored()->0 == before.stored()->0.remove(session)
            &&& !done ==> after.stored() == before.stored()
        },
        (None, None) => done,
        _ => false,
    }
}

/// A reservation concerns its session only.
pub proof fn law_reserve_leaves_others_alone<S: LeaseStore>(
    before: AddressPool<S>,
    session: u128,
    device: DeviceId,
    now: PoolTime,
    result: Result<AssignedAddresses, AddressPoolError>,
    after: AddressPool<S>,
)
    requires
        before.wf(),
        AddressPool::<S>::reserve_ends(before, session, device, now, result, after),
    ensures
        same_elsewhere(before.model(), after.model(), session),
        stored_elsewhere(before, after, session),
        after.model().order == before.model().order,
        after.model().active == before.model().active,
        after.model().quarantine == before.model().quarantine,
        after.model().parked == before.model().parked,
{
    let (b, a) = (before.model(), after.model());
    assert(a.pending.remove(session) =~= b.pending.remove(session));
    if let (Some(x), Some(y)) = (before.stored(), after.stored()) {
        assert(x.remove(session) =~= y.remove(session));
    }
}

/// A request without a session or a device owns nothing and changes nothing.
pub proof fn law_owners_have_identifiers<S: LeaseStore>(
    before: AddressPool<S>,
    session: u128,
    device: DeviceId,
    now: PoolTime,
    result: Result<AssignedAddresses, AddressPoolError>,
    after: AddressPool<S>,
)
    requires
        session == 0 || device.key == 0,
        AddressPool::<S>::reserve_ends(before, session, device, now, result, after),
    ensures
        result == Err::<AssignedAddresses, _>(AddressPoolError::OwnerMismatch),
        after.model() == before.model(),
        store_untouched(before, after),
{
}

/// A session that holds a lease - quarantined, committed, or reserved and not run
/// out - is given that lease again where the same device asks, and nothing at all
/// changes. Another device is refused, and only counted.
pub proof fn law_held_leases_are_given_again<S: LeaseStore>(
    before: AddressPool<S>,
    session: u128,
    device: DeviceId,
    now: PoolTime,
    lease: Lease,
    result: Result<AssignedAddresses, AddressPoolError>,
    after: AddressPool<S>,
)
    requires
        before.wf(),
        session != 0,
        device.key != 0,
        !before.model().parked.contains_key(session),
        ({
            let m = before.model();
            ||| m.quarantine.contains_key(session) && m.quarantine[session].lease == lease
            ||| !m.quarantine.contains_key(session) && m.active.contains_key(session)
                && m.active[session] == lease
            ||| !m.quarantine.contains_key(session) && m.pending.contains_key(session)
                && m.pending[session] == lease && (now.monotonic_ms < lease.expires_at_ms
                || lease.device_id != device)
        }),
        AddressPool::<S>::reserve_ends(before, session, device, now, result, after),
    ensures
        store_untouched(before, after),
        lease.device_id == device ==> result == Ok::<_, AddressPoolError>(lease.addresses)
            && after.model() == before.model(),
        lease.device_id != device ==> {
            &&& result == Err::<AssignedAddresses, _>(AddressPoolError::OwnerMismatch)
            &&& same_leases(before.model(), after.model())
            &&& after.model().metrics == (PoolMetrics {
                owner_mismatch: arith::counted(before.model().metrics.owner_mismatch, 1),
                ..before.model().metrics
            })
        },
{
    before.lemma_wf();
    assert(before.model().placed_once(session));
}

/// While something is under way for a session, every other request for it is
/// told so, and only counted.
pub proof fn law_requests_under_way_are_turned_away<S: LeaseStore>(
    before: AddressPool<S>,
    session: u128,
    device: DeviceId,
    now: PoolTime,
    reserved: Result<AssignedAddresses, AddressPoolError>,
    committed: Result<AssignedAddresses, AddressPoolError>,
    released: Result<bool, AddressPoolError>,
    renewed: Result<(), AddressPoolError>,
    after: AddressPool<S>,
)
    requires
        before.model().parked.contains_key(session),
    ensures
        ({
            let told = {
                &&& same_leases(before.model(), after.model())
                &&& store_untouched(before, after)
                &&& after.model().metrics == (PoolMetrics {
                    inflight_conflicts: arith::counted(
                        before.model().metrics.inflight_conflicts,
                        1,
                    ),
                    ..before.model().metrics
                })
            };
            &&& session != 0 && device.key != 0 && AddressPool::<S>::reserve_ends(
                before,
                session,
                device,
                now,
                reserved,
                after,
            ) ==> told && reserved == Err::<AssignedAddresses, _>(AddressPoolError::Store)
            &&& AddressPool::<S>::commit_ends(before, session, now, committed, after) ==> told
                && committed == Err::<AssignedAddresses, _>(AddressPoolError::Store)
            &&& AddressPool::<S>::release_ends(before, session, now.monotonic_ms, released, after)
                ==> told && released == Err::<bool, _>(AddressPoolError::Store)
            &&& AddressPool::<S>::renew_ends(before, session, now, renewed, after) ==> told
                && renewed == Err::<(), _>(AddressPoolError::Store)
        }),
{
}

/// A commit concerns its session only.
pub proof fn law_commit_leaves_others_alone<S: LeaseStore>(
    before: AddressPool<S>,
    session: u128,
    now: PoolTime,
    result: Result<AssignedAddresses, AddressPoolError>,
    after: AddressPool<S>,
)
    requires
        before.wf(),
        AddressPool::<S>::commit_ends(before, session, now, result, after),
    ensures
        same_elsewhere(before.model(), after.model(), session),
        stored_elsewhere(before, after, session),
        !after.model().parked.contains_key(session) || before.model().parked.contains_key(session),
{
    let (b, a) = (before.model(), after.model());
    assert(a.active.remove(session) =~= b.active.remove(session));
    assert(a.pending.remove(session) =~= b.pending.remove(session));
    assert(a.quarantine.remove(session) =~= b.quarantine.remove(session));
    assert(a.parked.remove(session) =~= b.parked.remove(session));
    if let (Some(x), Some(y)) = (before.stored(), after.stored()) {
        assert(x.remove(session) =~= y.remove(session));
    }
}

/// A reservation that has not run out is committed once its record is filed: the
/// session keeps its device and its addresses, and has the whole lease TTL from
/// now on, by both clocks. Where the store refuses the record, and only there, the
/// reservation stays what it was.
pub proof fn law_reservations_in_time_are_committed<S: LeaseStore>(
    before: AddressPool<S>,
    session: u128,
    now: PoolTime,
    result: Result<AssignedAddresses, AddressPoolError>,
    after: AddressPool<S>,
)
    requires
        before.wf(),
        before.model().pending.contains_key(session),
        now.monotonic_ms < before.model().pending[session].expires_at_ms,
        !before.model().parked.contains_key(session),
        !before.model().quarantine.contains_key(session),
        AddressPool::<S>::commit_ends(before, session, now, result, after),
    ensures
        ({
            let lease = before.model().pending[session];
            let ttl = before.shape().lease_ttl;
            let record = PersistedLease {
                session_id: SessionId { key: session },
                device_id: lease.device_id,
                ipv4: lease.addresses.ipv4,
                ipv4_prefix_len: lease.addresses.ipv4_prefix_len,
                ipv6_prefix: lease.addresses.ipv6_prefix,
                ipv6_prefix_len: lease.addresses.ipv6_prefix_len,
                state: LeaseState::Active,
                expires_at_ms: if now.wall_ms + ttl <= u64::MAX {
                    (now.wall_ms + ttl) as u64
                } else {
                    u64::MAX
                },
            };
            match result {
                Ok(pair) => {
                    &&& filed(before, record, true, after)
                    &&& pair == lease.addresses
                    &&& !after.model().pending.contains_key(session)
                    &&& after.model().active.contains_key(session)
                    &&& after.model().active[session].device_id == lease.device_id
                    &&& after.model().active[session].addresses == lease.addresses
                    &&& after.model().active[session].expires_at_ms == if now.monotonic_ms + ttl
                        <= u64::MAX {
                        now.monotonic_ms + ttl
                    } else {
                        u64::MAX as int
                    }
                    &&& after.model().metrics == (PoolMetrics {
                        commits: arith::counted(before.model().metrics.commits, 1),
                        ..before.model().metrics
                    })
                },
                Err(e) => {
                    &&& e == AddressPoolError::Store
                    &&& filed(before, record, false, after)
                    &&& same_leases(before.model(), after.model())
                    &&& after.model().metrics == (PoolMetrics {
                        store_failures: arith::counted(before.model().metrics.store_failures, 1),
                        ..before.model().metrics
                    })
                },
            }
        }),
{
    before.lemma_wf();
    let (b, a) = (before.model(), after.model());
    assert(b.placed_once(session));
    if result is Err {
        assert(a.active =~= b.active);
        assert(a.pending =~= b.pending);
        assert(a.parked =~= b.parked);
    }
}

/// A reservation that has run out is never committed: its record is struck, and
/// the session is told so. Where the store refuses, the addresses stay blocked: in
/// quarantine, due in a second, or, where that is full, as the reservation.
pub proof fn law_late_commits_fail<S: LeaseStore>(
    before: AddressPool<S>,
    session: u128,
    now: PoolTime,
    result: Result<AssignedAddresses, AddressPoolError>,
    after: AddressPool<S>,
)
    requires
        before.wf(),
        before.model().pending.contains_key(session),
        now.monotonic_ms >= before.model().pending[session].expires_at_ms,
        !before.model().parked.contains_key(session),
        !before.model().quarantine.contains_key(session),
        AddressPool::<S>::commit_ends(before, session, now, result, after),
    ensures
        ({
            let (b, a) = (before.model(), after.model());
            let lease = b.pending[session];
            &&& !a.active.contains_key(session)
            &&& a.metrics.pending_expired == arith::counted(b.metrics.pending_expired, 1)
            &&& a.metrics.commits == b.metrics.commits
            &&& result matches Err(e) && if struck(before, session, true, after) {
                &&& e == AddressPoolError::Expired
                &&& a.metrics.store_failures == b.metrics.store_failures
                &&& a.pending == b.pending.remove(session)
                &&& a.quarantine == b.quarantine
                &&& a.order == b.order
            } else if b.quarantine.len() < before.shape().max_quarantine {
                &&& struck(before, session, false, after)
                &&& e == AddressPoolError::Expired
                &&& a.pending == b.pending.remove(session)
                &&& a.quarantine == b.quarantine.insert(
                    session,
                    QuarantinedLease {
                        lease,
                        attempts: 0,
                        next_retry_ms: if now.monotonic_ms + 1_000 <= u64::MAX {
                            (now.monotonic_ms + 1_000) as u64
                        } else {
                            u64::MAX
                        },
                    },
                )
                &&& a.order == b.order.push(session)
            } else {
                &&& struck(before, session, false, after)
                &&& e == AddressPoolError::Store
                &&& same_leases(b, a)
            }
        }),
{
    before.lemma_wf();
    let (b, a) = (before.model(), after.model());
    assert(b.placed_once(session));
    model::lemma_first_backoff();
    let taken = b.taken(session);
    let lease = b.pending[session];
    let deleted = choose|deleted: bool|
        {
            &&& before.stored() is None ==> deleted
            &&& result is Err
            &&& (result->Err_0, after.model()) == #[trigger] taken.expired_reservation(
                before.shape(),
                session,
                lease,
                deleted,
                now.monotonic_ms,
            )
            &&& after.stored() == if deleted {
                super::pool::stored_without(before.stored(), session)
            } else {
                before.stored()
            }
            &&& super::pool::asked_to_delete(
                before.answered(),
                after.answered(),
                session,
                deleted,
            )
        };
    if let (Some(asked), Some(log)) = (before.answered(), after.answered()) {
        assert(super::pool::released_as(
            log[asked.len() + 0int],
            seq![session][0],
            seq![deleted][0],
        ));
    } else {
        assert(seq![deleted][0]);
    }
    assert(struck(before, session, deleted, after));
    assert(a.parked =~= b.parked);
    if deleted {
        assert(a.pending =~= b.pending.remove(session));
    } else if b.quarantine.len() < before.shape().max_quarantine {
        assert(a.pending =~= b.pending.remove(session));
    } else {
        assert(a.active =~= b.active);
        assert(a.pending =~= b.pending);
    }
}

/// A commit of what is committed or quarantined answers with the addresses that
/// are held, and one of nothing says that there is no lease. Neither changes
/// anything.
pub proof fn law_repeated_commits_change_nothing<S: LeaseStore>(
    before: AddressPool<S>,
    session: u128,
    now: PoolTime,
    result: Result<AssignedAddresses, AddressPoolError>,
    after: AddressPool<S>,
)
    requires
        !before.model().parked.contains_key(session),
        AddressPool::<S>::commit_ends(before, session, now, result, after),
    ensures
        ({
            let m = before.model();
            &&& m.active.contains_key(session) ==> result == Ok::<_, AddressPoolError>(
                m.active[session].addresses,
            ) && after.model() == m && store_untouched(before, after)
            &&& !m.active.contains_key(session) && m.quarantine.contains_key(session) ==> result
                == Ok::<_, AddressPoolError>(m.quarantine[session].lease.addresses)
                && after.model() == m && store_untouched(before, after)
            &&& !m.active.contains_key(session) && !m.quarantine.contains_key(session)
                && !m.pending.contains_key(session) ==> result == Err::<AssignedAddresses, _>(
                AddressPoolError::UnknownLease,
            ) && after.model() == m && store_untouched(before, after)
        }),
{
}

/// A release of what is neither reserved nor committed, or is quarantined, has
/// nothing to do.
pub proof fn law_nothing_is_released_twice<S: LeaseStore>(
    before: AddressPool<S>,
    session: u128,
    now_ms: u64,
    result: Result<bool, AddressPoolError>,
    after: AddressPool<S>,
)
    requires
        !before.model().parked.contains_key(session),
        before.model().quarantine.contains_key(session) || !before.model().pending.contains_key(
            session,
        ) && !before.model().active.contains_key(session),
        AddressPool::<S>::release_ends(before, session, now_ms, result, after),
    ensures
        result == Ok::<_, AddressPoolError>(false),
        after.model() == before.model(),
        store_untouched(before, after),
{
}

/// A lease that is released leaves its map once its record is struck, and is
/// counted as released. Where the store refuses, the addresses stay blocked: in
/// quarantine, due in a second, or, where that is full, as what it was.
pub proof fn law_leases_are_released<S: LeaseStore>(
    before: AddressPool<S>,
    session: u128,
    now_ms: u64,
    result: Result<bool, AddressPoolError>,
    after: AddressPool<S>,
)
    requires
        before.wf(),
        before.model().pending.contains_key(session) || before.model().active.contains_key(session),
        !before.model().parked.contains_key(session),
        !before.model().quarantine.contains_key(session),
        AddressPool::<S>::release_ends(before, session, now_ms, result, after),
    ensures
        ({
            let (b, a) = (before.model(), after.model());
            let lease = if b.pending.contains_key(session) {
                b.pending[session]
            } else {
                b.active[session]
            };
            if struck(before, session, true, after) {
                &&& result == Ok::<_, AddressPoolError>(true)
                &&& a.pending == b.pending.remove(session)
                &&& a.active == b.active.remove(session)
                &&& a.quarantine == b.quarantine
                &&& a.order == b.order
                &&& a.parked == b.parked
                &&& a.metrics == (PoolMetrics {
                    releases: arith::counted(b.metrics.releases, 1),
                    ..b.metrics
                })
            } else if b.quarantine.len() < before.shape().max_quarantine {
                &&& struck(before, session, false, after)
                &&& result == Ok::<_, AddressPoolError>(true)
                &&& a.pending == b.pending.remove(session)
                &&& a.active == b.active.remove(session)
                &&& a.quarantine == b.quarantine.insert(
                    session,
                    QuarantinedLease {
                        lease,
                        attempts: 0,
                        next_retry_ms: if now_ms + 1_000 <= u64::MAX {
                            (now_ms + 1_000) as u64
                        } else {
                            u64::MAX
                        },
                    },
                )
                &&& a.order == b.order.push(session)
                &&& a.parked == b.parked
                &&& a.metrics == (PoolMetrics {
                    releases: arith::counted(b.metrics.releases, 1),
                    store_failures: arith::counted(b.metrics.store_failures, 1),
                    ..b.metrics
                })
            } else {
                &&& struck(before, session, false, after)
                &&& result == Err::<bool, _>(AddressPoolError::Store)
                &&& same_leases(b, a)
                &&& a.metrics == (PoolMetrics {
                    quarantine_full: arith::counted(b.metrics.quarantine_full, 1),
                    store_failures: arith::counted(b.metrics.store_failures, 1),
                    ..b.metrics
                })
            }
        }),
{
    before.lemma_wf();
    let (b, a) = (before.model(), after.model());
    assert(b.placed_once(session));
    model::lemma_first_backoff();
    let taken = b.taken(session);
    let was_pending = b.pending.contains_key(session);
    let lease = if was_pending {
        b.pending[session]
    } else {
        b.active[session]
    };
    let deleted = choose|deleted: bool|
        {
            &&& before.stored() is None ==> deleted
            &&& (result, after.model()) == #[trigger] taken.released(
                before.shape(),
                session,
                lease,
                was_pending,
                deleted,
                now_ms,
            )
            &&& after.stored() == if deleted {
                super::pool::stored_without(before.stored(), session)
            } else {
                before.stored()
            }
            &&& super::pool::asked_to_delete(
                before.answered(),
                after.answered(),
                session,
                deleted,
            )
        };
    if let (Some(asked), Some(log)) = (before.answered(), after.answered()) {
        assert(super::pool::released_as(
            log[asked.len() + 0int],
            seq![session][0],
            seq![deleted][0],
        ));
    } else {
        assert(seq![deleted][0]);
    }
    assert(struck(before, session, deleted, after));
    assert(a.parked =~= b.parked);
    if deleted || b.quarantine.len() < before.shape().max_quarantine {
        assert(a.pending =~= b.pending.remove(session));
        assert(a.active =~= b.active.remove(session));
    } else {
        assert(a.active =~= b.active);
        assert(a.pending =~= b.pending);
    }
}

/// A deferred release asks no store: the lease goes to quarantine, due a second
/// after the epoch of the clock and so at the next retry, where there is room, and
/// otherwise stays what it was. Where nothing can be moved nothing changes.
pub proof fn law_deferred_releases_are_quarantined<S: LeaseStore>(
    before: AddressPool<S>,
    session: u128,
)
    requires
        before.wf(),
    ensures
        ({
            let b = before.model();
            let (moved, a) = b.deferred(before.shape(), session);
            let held = b.pending.contains_key(session) || b.active.contains_key(session);
            let lease = if b.pending.contains_key(session) {
                b.pending[session]
            } else {
                b.active[session]
            };
            if !held || b.parked.contains_key(session) || b.quarantine.contains_key(session) {
                !moved && a == b
            } else if b.quarantine.len() < before.shape().max_quarantine {
                &&& moved
                &&& a.pending == b.pending.remove(session)
                &&& a.active == b.active.remove(session)
                &&& a.quarantine == b.quarantine.insert(
                    session,
                    QuarantinedLease { lease, attempts: 0, next_retry_ms: 1_000 },
                )
                &&& a.order == b.order.push(session)
                &&& a.parked == b.parked
                &&& a.metrics == (PoolMetrics {
                    releases: arith::counted(b.metrics.releases, 1),
                    ..b.metrics
                })
            } else {
                &&& !moved
                &&& same_leases(b, a)
                &&& a.metrics == (PoolMetrics {
                    quarantine_full: arith::counted(b.metrics.quarantine_full, 1),
                    store_failures: arith::counted(b.metrics.store_failures, 1),
                    ..b.metrics
                })
            }
        }),
{
    before.lemma_wf();
    let b = before.model();
    let a = b.deferred(before.shape(), session).1;
    assert(b.placed_once(session));
    model::lemma_first_backoff();
    if b.quarantine.len() >= before.shape().max_quarantine {
        assert(a.active =~= b.active);
        assert(a.pending =~= b.pending);
    } else {
        assert(a.active =~= b.active || a.active =~= b.active.remove(session));
        assert(a.pending =~= b.pending || a.pending =~= b.pending.remove(session));
    }
}

/// A committed lease that has not run out is renewed once its record is filed: it
/// keeps its device and its addresses, and has the whole lease TTL from now on, by
/// both clocks. Where the store refuses the record, and only there, the lease stays
/// what it was. A lease that has run out is not renewed, and neither is what was
/// never committed.
pub proof fn law_leases_in_time_are_renewed<S: LeaseStore>(
    before: AddressPool<S>,
    session: u128,
    now: PoolTime,
    result: Result<(), AddressPoolError>,
    after: AddressPool<S>,
)
    requires
        before.wf(),
        !before.model().parked.contains_key(session),
        AddressPool::<S>::renew_ends(before, session, now, result, after),
    ensures
        ({
            let (b, a) = (before.model(), after.model());
            let lease = b.active[session];
            let ttl = before.shape().lease_ttl;
            let record = PersistedLease {
                session_id: SessionId { key: session },
                device_id: lease.device_id,
                ipv4: lease.addresses.ipv4,
                ipv4_prefix_len: lease.addresses.ipv4_prefix_len,
                ipv6_prefix: lease.addresses.ipv6_prefix,
                ipv6_prefix_len: lease.addresses.ipv6_prefix_len,
                state: LeaseState::Active,
                expires_at_ms: if now.wall_ms + ttl <= u64::MAX {
                    (now.wall_ms + ttl) as u64
                } else {
                    u64::MAX
                },
            };
            if !b.active.contains_key(session) {
                &&& result == Err::<(), _>(AddressPoolError::UnknownLease)
                &&& a == b
                &&& store_untouched(before, after)
            } else if now.monotonic_ms >= lease.expires_at_ms {
                &&& result == Err::<(), _>(AddressPoolError::Expired)
                &&& a == b
                &&& store_untouched(before, after)
            } else if result is Ok {
                &&& filed(before, record, true, after)
                &&& a.active == b.active.insert(
                    session,
                    Lease {
                        device_id: lease.device_id,
                        addresses: lease.addresses,
                        expires_at_ms: if now.monotonic_ms + ttl <= u64::MAX {
                            (now.monotonic_ms + ttl) as u64
                        } else {
                            u64::MAX
                        },
                    },
                )
                &&& a.pending == b.pending
                &&& a.quarantine == b.quarantine
                &&& a.order == b.order
                &&& a.parked == b.parked
                &&& a.metrics == (PoolMetrics {
                    renewals: arith::counted(b.metrics.renewals, 1),
                    ..b.metrics
                })
            } else {
                &&& result == Err::<(), _>(AddressPoolError::Store)
                &&& filed(before, record, false, after)
                &&& same_leases(b, a)
                &&& a.metrics == (PoolMetrics {
                    store_failures: arith::counted(b.metrics.store_failures, 1),
                    ..b.metrics
                })
            }
        }),
{
    before.lemma_wf();
}

/// Looking a session up finds the pair it was given, committed or not; looking for an
/// active lease finds only what was committed.
pub proof fn law_lookups_find_what_is_held<S: LeaseStore>(
    pool: AddressPool<S>,
    session_id: SessionId,
    found: Option<AssignedAddresses>,
    active: Option<AssignedAddresses>,
)
    requires
        pool.wf(),
        call_ensures(AddressPool::<S>::lookup, (&pool, session_id), found),
        call_ensures(AddressPool::<S>::lookup_active, (&pool, session_id), active),
    ensures
        ({
            let (m, k) = (pool.model(), session_id.key);
            &&& m.active.contains_key(k) ==> found == Some(m.active[k].addresses) && active == found
            &&& !m.active.contains_key(k) ==> active is None
            &&& !m.active.contains_key(k) && m.pending.contains_key(k) ==> found == Some(
                m.pending[k].addresses,
            )
            &&& !m.active.contains_key(k) && !m.pending.contains_key(k) ==> found is None
        }),
{
}

} // verus!
