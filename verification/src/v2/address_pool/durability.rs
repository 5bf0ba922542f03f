//! What a restart can rely on: every lease in memory has its durable record,
//! and every sound record comes back.
use super::config::{AddressPoolError, PoolShape};
use super::lease::{AssignedAddresses, LeaseState, PersistedLease};
use super::model;
use super::model::{ExpiredLease, Lease, PoolModel, RecoveryModel, MAX_RETRY_BATCH};
use super::pool;
use super::pool::{AddressPool, Stored};
use super::store;
use super::store::{LeaseStore, StoreAnswers};
use crate::ids::{DeviceId, SessionId};
use crate::v2::persistence::PoolTime;
use vstd::prelude::*;

verus! {

/// A session is in at most one of the maps.
pub open spec fn in_one_map(m: PoolModel, k: u128) -> bool {
    &&& !(m.active.contains_key(k) && m.pending.contains_key(k))
    &&& !(m.active.contains_key(k) && m.quarantine.contains_key(k))
    &&& !(m.pending.contains_key(k) && m.quarantine.contains_key(k))
}

/// The store has the record of a session's lease: same device, same addresses.
pub open spec fn recorded(stored: Stored, k: u128, lease: Lease) -> bool {
    stored matches Some(contents) ==> contents.contains_key(k) && contents[k].pair()
        == lease.addresses && contents[k].device_id == lease.device_id
}

/// Every lease in memory has its durable record, of which a session has one.
pub open spec fn backed(m: PoolModel, stored: Stored) -> bool {
    &&& forall|k: u128| #[trigger] in_one_map(m, k)
    &&& forall|k: u128| #[trigger] m.active.contains_key(k) ==> recorded(stored, k, m.active[k])
    &&& forall|k: u128| #[trigger] m.pending.contains_key(k) ==> recorded(stored, k, m.pending[k])
    &&& forall|k: u128| #[trigger]
        m.quarantine.contains_key(k) ==> recorded(stored, k, m.quarantine[k].lease)
}

/// Reserving keeps every lease backed; a granted new reservation is persisted.
pub proof fn law_reserve_keeps_backing<S: LeaseStore>(
    before: AddressPool<S>,
    session: u128,
    device: DeviceId,
    now: PoolTime,
    result: Result<AssignedAddresses, AddressPoolError>,
    after: AddressPool<S>,
)
    requires
        before.wf(),
        backed(before.model(), before.stored()),
        AddressPool::<S>::reserve_ends(before, session, device, now, result, after),
    ensures
        backed(after.model(), after.stored()),
{
    before.lemma_wf();
    let m = before.model();
    let next = after.model();
    assert(m.placed_once(session));
    assert forall|k: u128| #[trigger] next.pending.contains_key(k) implies recorded(
        after.stored(),
        k,
        next.pending[k],
    ) by {
        if k != session {
            assert(m.pending.contains_key(k));
        }
    }
    assert forall|k: u128| #[trigger] next.active.contains_key(k) implies recorded(
        after.stored(),
        k,
        next.active[k],
    ) by {
        assert(m.active.contains_key(k));
    }
    assert forall|k: u128| #[trigger] next.quarantine.contains_key(k) implies recorded(
        after.stored(),
        k,
        next.quarantine[k].lease,
    ) by {
        assert(m.quarantine.contains_key(k));
    }
    assert forall|k: u128| #[trigger] in_one_map(next, k) by {
        assert(in_one_map(m, k));
        assert(m.placed_once(k));
    }
}

/// Committing keeps every lease backed.
pub proof fn law_commit_keeps_backing<S: LeaseStore>(
    before: AddressPool<S>,
    session: u128,
    now: PoolTime,
    result: Result<AssignedAddresses, AddressPoolError>,
    after: AddressPool<S>,
)
    requires
        before.wf(),
        backed(before.model(), before.stored()),
        AddressPool::<S>::commit_ends(before, session, now, result, after),
    ensures
        backed(after.model(), after.stored()),
{
    before.lemma_wf();
    let m = before.model();
    let next = after.model();
    assert(m.placed_once(session));
    assert(m.pending.contains_key(session) ==> recorded(
        before.stored(),
        session,
        m.pending[session],
    ));
    assert forall|k: u128| #[trigger] next.pending.contains_key(k) implies recorded(
        after.stored(),
        k,
        next.pending[k],
    ) by {
        assert(m.placed_once(k));
        assert(m.pending.contains_key(k));
    }
    assert forall|k: u128| #[trigger] next.active.contains_key(k) implies recorded(
        after.stored(),
        k,
        next.active[k],
    ) by {
        assert(m.placed_once(k));
        assert(m.active.contains_key(k) || m.pending.contains_key(k));
    }
    assert forall|k: u128| #[trigger] next.quarantine.contains_key(k) implies recorded(
        after.stored(),
        k,
        next.quarantine[k].lease,
    ) by {
        assert(m.placed_once(k));
        assert(m.quarantine.contains_key(k) || m.pending.contains_key(k));
    }
    assert forall|k: u128| #[trigger] in_one_map(next, k) by {
        assert(in_one_map(m, k));
        assert(m.placed_once(k));
    }
}

/// Releasing keeps every lease backed: a failed delete leaves the record.
pub proof fn law_release_keeps_backing<S: LeaseStore>(
    before: AddressPool<S>,
    session: u128,
    now_ms: u64,
    result: Result<bool, AddressPoolError>,
    after: AddressPool<S>,
)
    requires
        before.wf(),
        backed(before.model(), before.stored()),
        AddressPool::<S>::release_ends(before, session, now_ms, result, after),
    ensures
        backed(after.model(), after.stored()),
{
    before.lemma_wf();
    let m = before.model();
    let next = after.model();
    assert(m.placed_once(session));
    assert forall|k: u128| #[trigger] next.pending.contains_key(k) implies recorded(
        after.stored(),
        k,
        next.pending[k],
    ) by {
        assert(m.placed_once(k));
        assert(m.pending.contains_key(k));
    }
    assert forall|k: u128| #[trigger] next.active.contains_key(k) implies recorded(
        after.stored(),
        k,
        next.active[k],
    ) by {
        assert(m.placed_once(k));
        assert(m.active.contains_key(k) || m.pending.contains_key(k));
    }
    assert forall|k: u128| #[trigger] next.quarantine.contains_key(k) implies recorded(
        after.stored(),
        k,
        next.quarantine[k].lease,
    ) by {
        assert(m.placed_once(k));
        assert(m.quarantine.contains_key(k) || m.pending.contains_key(k)
            || m.active.contains_key(k));
    }
    assert forall|k: u128| #[trigger] in_one_map(next, k) by {
        assert(in_one_map(m, k));
        assert(m.placed_once(k));
    }
}

/// Releasing without store I/O keeps every lease backed.
pub proof fn law_deferred_release_keeps_backing(
    m: PoolModel,
    shape: PoolShape,
    stored: Stored,
    session: u128,
)
    requires
        m.wf(shape),
        backed(m, stored),
    ensures
        backed(m.deferred(shape, session).1, stored),
{
    let next = m.deferred(shape, session).1;
    assert(m.placed_once(session));
    assert forall|k: u128| #[trigger] next.pending.contains_key(k) implies recorded(
        stored,
        k,
        next.pending[k],
    ) by {
        assert(m.pending.contains_key(k));
    }
    assert forall|k: u128| #[trigger] next.active.contains_key(k) implies recorded(
        stored,
        k,
        next.active[k],
    ) by {
        assert(m.active.contains_key(k) || m.pending.contains_key(k));
    }
    assert forall|k: u128| #[trigger] next.quarantine.contains_key(k) implies recorded(
        stored,
        k,
        next.quarantine[k].lease,
    ) by {
        assert(m.quarantine.contains_key(k) || m.pending.contains_key(k)
            || m.active.contains_key(k));
    }
    assert forall|k: u128| #[trigger] in_one_map(next, k) by {
        assert(in_one_map(m, k));
        assert(m.placed_once(k));
    }
}

/// Renewing keeps every lease backed, and a renewed lease is persisted with
/// its new wall expiry.
pub proof fn law_renew_keeps_backing<S: LeaseStore>(
    before: AddressPool<S>,
    session: u128,
    now: PoolTime,
    result: Result<(), AddressPoolError>,
    after: AddressPool<S>,
)
    requires
        before.wf(),
        backed(before.model(), before.stored()),
        AddressPool::<S>::renew_ends(before, session, now, result, after),
    ensures
        backed(after.model(), after.stored()),
{
    before.lemma_wf();
    let m = before.model();
    let next = after.model();
    assert(m.placed_once(session));
    assert forall|k: u128| #[trigger] next.pending.contains_key(k) implies recorded(
        after.stored(),
        k,
        next.pending[k],
    ) by {
        assert(m.placed_once(k));
        assert(m.pending.contains_key(k));
    }
    assert forall|k: u128| #[trigger] next.active.contains_key(k) implies recorded(
        after.stored(),
        k,
        next.active[k],
    ) by {
        assert(m.active.contains_key(k));
    }
    assert forall|k: u128| #[trigger] next.quarantine.contains_key(k) implies recorded(
        after.stored(),
        k,
        next.quarantine[k].lease,
    ) by {
        assert(m.placed_once(k));
        assert(m.quarantine.contains_key(k));
    }
    assert forall|k: u128| #[trigger] in_one_map(next, k) by {
        assert(in_one_map(m, k));
        assert(m.placed_once(k));
    }
}

/// A session that nothing deletes keeps its record.
proof fn lemma_stored_kept(stored: Stored, sessions: Seq<u128>, deleted: Seq<bool>, k: u128)
    requires
        deleted.len() >= sessions.len(),
        forall|i: int| 0 <= i < sessions.len() && #[trigger] sessions[i] == k ==> !deleted[i],
    ensures
        pool::stored_after(stored, sessions, deleted) is Some == stored is Some,
        stored matches Some(contents) ==> {
            let next = pool::stored_after(stored, sessions, deleted)->0;
            next.contains_key(k) == contents.contains_key(k) && (contents.contains_key(k)
                ==> next[k] == contents[k])
        },
    decreases sessions.len(),
{
    if sessions.len() > 0 {
        let front = sessions.drop_last();
        assert forall|i: int| 0 <= i < front.len() && #[trigger] front[i] == k implies !deleted[i] by {
            assert(sessions[i] == k);
        }
        lemma_stored_kept(stored, front, deleted, k);
        assert(sessions[sessions.len() - 1] == sessions.last());
    }
}

/// Retrying failed deletes keeps every lease backed: only what the store
/// deleted leaves the quarantine.
pub proof fn law_retry_keeps_backing<S: LeaseStore>(
    before: AddressPool<S>,
    now_ms: u64,
    max_batch: nat,
    left: usize,
    after: AddressPool<S>,
)
    requires
        before.wf(),
        backed(before.model(), before.stored()),
        AddressPool::<S>::retry_ends(before, now_ms, max_batch, left, after),
    ensures
        backed(after.model(), after.stored()),
{
    if before.stored() is Some {
        before.lemma_wf();
        let m = before.model();
        let batch = m.select(now_ms, max_batch, m.order).0;
        let taken = m.retry_taken(now_ms, max_batch);
        let deleted = choose|deleted: Seq<bool>|
            {
                &&& deleted.len() == batch.len()
                &&& after.model() == #[trigger] taken.retried(batch, deleted, now_ms)
                &&& left == after.model().quarantine.len()
                &&& after.stored() == pool::stored_after(before.stored(), batch, deleted)
            };
        m.lemma_select(now_ms, max_batch, m.order);
        assert forall|i: int| 0 <= i < batch.len() implies taken.quarantine.contains_key(
            #[trigger] batch[i],
        ) by {
            assert(batch.contains(batch[i]));
            assert(m.order.contains(batch[i]));
            let at = m.order.index_of(batch[i]);
            assert(m.quarantine.contains_key(m.order[at]));
        }
        assert forall|k: u128| #[trigger] taken.active.contains_key(k) implies recorded(
            before.stored(),
            k,
            taken.active[k],
        ) by {
            assert(m.active.contains_key(k));
        }
        assert forall|k: u128| #[trigger] in_one_map(taken, k) by {
            assert(in_one_map(m, k));
        }
        assert(backed(taken, before.stored()));
        lemma_retried_backed(taken, before.stored(), batch, deleted, now_ms);
    }
}

proof fn lemma_retried_backed(
    m: PoolModel,
    stored: Stored,
    batch: Seq<u128>,
    deleted: Seq<bool>,
    now_ms: u64,
)
    requires
        backed(m, stored),
        batch.no_duplicates(),
        deleted.len() >= batch.len(),
        forall|i: int| 0 <= i < batch.len() ==> m.quarantine.contains_key(#[trigger] batch[i]),
    ensures
        backed(m.retried(batch, deleted, now_ms), pool::stored_after(stored, batch, deleted)),
        m.retried(batch, deleted, now_ms).active == m.active,
        m.retried(batch, deleted, now_ms).pending == m.pending,
        forall|k: u128| #[trigger]
            m.retried(batch, deleted, now_ms).quarantine.contains_key(k)
                ==> m.quarantine.contains_key(k),
        forall|k: u128|
            !batch.contains(k) && #[trigger] m.quarantine.contains_key(k) ==> m.retried(
                batch,
                deleted,
                now_ms,
            ).quarantine.contains_key(k),
    decreases batch.len(),
{
    if batch.len() > 0 {
        let front = batch.drop_last();
        let k0 = batch.last();
        assert forall|i: int| 0 <= i < front.len() implies m.quarantine.contains_key(
            #[trigger] front[i],
        ) by {
            assert(m.quarantine.contains_key(batch[i]));
        }
        assert(!front.contains(k0)) by {
            if front.contains(k0) {
                let i = front.index_of(k0);
                assert(batch[i] == batch[batch.len() - 1]);
            }
        }
        lemma_retried_backed(m, stored, front, deleted, now_ms);
        let prev = m.retried(front, deleted, now_ms);
        let next = m.retried(batch, deleted, now_ms);
        let prev_stored = pool::stored_after(stored, front, deleted);
        let next_stored = pool::stored_after(stored, batch, deleted);
        assert(m.quarantine.contains_key(batch[batch.len() - 1]));
        assert(prev.quarantine.contains_key(k0));
        assert(in_one_map(m, k0));
        assert forall|k: u128| #[trigger] next.active.contains_key(k) implies recorded(
            next_stored,
            k,
            next.active[k],
        ) by {
            assert(prev.active.contains_key(k));
        }
        assert forall|k: u128| #[trigger] next.pending.contains_key(k) implies recorded(
            next_stored,
            k,
            next.pending[k],
        ) by {
            assert(prev.pending.contains_key(k));
        }
        assert forall|k: u128| #[trigger] next.quarantine.contains_key(k) implies recorded(
            next_stored,
            k,
            next.quarantine[k].lease,
        ) && m.quarantine.contains_key(k) by {
            assert(prev.quarantine.contains_key(k));
        }
        assert forall|k: u128|
            !batch.contains(k) && #[trigger] m.quarantine.contains_key(
                k,
            ) implies next.quarantine.contains_key(k) by {
            assert(batch[batch.len() - 1] == k0);
            if front.contains(k) {
                let i = front.index_of(k);
                assert(batch[i] == k);
            }
            assert(prev.quarantine.contains_key(k));
        }
        assert forall|k: u128| #[trigger] in_one_map(next, k) by {
            assert(in_one_map(prev, k));
        }
    }
}

/// The records of the leases that a sweep has still to settle.
spec fn batch_recorded(stored: Stored, batch: Seq<ExpiredLease>, from: int) -> bool {
    forall|i: int|
        from <= i < batch.len() ==> recorded(
            stored,
            (#[trigger] batch[i]).session_id.key,
            batch[i].lease,
        )
}

proof fn lemma_swept_backed(
    m: PoolModel,
    shape: PoolShape,
    stored: Stored,
    batch: Seq<ExpiredLease>,
    deleted: Seq<bool>,
    now_ms: u64,
    n: int,
)
    requires
        backed(m, stored),
        batch_recorded(stored, batch, 0),
        model::batch_ascends(batch),
        0 <= n <= batch.len() <= deleted.len(),
        forall|i: int|
            0 <= i < batch.len() ==> !m.active.contains_key((#[trigger] batch[i]).session_id.key)
                && !m.pending.contains_key(batch[i].session_id.key) && !m.quarantine.contains_key(
                batch[i].session_id.key,
            ),
    ensures
        ({
            let next = m.swept(shape, batch.take(n), deleted, now_ms);
            let next_stored = pool::stored_after(
                stored,
                pool::batch_sessions(batch.take(n)),
                deleted,
            );
            &&& backed(next, next_stored)
            &&& batch_recorded(next_stored, batch, n)
            &&& forall|i: int|
                n <= i < batch.len() ==> !next.active.contains_key(
                    (#[trigger] batch[i]).session_id.key,
                ) && !next.pending.contains_key(batch[i].session_id.key)
                    && !next.quarantine.contains_key(batch[i].session_id.key)
        }),
    decreases n,
{
    if n == 0 {
        assert(pool::batch_sessions(batch.take(0)) =~= Seq::empty());
        assert(batch.take(0) =~= Seq::empty());
    } else {
        lemma_swept_backed(m, shape, stored, batch, deleted, now_ms, n - 1);
        let prev = m.swept(shape, batch.take(n - 1), deleted, now_ms);
        let prev_stored = pool::stored_after(
            stored,
            pool::batch_sessions(batch.take(n - 1)),
            deleted,
        );
        let one = batch[n - 1];
        let key = one.session_id.key;
        assert(batch.take(n).drop_last() =~= batch.take(n - 1));
        assert(batch.take(n).last() == one);
        let sessions = pool::batch_sessions(batch.take(n));
        assert(sessions.drop_last() =~= pool::batch_sessions(batch.take(n - 1)));
        assert(sessions.last() == key);
        let next = m.swept(shape, batch.take(n), deleted, now_ms);
        let next_stored = pool::stored_after(stored, sessions, deleted);
        assert(recorded(prev_stored, key, one.lease));
        assert(!prev.active.contains_key(batch[n - 1].session_id.key));
        assert forall|i: int| n <= i < batch.len() implies (
        #[trigger] batch[i]).session_id.key != key by {
            assert(batch[n - 1].session_id.key < batch[i].session_id.key);
        }
        assert(batch_recorded(next_stored, batch, n)) by {
            assert forall|i: int| n <= i < batch.len() implies recorded(
                next_stored,
                (#[trigger] batch[i]).session_id.key,
                batch[i].lease,
            ) by {
                assert(recorded(prev_stored, batch[i].session_id.key, batch[i].lease));
            }
        }
        assert forall|k: u128| #[trigger] next.active.contains_key(k) implies recorded(
            next_stored,
            k,
            next.active[k],
        ) by {
            if k != key {
                assert(prev.active.contains_key(k));
            }
        }
        assert forall|k: u128| #[trigger] next.pending.contains_key(k) implies recorded(
            next_stored,
            k,
            next.pending[k],
        ) by {
            if k != key {
                assert(prev.pending.contains_key(k));
            }
        }
        assert forall|k: u128| #[trigger] next.quarantine.contains_key(k) implies recorded(
            next_stored,
            k,
            next.quarantine[k].lease,
        ) by {
            if k != key {
                assert(prev.quarantine.contains_key(k));
            }
        }
        assert forall|i: int| n <= i < batch.len() implies !next.active.contains_key(
            (#[trigger] batch[i]).session_id.key,
        ) && !next.pending.contains_key(batch[i].session_id.key) && !next.quarantine.contains_key(
            batch[i].session_id.key,
        ) by {
            assert(batch[i].session_id.key != key);
            assert(!prev.active.contains_key(batch[i].session_id.key));
        }
        assert forall|k: u128| #[trigger] in_one_map(next, k) by {
            assert(in_one_map(prev, k));
        }
    }
}

/// Sweeping keeps every lease backed: what the store did not delete stays
/// blocked in memory.
pub proof fn law_sweep_keeps_backing<S: LeaseStore>(
    before: AddressPool<S>,
    now_ms: u64,
    ids: Seq<SessionId>,
    after: AddressPool<S>,
)
    requires
        before.wf(),
        backed(before.model(), before.stored()),
        AddressPool::<S>::sweep_ends(before, now_ms, ids, after),
    ensures
        backed(after.model(), after.stored()),
{
    before.lemma_wf();
    let m = before.model();
    let (batch, deleted, between, left) = choose|
        batch: Seq<ExpiredLease>,
        deleted: Seq<bool>,
        between: AddressPool<S>,
        left: usize,
    |
        {
            &&& #[trigger] m.lists_expired(now_ms, batch)
            &&& ids == batch.map_values(|one: ExpiredLease| one.session_id)
            &&& deleted.len() == batch.len()
            &&& pool::answers(before.stored(), deleted)
            &&& between.wf()
            &&& between.shape() == before.shape()
            &&& between.model() == m.sweep_taken(now_ms).swept(
                before.shape(),
                batch,
                deleted,
                now_ms,
            )
            &&& between.stored() == #[trigger] pool::stored_after(
                before.stored(),
                pool::batch_sessions(batch),
                deleted,
            )
            &&& #[trigger] AddressPool::<S>::retry_ends(
                between,
                now_ms,
                MAX_RETRY_BATCH as nat,
                left,
                after,
            )
        };
    let taken = m.sweep_taken(now_ms);
    assert forall|i: int| 0 <= i < batch.len() implies recorded(
        before.stored(),
        (#[trigger] batch[i]).session_id.key,
        batch[i].lease,
    ) && !taken.active.contains_key(batch[i].session_id.key) && !taken.pending.contains_key(
        batch[i].session_id.key,
    ) && !taken.quarantine.contains_key(batch[i].session_id.key) by {
        assert(m.lists_one(now_ms, batch[i]));
        assert(m.placed_once(batch[i].session_id.key));
        assert(in_one_map(m, batch[i].session_id.key));
        let k = batch[i].session_id.key;
        assert(m.active.contains_key(k) || m.pending.contains_key(k));
    }
    assert(backed(taken, before.stored())) by {
        assert forall|k: u128| #[trigger] in_one_map(taken, k) by {
            assert(in_one_map(m, k));
        }
        assert forall|k: u128| #[trigger] taken.active.contains_key(k) implies recorded(
            before.stored(),
            k,
            taken.active[k],
        ) by {
            assert(m.active.contains_key(k));
        }
        assert forall|k: u128| #[trigger] taken.pending.contains_key(k) implies recorded(
            before.stored(),
            k,
            taken.pending[k],
        ) by {
            assert(m.pending.contains_key(k));
        }
        assert forall|k: u128| #[trigger] taken.quarantine.contains_key(k) implies recorded(
            before.stored(),
            k,
            taken.quarantine[k].lease,
        ) by {
            assert(m.quarantine.contains_key(k));
        }
    }
    lemma_swept_backed(
        taken,
        before.shape(),
        before.stored(),
        batch,
        deleted,
        now_ms,
        batch.len() as int,
    );
    assert(batch.take(batch.len() as int) =~= batch);
    law_retry_keeps_backing(between, now_ms, MAX_RETRY_BATCH as nat, left, after);
}

/// A list of records that a restart can restore whole: in session order,
/// within bounds, alive by the wall clock, owned, leasable and free of
/// collisions.
pub open spec fn restorable(shape: PoolShape, leases: Seq<PersistedLease>, now: PoolTime) -> bool {
    &&& model::leases_ascend(leases)
    &&& leases.len() <= model::recovery_bound(shape)
    &&& live_records(leases) <= shape.max_leases
    &&& leases.len() - live_records(leases) <= shape.max_quarantine
    &&& forall|i: int|
        0 <= i < leases.len() ==> {
            let lease = #[trigger] leases[i];
            &&& lease.expires_at_ms > now.wall_ms
            &&& lease.session_id.key != 0
            &&& lease.device_id.key != 0
            &&& PoolModel::leasable(shape, lease.pair())
        }
    &&& forall|i: int, j: int|
        0 <= i < j < leases.len() ==> (#[trigger] leases[i]).pair().v4() != (
        #[trigger] leases[j]).pair().v4() && leases[i].pair().v6() != leases[j].pair().v6()
}

/// How many records are reservations or active leases.
pub open spec fn live_records(leases: Seq<PersistedLease>) -> nat
    decreases leases.len(),
{
    if leases.len() == 0 {
        0
    } else if leases.last().state == LeaseState::ReleasePending {
        live_records(leases.drop_last())
    } else {
        live_records(leases.drop_last()) + 1
    }
}

/// A record is back in the map that its state calls for.
pub open spec fn restored(m: PoolModel, lease: PersistedLease) -> bool {
    let key = lease.session_id.key;
    match lease.state {
        LeaseState::Reserved => m.pending.contains_key(key) && m.pending[key].addresses
            == lease.pair() && m.pending[key].device_id == lease.device_id,
        LeaseState::Active => m.active.contains_key(key) && m.active[key].addresses == lease.pair()
            && m.active[key].device_id == lease.device_id,
        LeaseState::ReleasePending => m.quarantine.contains_key(key)
            && m.quarantine[key].lease.addresses == lease.pair()
            && m.quarantine[key].lease.device_id == lease.device_id,
    }
}

proof fn lemma_live_records_prefix(leases: Seq<PersistedLease>, n: int)
    requires
        0 <= n <= leases.len(),
    ensures
        live_records(leases.take(n)) <= live_records(leases),
        n - live_records(leases.take(n)) <= leases.len() - live_records(leases),
    decreases leases.len() - n,
{
    if n < leases.len() {
        lemma_live_records_prefix(leases, n + 1);
        assert(leases.take(n + 1).drop_last() =~= leases.take(n));
    } else {
        assert(leases.take(n) =~= leases);
    }
}

proof fn lemma_restores(
    shape: PoolShape,
    leases: Seq<PersistedLease>,
    now: PoolTime,
    start: RecoveryModel,
    n: int,
)
    requires
        restorable(shape, leases, now),
        start.pool == PoolModel::empty(),
        start.seen == Set::<u128>::empty(),
        start.seen_v4 == Set::<nat>::empty(),
        start.seen_v6 == Set::<nat>::empty(),
        start.stale == Seq::<PersistedLease>::empty(),
        0 <= n <= leases.len(),
    ensures
        ({
            let rec = start.steps(shape, leases.take(n), now);
            &&& rec.stale.len() == 0
            &&& rec.pool.active.dom().finite()
            &&& rec.pool.pending.dom().finite()
            &&& rec.pool.quarantine.dom().finite()
            &&& rec.pool.active.len() + rec.pool.pending.len() == live_records(leases.take(n))
            &&& rec.pool.quarantine.len() == n - live_records(leases.take(n))
            &&& forall|i: int| 0 <= i < n ==> restored(rec.pool, #[trigger] leases[i])
            &&& forall|k: u128| #[trigger]
                rec.pool.pair_of(k) is Some ==> exists|i: int|
                    0 <= i < n && (#[trigger] leases[i]).session_id.key == k
            &&& forall|k: u128| #[trigger]
                rec.seen.contains(k) ==> exists|i: int|
                    0 <= i < n && (#[trigger] leases[i]).session_id.key == k
            &&& forall|h: nat| #[trigger]
                rec.seen_v4.contains(h) ==> exists|i: int|
                    0 <= i < n && (#[trigger] leases[i]).pair().v4() == h
            &&& forall|p: nat| #[trigger]
                rec.seen_v6.contains(p) ==> exists|i: int|
                    0 <= i < n && (#[trigger] leases[i]).pair().v6() == p
            &&& rec.pool.parked == Map::<u128, Option<AssignedAddresses>>::empty()
        }),
    decreases n,
{
    assert(leases.take(0) =~= Seq::empty());
    if n > 0 {
        lemma_restores(shape, leases, now, start, n - 1);
        let longer = leases.take(n);
        assert(longer.drop_last() =~= leases.take(n - 1));
        let lease = leases[n - 1];
        assert(longer.last() == lease);
        let prev = start.steps(shape, leases.take(n - 1), now);
        let next = start.steps(shape, longer, now);
        let key = lease.session_id.key;
        assert(next == prev.step(shape, lease, now));
        lemma_live_records_prefix(leases, n);
        assert(!prev.seen.contains(key)) by {
            if prev.seen.contains(key) {
                let i = choose|i: int|
                    0 <= i < n - 1 && (#[trigger] leases[i]).session_id.key == key;
                assert(leases[i].session_id.key < leases[n - 1].session_id.key);
            }
        }
        assert(!prev.seen_v4.contains(lease.pair().v4())) by {
            if prev.seen_v4.contains(lease.pair().v4()) {
                let i = choose|i: int|
                    0 <= i < n - 1 && (#[trigger] leases[i]).pair().v4() == lease.pair().v4();
                assert(leases[i].pair().v4() != leases[n - 1].pair().v4());
            }
        }
        assert(!prev.seen_v6.contains(lease.pair().v6())) by {
            if prev.seen_v6.contains(lease.pair().v6()) {
                let i = choose|i: int|
                    0 <= i < n - 1 && (#[trigger] leases[i]).pair().v6() == lease.pair().v6();
                assert(leases[i].pair().v6() != leases[n - 1].pair().v6());
            }
        }
        assert(prev.pool.pair_of(key) is None) by {
            if prev.pool.pair_of(key) is Some {
                let i = choose|i: int|
                    0 <= i < n - 1 && (#[trigger] leases[i]).session_id.key == key;
                assert(leases[i].session_id.key < leases[n - 1].session_id.key);
            }
        }
        assert(prev.recoverable(shape, lease, now));
        assert(prev.has_room(shape, lease));
        assert forall|i: int| 0 <= i < n implies restored(next.pool, #[trigger] leases[i]) by {
            if i < n - 1 {
                assert(restored(prev.pool, leases[i]));
                assert(leases[i].session_id.key < leases[n - 1].session_id.key);
            }
        }
        assert forall|k: u128| #[trigger] next.pool.pair_of(k) is Some implies exists|i: int|
            0 <= i < n && (#[trigger] leases[i]).session_id.key == k by {
            if k == key {
                assert(leases[n - 1].session_id.key == k);
            } else {
                assert(prev.pool.pair_of(k) is Some);
            }
        }
        assert forall|k: u128| #[trigger] next.seen.contains(k) implies exists|i: int|
            0 <= i < n && (#[trigger] leases[i]).session_id.key == k by {
            if k == key {
                assert(leases[n - 1].session_id.key == k);
            } else {
                assert(prev.seen.contains(k));
            }
        }
        assert forall|h: nat| #[trigger] next.seen_v4.contains(h) implies exists|i: int|
            0 <= i < n && (#[trigger] leases[i]).pair().v4() == h by {
            if h == lease.pair().v4() {
                assert(leases[n - 1].pair().v4() == h);
            } else {
                assert(prev.seen_v4.contains(h));
            }
        }
        assert forall|p: nat| #[trigger] next.seen_v6.contains(p) implies exists|i: int|
            0 <= i < n && (#[trigger] leases[i]).pair().v6() == p by {
            if p == lease.pair().v6() {
                assert(leases[n - 1].pair().v6() == p);
            } else {
                assert(prev.seen_v6.contains(p));
            }
        }
    }
}

/// A restart before their wall expiry restores every sound record with its
/// state, device and addresses, and discards none: a crash between reserve and
/// commit still blocks the reserved addresses, and so does a failed delete.
pub proof fn law_restart_restores_leases(
    shape: PoolShape,
    leases: Seq<PersistedLease>,
    now: PoolTime,
)
    requires
        restorable(shape, leases, now),
    ensures
        model::recovery(shape, leases, now).stale.len() == 0,
        forall|i: int|
            0 <= i < leases.len() ==> restored(
                model::recovery(shape, leases, now).pool,
                #[trigger] leases[i],
            ),
        forall|i: int|
            0 <= i < leases.len() ==> model::recovery(shape, leases, now).pool.pair_of(
                (#[trigger] leases[i]).session_id.key,
            ) is Some,
{
    let start = RecoveryModel {
        pool: PoolModel::empty(),
        seen: Set::empty(),
        seen_v4: Set::empty(),
        seen_v6: Set::empty(),
        stale: Seq::empty(),
    };
    lemma_restores(shape, leases, now, start, leases.len() as int);
    assert(leases.take(leases.len() as int) =~= leases);
    assert forall|i: int| 0 <= i < leases.len() implies model::recovery(
        shape,
        leases,
        now,
    ).pool.pair_of((#[trigger] leases[i]).session_id.key) is Some by {
        assert(restored(model::recovery(shape, leases, now).pool, leases[i]));
    }
}

/// What recovery has met or discarded stays so.
proof fn lemma_steps_keep(
    shape: PoolShape,
    leases: Seq<PersistedLease>,
    now: PoolTime,
    start: RecoveryModel,
    m: int,
    n: int,
    lease: PersistedLease,
)
    requires
        0 <= m <= n <= leases.len(),
    ensures
        ({
            let early = start.steps(shape, leases.take(m), now);
            let late = start.steps(shape, leases.take(n), now);
            &&& early.seen.subset_of(late.seen)
            &&& early.stale.contains(lease) ==> late.stale.contains(lease)
        }),
    decreases n - m,
{
    if m < n {
        lemma_steps_keep(shape, leases, now, start, m, n - 1, lease);
        assert(leases.take(n).drop_last() =~= leases.take(n - 1));
        let prev = start.steps(shape, leases.take(n - 1), now);
        let next = start.steps(shape, leases.take(n), now);
        assert(next == prev.step(shape, leases.take(n).last(), now));
        if prev.stale.contains(lease) {
            let at = prev.stale.index_of(lease);
            assert(next.stale[at] == lease);
        }
    }
}

/// A session comes back from one record at most: once a record of it was
/// sound, every later one is discarded.
pub proof fn law_repeated_sessions_are_discarded(
    shape: PoolShape,
    leases: Seq<PersistedLease>,
    now: PoolTime,
    i: int,
    j: int,
)
    requires
        leases.len() <= model::recovery_bound(shape),
        0 <= i < j < leases.len(),
        leases[i].session_id == leases[j].session_id,
        model::recovery(shape, leases.take(i), now).recoverable(shape, leases[i], now),
    ensures
        model::recovery(shape, leases, now).stale.contains(leases[j]),
{
    let start = RecoveryModel {
        pool: PoolModel::empty(),
        seen: Set::empty(),
        seen_v4: Set::empty(),
        seen_v6: Set::empty(),
        stale: Seq::empty(),
    };
    assert(leases.take(leases.len() as int) =~= leases);
    assert(leases.take(i + 1).drop_last() =~= leases.take(i));
    assert(leases.take(j + 1).drop_last() =~= leases.take(j));
    let met = start.steps(shape, leases.take(i + 1), now);
    assert(met == start.steps(shape, leases.take(i), now).step(shape, leases[i], now));
    assert(met.seen.contains(leases[j].session_id.key));
    lemma_steps_keep(shape, leases, now, start, i + 1, j, leases[j]);
    let prev = start.steps(shape, leases.take(j), now);
    let next = start.steps(shape, leases.take(j + 1), now);
    assert(next == prev.step(shape, leases[j], now));
    assert(next.stale.last() == leases[j]);
    assert(next.stale.contains(leases[j]));
    lemma_steps_keep(shape, leases, now, start, j + 1, leases.len() as int, leases[j]);
}

/// Recovery succeeds where the store deletes what is discarded, and the pool
/// holds exactly what came back.
pub proof fn law_recovery_succeeds_where_deletes_do(
    shape: PoolShape,
    ordered: Seq<PersistedLease>,
    deleted: Seq<bool>,
    now: PoolTime,
)
    requires
        deleted.len() == model::recovery(shape, ordered, now).stale.len(),
        forall|i: int| 0 <= i < deleted.len() ==> deleted[i],
    ensures
        ({
            let rec = model::recovery(shape, ordered, now);
            rec.pool.discarded(shape, pool::undeleted(rec.stale, deleted), now.monotonic_ms) == (
                true,
                rec.pool,
            )
        }),
{
    lemma_all_deleted(model::recovery(shape, ordered, now).stale, deleted);
}

proof fn lemma_all_deleted(leases: Seq<PersistedLease>, deleted: Seq<bool>)
    requires
        leases.len() <= deleted.len(),
        forall|i: int| 0 <= i < deleted.len() ==> deleted[i],
    ensures
        pool::undeleted(leases, deleted) == Seq::<PersistedLease>::empty(),
    decreases leases.len(),
{
    if leases.len() > 0 {
        lemma_all_deleted(leases.drop_last(), deleted);
    }
}

/// A record of the list, before position `n` or from `end` on.
spec fn listed_outside(
    leases: Seq<PersistedLease>,
    n: int,
    end: int,
    lease: PersistedLease,
) -> bool {
    exists|i: int| (0 <= i < n || end <= i < leases.len()) && #[trigger] leases[i] == lease
}

/// A lease in memory comes from a record before position `n`.
spec fn listed_before(leases: Seq<PersistedLease>, n: int, k: u128, lease: Lease) -> bool {
    exists|i: int|
        0 <= i < n && (#[trigger] leases[i]).session_id.key == k && leases[i].pair()
            == lease.addresses && leases[i].device_id == lease.device_id
}

/// Part way through recovery, memory holds listed records, and what is
/// discarded is listed, once each, and not in memory.
spec fn sorted_out(rec: RecoveryModel, leases: Seq<PersistedLease>, n: int, end: int) -> bool {
    &&& forall|k: u128| #[trigger]
        rec.pool.active.contains_key(k) ==> listed_before(leases, n, k, rec.pool.active[k])
    &&& forall|k: u128| #[trigger]
        rec.pool.pending.contains_key(k) ==> listed_before(leases, n, k, rec.pool.pending[k])
    &&& forall|k: u128| #[trigger]
        rec.pool.quarantine.contains_key(k) ==> listed_before(
            leases,
            n,
            k,
            rec.pool.quarantine[k].lease,
        )
    &&& rec.pool.parked == Map::<u128, Option<AssignedAddresses>>::empty()
    &&& forall|k: u128| #[trigger] in_one_map(rec.pool, k)
    &&& forall|j: int|
        0 <= j < rec.stale.len() ==> listed_outside(leases, n, end, #[trigger] rec.stale[j])
    &&& forall|j: int|
        0 <= j < rec.stale.len() ==> rec.pool.pair_of(
            (#[trigger] rec.stale[j]).session_id.key,
        ) is None
    &&& forall|i: int, j: int|
        0 <= i < j < rec.stale.len() ==> (#[trigger] rec.stale[i]).session_id.key != (
        #[trigger] rec.stale[j]).session_id.key
}

proof fn lemma_sorts_out(
    shape: PoolShape,
    leases: Seq<PersistedLease>,
    now: PoolTime,
    start: RecoveryModel,
    n: int,
    end: int,
)
    requires
        model::leases_ascend(leases),
        0 <= n <= end <= leases.len(),
        sorted_out(start, leases, 0, end),
    ensures
        sorted_out(start.steps(shape, leases.take(n), now), leases, n, end),
    decreases n,
{
    assert(leases.take(0) =~= Seq::empty());
    if n > 0 {
        lemma_sorts_out(shape, leases, now, start, n - 1, end);
        let longer = leases.take(n);
        assert(longer.drop_last() =~= leases.take(n - 1));
        let lease = leases[n - 1];
        assert(longer.last() == lease);
        let prev = start.steps(shape, leases.take(n - 1), now);
        let next = start.steps(shape, longer, now);
        let key = lease.session_id.key;
        assert(next == prev.step(shape, lease, now));
        assert forall|k: u128, l: Lease| #[trigger] listed_before(
            leases,
            n - 1,
            k,
            l,
        ) implies listed_before(leases, n, k, l) && k != key by {
            let i = choose|i: int|
                0 <= i < n - 1 && (#[trigger] leases[i]).session_id.key == k && leases[i].pair()
                    == l.addresses && leases[i].device_id == l.device_id;
            assert(leases[i].session_id.key < leases[n - 1].session_id.key);
        }
        assert forall|k: u128| #[trigger] next.pool.active.contains_key(k) implies listed_before(
            leases,
            n,
            k,
            next.pool.active[k],
        ) by {
            if prev.pool.active.contains_key(k) {
                assert(listed_before(leases, n - 1, k, prev.pool.active[k]));
            } else {
                assert(leases[n - 1].session_id.key == k);
            }
        }
        assert forall|k: u128| #[trigger] next.pool.pending.contains_key(k) implies listed_before(
            leases,
            n,
            k,
            next.pool.pending[k],
        ) by {
            if prev.pool.pending.contains_key(k) {
                assert(listed_before(leases, n - 1, k, prev.pool.pending[k]));
            } else {
                assert(leases[n - 1].session_id.key == k);
            }
        }
        assert forall|k: u128| #[trigger]
            next.pool.quarantine.contains_key(k) implies listed_before(
            leases,
            n,
            k,
            next.pool.quarantine[k].lease,
        ) by {
            if prev.pool.quarantine.contains_key(k) {
                assert(listed_before(leases, n - 1, k, prev.pool.quarantine[k].lease));
            } else {
                assert(leases[n - 1].session_id.key == k);
            }
        }
        assert forall|l: PersistedLease| #[trigger] listed_outside(
            leases,
            n - 1,
            end,
            l,
        ) implies listed_outside(leases, n, end, l) && l.session_id.key != key by {
            let i = choose|i: int|
                (0 <= i < n - 1 || end <= i < leases.len()) && #[trigger] leases[i] == l;
            if i < n - 1 {
                assert(leases[i].session_id.key < leases[n - 1].session_id.key);
            } else {
                assert(leases[n - 1].session_id.key < leases[i].session_id.key);
            }
        }
        assert(prev.pool.pair_of(key) is None);
        assert forall|k: u128| #[trigger] in_one_map(next.pool, k) by {
            assert(in_one_map(prev.pool, k));
        }
        assert forall|j: int| 0 <= j < next.stale.len() implies listed_outside(
            leases,
            n,
            end,
            #[trigger] next.stale[j],
        ) && next.pool.pair_of(next.stale[j].session_id.key) is None by {
            if j < prev.stale.len() {
                assert(listed_outside(leases, n - 1, end, prev.stale[j]));
                assert(prev.pool.pair_of(prev.stale[j].session_id.key) is None);
            } else {
                assert(leases[n - 1] == next.stale[j]);
            }
        }
        assert forall|i: int, j: int| 0 <= i < j < next.stale.len() implies (
        #[trigger] next.stale[i]).session_id.key != (#[trigger] next.stale[j]).session_id.key by {
            assert(listed_outside(leases, n - 1, end, prev.stale[i]));
            if j < prev.stale.len() {
                assert(prev.stale[i].session_id.key != prev.stale[j].session_id.key);
            }
        }
    }
}

proof fn lemma_undeleted(leases: Seq<PersistedLease>, deleted: Seq<bool>)
    requires
        leases.len() <= deleted.len(),
    ensures
        forall|i: int|
            0 <= i < pool::undeleted(leases, deleted).len() ==> exists|j: int|
                0 <= j < leases.len() && !deleted[j] && #[trigger] leases[j]
                    == #[trigger] pool::undeleted(leases, deleted)[i],
    decreases leases.len(),
{
    if leases.len() > 0 {
        let front = leases.drop_last();
        lemma_undeleted(front, deleted);
        let all = pool::undeleted(leases, deleted);
        let some = pool::undeleted(front, deleted);
        assert forall|i: int| 0 <= i < all.len() implies exists|j: int|
            0 <= j < leases.len() && !deleted[j] && #[trigger] leases[j] == #[trigger] all[i] by {
            if i < some.len() {
                assert(some[i] == all[i]);
                let j = choose|j: int|
                    0 <= j < front.len() && !deleted[j] && #[trigger] front[j] == some[i];
                assert(leases[j] == all[i]);
            } else {
                assert(leases[leases.len() - 1] == all[i]);
            }
        }
    }
}

proof fn lemma_discarded_backed(
    m: PoolModel,
    shape: PoolShape,
    stored: Stored,
    failed: Seq<PersistedLease>,
    now_ms: u64,
)
    requires
        backed(m, stored),
        forall|i: int|
            0 <= i < failed.len() ==> recorded(
                stored,
                (#[trigger] failed[i]).session_id.key,
                Lease {
                    device_id: failed[i].device_id,
                    addresses: failed[i].pair(),
                    expires_at_ms: failed[i].expires_at_ms,
                },
            ) && !m.live(failed[i].session_id.key),
    ensures
        backed(m.discarded(shape, failed, now_ms).1, stored),
        m.discarded(shape, failed, now_ms).1.active == m.active,
        m.discarded(shape, failed, now_ms).1.pending == m.pending,
    decreases failed.len(),
{
    if failed.len() > 0 {
        let front = failed.drop_last();
        assert forall|i: int| 0 <= i < front.len() implies recorded(
            stored,
            (#[trigger] front[i]).session_id.key,
            Lease {
                device_id: front[i].device_id,
                addresses: front[i].pair(),
                expires_at_ms: front[i].expires_at_ms,
            },
        ) && !m.live(front[i].session_id.key) by {
            assert(failed[i] == front[i]);
        }
        lemma_discarded_backed(m, shape, stored, front, now_ms);
        let prev = m.discarded(shape, front, now_ms).1;
        let next = m.discarded(shape, failed, now_ms).1;
        assert(failed[failed.len() - 1] == failed.last());
        assert forall|k: u128| #[trigger] next.active.contains_key(k) implies recorded(
            stored,
            k,
            next.active[k],
        ) by {
            assert(prev.active.contains_key(k));
        }
        assert forall|k: u128| #[trigger] next.pending.contains_key(k) implies recorded(
            stored,
            k,
            next.pending[k],
        ) by {
            assert(prev.pending.contains_key(k));
        }
        assert forall|k: u128| #[trigger] next.quarantine.contains_key(k) implies recorded(
            stored,
            k,
            next.quarantine[k].lease,
        ) by {
            if prev.quarantine.contains_key(k) {
            }
        }
        assert forall|k: u128| #[trigger] in_one_map(next, k) by {
            assert(in_one_map(prev, k));
        }
    }
}

/// A recovered pool is backed: what came back is stored, and a discarded
/// record that could not be deleted is quarantined with its addresses.
pub proof fn law_recovery_is_backed<S: LeaseStore>(
    shape: PoolShape,
    contents: Map<u128, PersistedLease>,
    asked: StoreAnswers,
    loaded: Seq<PersistedLease>,
    ordered: Seq<PersistedLease>,
    deleted: Seq<bool>,
    now: PoolTime,
    pool: AddressPool<S>,
)
    requires
        model::leases_ascend(ordered),
        store::lists(ordered, contents),
        AddressPool::<S>::recovers(
            shape,
            contents,
            asked,
            loaded,
            ordered,
            deleted,
            now,
            pool,
        ),
    ensures
        backed(pool.model(), pool.stored()),
{
    let bound = model::recovery_bound(shape);
    let rec = model::recovery(shape, ordered, now);
    let end = if ordered.len() > bound {
        bound as int
    } else {
        ordered.len() as int
    };
    let start = if ordered.len() > bound {
        RecoveryModel {
            pool: PoolModel::empty().drop_counted(ordered.len() - bound),
            seen: Set::empty(),
            seen_v4: Set::empty(),
            seen_v6: Set::empty(),
            stale: ordered.skip(bound as int),
        }
    } else {
        RecoveryModel {
            pool: PoolModel::empty(),
            seen: Set::empty(),
            seen_v4: Set::empty(),
            seen_v6: Set::empty(),
            stale: Seq::empty(),
        }
    };
    assert(sorted_out(start, ordered, 0, end)) by {
        assert forall|j: int| 0 <= j < start.stale.len() implies listed_outside(
            ordered,
            0,
            end,
            #[trigger] start.stale[j],
        ) by {
            assert(ordered[end + j] == start.stale[j]);
        }
        assert forall|i: int, j: int| 0 <= i < j < start.stale.len() implies (
        #[trigger] start.stale[i]).session_id.key != (
        #[trigger] start.stale[j]).session_id.key by {
            assert(ordered[end + i].session_id.key < ordered[end + j].session_id.key);
        }
    }
    lemma_sorts_out(shape, ordered, now, start, end, end);
    if ordered.len() <= bound {
        assert(ordered.take(end) =~= ordered);
    }
    assert(rec == start.steps(shape, ordered.take(end), now));
    let stored = Some(contents);
    let sessions = pool::sessions_of(rec.stale);
    let next_stored = pool::stored_after(stored, sessions, deleted);
    assert forall|k: u128, l: Lease| #[trigger] listed_before(ordered, end, k, l)
        && rec.pool.pair_of(k) is Some implies recorded(next_stored, k, l) by {
        let i = choose|i: int|
            0 <= i < end && (#[trigger] ordered[i]).session_id.key == k && ordered[i].pair()
                == l.addresses && ordered[i].device_id == l.device_id;
        assert(contents.contains_key(ordered[i].session_id.key));
        assert forall|j: int| 0 <= j < sessions.len() && #[trigger] sessions[j]
            == k implies !deleted[j] by {
            assert(rec.pool.pair_of(rec.stale[j].session_id.key) is None);
        }
        lemma_stored_kept(stored, sessions, deleted, k);
    }
    assert(backed(rec.pool, next_stored)) by {
        assert forall|k: u128| #[trigger] rec.pool.active.contains_key(k) implies recorded(
            next_stored,
            k,
            rec.pool.active[k],
        ) by {
            assert(listed_before(ordered, end, k, rec.pool.active[k]));
        }
        assert forall|k: u128| #[trigger] rec.pool.pending.contains_key(k) implies recorded(
            next_stored,
            k,
            rec.pool.pending[k],
        ) by {
            assert(listed_before(ordered, end, k, rec.pool.pending[k]));
        }
        assert forall|k: u128| #[trigger] rec.pool.quarantine.contains_key(k) implies recorded(
            next_stored,
            k,
            rec.pool.quarantine[k].lease,
        ) by {
            assert(listed_before(ordered, end, k, rec.pool.quarantine[k].lease));
        }
    }
    let failed = pool::undeleted(rec.stale, deleted);
    lemma_undeleted(rec.stale, deleted);
    assert forall|i: int| 0 <= i < failed.len() implies recorded(
        next_stored,
        (#[trigger] failed[i]).session_id.key,
        Lease {
            device_id: failed[i].device_id,
            addresses: failed[i].pair(),
            expires_at_ms: failed[i].expires_at_ms,
        },
    ) && !rec.pool.live(failed[i].session_id.key) by {
        let j = choose|j: int|
            0 <= j < rec.stale.len() && !deleted[j] && #[trigger] rec.stale[j] == failed[i];
        let k = failed[i].session_id.key;
        assert(listed_outside(ordered, end, end, rec.stale[j]));
        assert(rec.pool.pair_of(rec.stale[j].session_id.key) is None);
        let at = choose|at: int|
            (0 <= at < end || end <= at < ordered.len()) && #[trigger] ordered[at] == rec.stale[j];
        assert(contents.contains_key(ordered[at].session_id.key));
        assert forall|n: int| 0 <= n < sessions.len() && #[trigger] sessions[n]
            == k implies !deleted[n] by {
            if n < j {
                assert(rec.stale[n].session_id.key != rec.stale[j].session_id.key);
            } else if j < n {
                assert(rec.stale[j].session_id.key != rec.stale[n].session_id.key);
            }
        }
        lemma_stored_kept(stored, sessions, deleted, k);
    }
    lemma_discarded_backed(rec.pool, shape, next_stored, failed, now.monotonic_ms);
}

} // verus!
