//! What a sweep expires, and which failed deletes are tried again and when.
use super::lease::PersistedLease;
use super::model;
use super::model::{ExpiredLease, PoolMetrics, PoolModel, QuarantinedLease};
use super::pool;
use super::pool::AddressPool;
use super::pool_state::AddressPoolSnapshot;
use super::store::LeaseStore;
use crate::arith;
use crate::ids::SessionId;
use vstd::arithmetic::power2;
use vstd::prelude::*;

verus! {

/// The first wait is a second. Each further attempt doubles it, up to a minute.
pub proof fn law_backoff_doubles_up_to_a_minute(attempts: u64)
    ensures
        model::retry_backoff(0) == 1_000,
        attempts < u64::MAX ==> model::retry_backoff((attempts + 1) as u64) == if 2
            * model::retry_backoff(attempts) <= 60_000 {
            2 * model::retry_backoff(attempts)
        } else {
            60_000
        },
{
    power2::lemma2_to64();
    if attempts < 6 {
        power2::lemma_pow2_unfold((attempts + 1) as nat);
        if attempts < 5 {
            power2::lemma_pow2_strictly_increases(attempts as nat, 5);
        }
    }
}

/// A failed delete is due again as long after the attempt as its backoff says, or
/// at the last instant that the clock can show.
pub proof fn law_retries_are_due_after_their_backoff(now_ms: u64, attempts: u64)
    ensures
        model::retry_deadline(now_ms, attempts) == if now_ms + model::retry_backoff(attempts)
            <= u64::MAX {
            now_ms + model::retry_backoff(attempts)
        } else {
            u64::MAX as int
        },
{
    super::laws::law_backoff_is_bounded_and_monotone(attempts, attempts);
}

/// A failed delete may be tried now: it is due, and nothing is under way for its
/// session.
pub open spec fn may_retry(m: PoolModel, now_ms: u64, k: u128) -> bool {
    !m.parked.contains_key(k) && m.quarantine[k].next_retry_ms <= now_ms
}

/// Of the failed deletes that may be tried, the first ones are, in the order in
/// which they failed, and no more than the batch holds. The others keep their
/// order.
pub proof fn law_the_first_due_are_retried(
    m: PoolModel,
    now_ms: u64,
    limit: nat,
    ids: Seq<u128>,
)
    requires
        ids.no_duplicates(),
    ensures
        ({
            let (batch, rest) = m.select(now_ms, limit, ids);
            let due = ids.filter(|k: u128| may_retry(m, now_ms, k));
            &&& batch == if due.len() <= limit {
                due
            } else {
                due.take(limit as int)
            }
            &&& rest == ids.filter(|k: u128| !batch.contains(k))
        }),
    decreases ids.len(),
{
    let may = |k: u128| may_retry(m, now_ms, k);
    let (batch, rest) = m.select(now_ms, limit, ids);
    let left = |k: u128| !batch.contains(k);
    let due = ids.filter(may);
    reveal(Seq::filter);
    if ids.len() == 0 {
        assert(batch =~= due);
        assert(rest =~= ids.filter(left));
    } else {
        let front = ids.drop_last();
        let last = ids.last();
        let (batch1, rest1) = m.select(now_ms, limit, front);
        let left1 = |k: u128| !batch1.contains(k);
        let due1 = front.filter(may);
        law_the_first_due_are_retried(m, now_ms, limit, front);
        m.lemma_select(now_ms, limit, front);
        assert(!front.contains(last)) by {
            if front.contains(last) {
                let i = front.index_of(last);
                assert(ids[i] == ids[ids.len() - 1]);
            }
        }
        assert(front.push(last) =~= ids);
        front.lemma_filter_push(last, may);
        front.lemma_filter_push(last, left);
        model::lemma_pushes(batch1, last);
        assert(!batch1.contains(last)) by {
            assert(!front.contains(last));
        }
        lemma_filters_alike(front, left1, left);
        if m.ready(now_ms, last) && batch1.len() < limit {
            assert(batch =~= due);
        } else if may(last) {
            assert(due =~= due1.push(last));
            assert(batch =~= due.take(limit as int));
        }
        assert(rest =~= ids.filter(left));
    }
}

/// Filters that agree on a list give the same.
proof fn lemma_filters_alike(s: Seq<u128>, f: spec_fn(u128) -> bool, g: spec_fn(u128) -> bool)
    requires
        forall|k: u128| s.contains(k) ==> f(k) == g(k),
    ensures
        s.filter(f) == s.filter(g),
    decreases s.len(),
{
    reveal(Seq::filter);
    if s.len() > 0 {
        let front = s.drop_last();
        assert forall|k: u128| front.contains(k) implies f(k) == g(k) by {
            let i = front.index_of(k);
            assert(s[i] == k);
            assert(s.contains(k));
        }
        lemma_filters_alike(front, f, g);
        assert(s[s.len() - 1] == s.last());
        assert(s.contains(s.last()));
    }
}

/// Every failed delete that nothing is under way for is either tried or put off.
pub proof fn law_what_is_not_retried_is_put_off(
    m: PoolModel,
    now_ms: u64,
    limit: nat,
    ids: Seq<u128>,
)
    requires
        forall|i: int| 0 <= i < ids.len() ==> !m.parked.contains_key(#[trigger] ids[i]),
    ensures
        m.select(now_ms, limit, ids).0.len() + m.put_off(now_ms, limit, ids) == ids.len(),
        m.overfull(now_ms, limit, ids) ==> m.select(now_ms, limit, ids).0.len() >= limit,
    decreases ids.len(),
{
    if ids.len() > 0 {
        law_what_is_not_retried_is_put_off(m, now_ms, limit, ids.drop_last());
        assert(!m.parked.contains_key(ids[ids.len() - 1]));
    }
}

/// While failed deletes are tried, their sessions are under way. No lease changes,
/// and those that are left keep waiting.
pub proof fn law_retries_are_under_way(m: PoolModel, now_ms: u64, limit: nat)
    ensures
        ({
            let (batch, rest) = m.select(now_ms, limit, m.order);
            let taken = m.retry_taken(now_ms, limit);
            &&& taken.active == m.active
            &&& taken.pending == m.pending
            &&& taken.quarantine == m.quarantine
            &&& taken.order == rest
            &&& forall|k: u128| #[trigger]
                taken.parked.contains_key(k) <==> m.parked.contains_key(k) || batch.contains(k)
            &&& forall|k: u128| #[trigger]
                taken.parked.contains_key(k) ==> taken.parked[k] == if m.parked.contains_key(k) {
                    m.parked[k]
                } else {
                    None
                }
            &&& taken.metrics == (PoolMetrics {
                release_retry_deferred: arith::counted(
                    m.metrics.release_retry_deferred,
                    m.put_off(now_ms, limit, m.order) as int,
                ),
                ..m.metrics
            })
        }),
{
}

/// A failed delete that was tried again is gone where the store deleted the
/// record. Otherwise it waits behind all others, with one more attempt behind it.
/// Nothing else changes.
pub proof fn law_one_retry_follows_the_answer(
    m: PoolModel,
    session: u128,
    deleted: bool,
    now_ms: u64,
)
    ensures
        ({
            let next = m.retried_one(session, deleted, now_ms);
            let entry = m.quarantine[session];
            let attempts = if entry.attempts < u64::MAX {
                (entry.attempts + 1) as u64
            } else {
                u64::MAX
            };
            &&& next.active == m.active
            &&& next.pending == m.pending
            &&& next.parked == m.parked.remove(session)
            &&& deleted ==> {
                &&& next.quarantine == m.quarantine.remove(session)
                &&& next.order == m.order
                &&& next.metrics == (PoolMetrics {
                    release_retries: arith::counted(m.metrics.release_retries, 1),
                    ..m.metrics
                })
            }
            &&& !deleted ==> {
                &&& next.quarantine == m.quarantine.insert(
                    session,
                    QuarantinedLease {
                        lease: entry.lease,
                        attempts,
                        next_retry_ms: model::retry_deadline(now_ms, attempts),
                    },
                )
                &&& next.order == m.order.push(session)
                &&& next.metrics == m.metrics
            }
        }),
{
}

/// The answers to a batch are taken one after another.
pub proof fn law_retries_follow_one_another(
    m: PoolModel,
    batch: Seq<u128>,
    deleted: Seq<bool>,
    session: u128,
    last: bool,
    now_ms: u64,
)
    requires
        batch.len() == deleted.len(),
    ensures
        m.retried(Seq::empty(), Seq::empty(), now_ms) == m,
        m.retried(batch.push(session), deleted.push(last), now_ms) == m.retried(
            batch,
            deleted,
            now_ms,
        ).retried_one(session, last, now_ms),
{
    assert(batch.push(session).drop_last() =~= batch);
    lemma_retried_prefix(m, batch, deleted, deleted.push(last), now_ms);
}

/// What became of a batch depends on its own answers only.
proof fn lemma_retried_prefix(
    m: PoolModel,
    batch: Seq<u128>,
    a: Seq<bool>,
    b: Seq<bool>,
    now_ms: u64,
)
    requires
        batch.len() <= a.len(),
        batch.len() <= b.len(),
        forall|i: int| 0 <= i < batch.len() ==> a[i] == b[i],
    ensures
        m.retried(batch, a, now_ms) == m.retried(batch, b, now_ms),
    decreases batch.len(),
{
    if batch.len() > 0 {
        lemma_retried_prefix(m, batch.drop_last(), a, b, now_ms);
    }
}

/// A pool without a store has nothing to try again.
pub proof fn law_without_a_store_nothing_is_retried<S: LeaseStore>(
    before: AddressPool<S>,
    now_ms: u64,
    max_batch: nat,
    left: usize,
    after: AddressPool<S>,
)
    requires
        before.store() is None,
        AddressPool::<S>::retry_ends(before, now_ms, max_batch, left, after),
    ensures
        after == before,
        left == before.model().quarantine.len(),
{
}

/// A lease has run out: its deadline is reached, and nothing is under way for its
/// session.
pub open spec fn over(m: PoolModel, now_ms: u64, k: u128) -> bool {
    &&& !m.parked.contains_key(k)
    &&& {
        ||| m.active.contains_key(k) && m.active[k].expires_at_ms <= now_ms
        ||| m.pending.contains_key(k) && m.pending[k].expires_at_ms <= now_ms
    }
}

/// What a sweep has dealt with part way: nothing of a session that is not in the
/// batch changes, and what is in it is gone, quarantined, or kept as it was.
proof fn lemma_swept(
    m: PoolModel,
    shape: super::config::PoolShape,
    batch: Seq<ExpiredLease>,
    deleted: Seq<bool>,
    now_ms: u64,
)
    ensures
        ({
            let next = m.swept(shape, batch, deleted, now_ms);
            &&& forall|k: u128|
                !#[trigger] model::in_batch(batch, k) ==> {
                    &&& next.active.contains_key(k) == m.active.contains_key(k)
                    &&& m.active.contains_key(k) ==> next.active[k] == m.active[k]
                    &&& next.pending.contains_key(k) == m.pending.contains_key(k)
                    &&& m.pending.contains_key(k) ==> next.pending[k] == m.pending[k]
                }
            &&& (forall|i: int| 0 <= i < batch.len() ==> #[trigger] deleted[i]) ==> {
                &&& next.active == m.active
                &&& next.pending == m.pending
                &&& next.quarantine == m.quarantine
                &&& next.order == m.order
                &&& next.metrics == m.metrics
                &&& forall|k: u128| #[trigger]
                    next.parked.contains_key(k) <==> m.parked.contains_key(k) && !model::in_batch(
                        batch,
                        k,
                    )
                &&& forall|k: u128| #[trigger]
                    next.parked.contains_key(k) ==> next.parked[k] == m.parked[k]
            }
        }),
    decreases batch.len(),
{
    if batch.len() > 0 {
        let front = batch.drop_last();
        lemma_swept(m, shape, front, deleted, now_ms);
        let one = batch.last();
        let key = one.session_id.key;
        assert(batch[batch.len() - 1] == one);
        assert(model::in_batch(batch, key));
        assert forall|k: u128| #[trigger] model::in_batch(batch, k) == (model::in_batch(front, k)
            || k == key) by {
            if model::in_batch(batch, k) {
                let i = choose|i: int|
                    0 <= i < batch.len() && (#[trigger] batch[i]).session_id.key == k;
                if i < front.len() {
                    assert(front[i].session_id.key == k);
                }
            }
            if model::in_batch(front, k) {
                let i = choose|i: int|
                    0 <= i < front.len() && (#[trigger] front[i]).session_id.key == k;
                assert(batch[i].session_id.key == k);
            }
        }
    }
}

/// Nothing that a retry does touches a live lease.
proof fn lemma_retried_keeps_leases(
    m: PoolModel,
    batch: Seq<u128>,
    deleted: Seq<bool>,
    now_ms: u64,
)
    ensures
        m.retried(batch, deleted, now_ms).active == m.active,
        m.retried(batch, deleted, now_ms).pending == m.pending,
    decreases batch.len(),
{
    if batch.len() > 0 {
        lemma_retried_keeps_leases(m, batch.drop_last(), deleted, now_ms);
    }
}

/// A sweep names exactly the sessions whose lease has run out, each once, in the
/// order of their identifiers, and leaves every other lease as it is. Without a
/// store those that ran out are gone at once, and nothing else changes but their
/// count.
pub proof fn law_sweeps_expire_what_is_over<S: LeaseStore>(
    before: AddressPool<S>,
    now_ms: u64,
    ids: Seq<SessionId>,
    after: AddressPool<S>,
)
    requires
        before.wf(),
        AddressPool::<S>::sweep_ends(before, now_ms, ids, after),
    ensures
        forall|id: SessionId| #[trigger] ids.contains(id) <==> over(before.model(), now_ms, id.key),
        forall|i: int, j: int| 0 <= i < j < ids.len() ==> (#[trigger] ids[i]).key < (
        #[trigger] ids[j]).key,
        forall|k: u128|
            !#[trigger] over(before.model(), now_ms, k) ==> {
                let (b, a) = (before.model(), after.model());
                &&& a.active.contains_key(k) == b.active.contains_key(k)
                &&& b.active.contains_key(k) ==> a.active[k] == b.active[k]
                &&& a.pending.contains_key(k) == b.pending.contains_key(k)
                &&& b.pending.contains_key(k) ==> a.pending[k] == b.pending[k]
            },
        before.store() is None ==> {
            let (b, a) = (before.model(), after.model());
            &&& forall|k: u128| #[trigger]
                over(b, now_ms, k) ==> !a.active.contains_key(k) && !a.pending.contains_key(k)
            &&& a.quarantine == b.quarantine
            &&& a.order == b.order
            &&& a.parked == b.parked
            &&& after.store() is None
        },
{
    before.lemma_wf();
    let m = before.model();
    let (batch, deleted, between, left) = choose|
        batch: Seq<ExpiredLease>,
        deleted: Seq<bool>,
        between: AddressPool<S>,
        left: usize,
    |
        {
            &&& #[trigger] m.lists_expired(now_ms, batch)
            &&& ids == batch.map_values(|one: ExpiredLease| one.session_id)
            &&& deleted.len() == batch.len()
            &&& pool::answers(before.stored(), deleted)
            &&& between.wf()
            &&& between.shape() == before.shape()
            &&& pool::consulted(before.store(), between.store())
            &&& between.model() == m.sweep_taken(now_ms).swept(
                before.shape(),
                batch,
                deleted,
                now_ms,
            )
            &&& between.stored() == #[trigger] pool::stored_after(
                before.stored(),
                pool::batch_sessions(batch),
                deleted,
            )
            &&& pool::asked_to_delete_all(
                before.answered(),
                between.answered(),
                pool::batch_sessions(batch),
                deleted,
            )
            &&& #[trigger] AddressPool::<S>::retry_ends(
                between,
                now_ms,
                model::MAX_RETRY_BATCH as nat,
                left,
                after,
            )
        };
    let taken = m.sweep_taken(now_ms);
    assert forall|k: u128| #[trigger] model::in_batch(batch, k) == over(m, now_ms, k) by {
        if model::in_batch(batch, k) {
            let i = choose|i: int|
                0 <= i < batch.len() && (#[trigger] batch[i]).session_id.key == k;
            assert(m.lists_one(now_ms, batch[i]));
        }
        if over(m, now_ms, k) {
            assert(m.expired(now_ms, k));
        }
    }
    assert forall|id: SessionId| #[trigger] ids.contains(id) <==> over(m, now_ms, id.key) by {
        if ids.contains(id) {
            let i = ids.index_of(id);
            assert(batch[i].session_id.key == id.key);
            assert(model::in_batch(batch, id.key));
        }
        if over(m, now_ms, id.key) {
            assert(model::in_batch(batch, id.key));
            let i = choose|i: int|
                0 <= i < batch.len() && (#[trigger] batch[i]).session_id.key == id.key;
            assert(ids[i] == id);
        }
    }
    lemma_swept(taken, before.shape(), batch, deleted, now_ms);
    if between.store() is Some {
        let tried = between.model().select(
            now_ms,
            model::MAX_RETRY_BATCH as nat,
            between.model().order,
        ).0;
        let waiting = between.model().retry_taken(now_ms, model::MAX_RETRY_BATCH as nat);
        let done = choose|done: Seq<bool>|
            {
                &&& done.len() == tried.len()
                &&& after.model() == #[trigger] waiting.retried(tried, done, now_ms)
            };
        lemma_retried_keeps_leases(waiting, tried, done, now_ms);
    }
    assert forall|k: u128| !#[trigger] over(m, now_ms, k) implies {
        let a = after.model();
        &&& a.active.contains_key(k) == m.active.contains_key(k)
        &&& m.active.contains_key(k) ==> a.active[k] == m.active[k]
        &&& a.pending.contains_key(k) == m.pending.contains_key(k)
        &&& m.pending.contains_key(k) ==> a.pending[k] == m.pending[k]
    } by {
        assert(!model::in_batch(batch, k));
        assert(!m.expired(now_ms, k));
    }
    if before.store() is None {
        assert forall|i: int| 0 <= i < batch.len() implies #[trigger] deleted[i] by {}
        let a = after.model();
        assert forall|k: u128| #[trigger] over(m, now_ms, k) implies !a.active.contains_key(k)
            && !a.pending.contains_key(k) by {
            assert(m.placed_once(k));
        }
        assert(a.parked =~= m.parked) by {
            assert forall|k: u128| #[trigger] a.parked.contains_key(k) == m.parked.contains_key(
                k,
            ) by {
                assert(model::in_batch(batch, k) == over(m, now_ms, k));
            }
        }
    }
}

/// An expired lease is dealt with like any released one: where the store struck
/// its record it is gone, where it did not the addresses stay blocked: in
/// quarantine, due in a second, or, where that is full, as what it was.
pub proof fn law_one_expiry_follows_the_answer(
    m: PoolModel,
    shape: super::config::PoolShape,
    one: ExpiredLease,
    deleted: bool,
    now_ms: u64,
)
    requires
        !m.quarantine.contains_key(one.session_id.key),
    ensures
        ({
            let key = one.session_id.key;
            let next = m.swept_one(shape, one, deleted, now_ms);
            &&& next.parked == m.parked.remove(key)
            &&& deleted ==> next == (PoolModel { parked: m.parked.remove(key), ..m })
            &&& !deleted && m.quarantine.len() < shape.max_quarantine ==> {
                &&& next.active == m.active
                &&& next.pending == m.pending
                &&& next.order == m.order.push(key)
                &&& next.quarantine == m.quarantine.insert(
                    key,
                    QuarantinedLease {
                        lease: one.lease,
                        attempts: 0,
                        next_retry_ms: if now_ms + 1_000 <= u64::MAX {
                            (now_ms + 1_000) as u64
                        } else {
                            u64::MAX
                        },
                    },
                )
                &&& next.metrics == (PoolMetrics {
                    store_failures: arith::counted(m.metrics.store_failures, 1),
                    ..m.metrics
                })
            }
            &&& !deleted && m.quarantine.len() >= shape.max_quarantine ==> {
                &&& next.quarantine == m.quarantine
                &&& next.order == m.order
                &&& one.was_pending ==> next.pending == m.pending.insert(key, one.lease)
                    && next.active == m.active
                &&& !one.was_pending ==> next.active == m.active.insert(key, one.lease)
                    && next.pending == m.pending
            }
        }),
{
    model::lemma_first_backoff();
}

/// What a sweep takes: every lease that is over leaves its map, and its addresses
/// are blocked while the store is asked.
pub proof fn law_sweeps_block_what_they_take(m: PoolModel, now_ms: u64, k: u128)
    requires
        m.in_one_place(),
    ensures
        ({
            let taken = m.sweep_taken(now_ms);
            &&& taken.quarantine == m.quarantine
            &&& taken.order == m.order
            &&& taken.metrics == (PoolMetrics {
                pending_expired: arith::counted(
                    m.metrics.pending_expired,
                    m.pending.dom().filter(|j: u128| over(m, now_ms, j)).len() as int,
                ),
                active_expired: arith::counted(
                    m.metrics.active_expired,
                    m.active.dom().filter(|j: u128| over(m, now_ms, j)).len() as int,
                ),
                ..m.metrics
            })
            &&& over(m, now_ms, k) ==> {
                &&& !taken.active.contains_key(k)
                &&& !taken.pending.contains_key(k)
                &&& taken.parked.contains_key(k)
                &&& taken.parked[k] == Some(
                    if m.active.contains_key(k) {
                        m.active[k].addresses
                    } else {
                        m.pending[k].addresses
                    },
                )
            }
            &&& !over(m, now_ms, k) ==> {
                &&& taken.active.contains_key(k) == m.active.contains_key(k)
                &&& m.active.contains_key(k) ==> taken.active[k] == m.active[k]
                &&& taken.pending.contains_key(k) == m.pending.contains_key(k)
                &&& m.pending.contains_key(k) ==> taken.pending[k] == m.pending[k]
                &&& taken.parked.contains_key(k) == m.parked.contains_key(k)
                &&& m.parked.contains_key(k) ==> taken.parked[k] == m.parked[k]
            }
        }),
{
    assert(m.placed_once(k));
    assert forall|j: u128| m.expired_pending(now_ms).contains(j) == m.pending.dom().filter(
        |j: u128| over(m, now_ms, j),
    ).contains(j) by {
        assert(m.placed_once(j));
    }
    assert(m.expired_pending(now_ms) =~= m.pending.dom().filter(|j: u128| over(m, now_ms, j)));
    assert forall|j: u128| m.expired_active(now_ms).contains(j) == m.active.dom().filter(
        |j: u128| over(m, now_ms, j),
    ).contains(j) by {
        assert(m.placed_once(j));
    }
    assert(m.expired_active(now_ms) =~= m.active.dom().filter(|j: u128| over(m, now_ms, j)));
}

/// The answers to a sweep are taken one after another.
pub proof fn law_expiries_follow_one_another(
    m: PoolModel,
    shape: super::config::PoolShape,
    batch: Seq<ExpiredLease>,
    deleted: Seq<bool>,
    one: ExpiredLease,
    last: bool,
    now_ms: u64,
)
    requires
        batch.len() == deleted.len(),
    ensures
        m.swept(shape, Seq::empty(), Seq::empty(), now_ms) == m,
        m.swept(shape, batch.push(one), deleted.push(last), now_ms) == m.swept(
            shape,
            batch,
            deleted,
            now_ms,
        ).swept_one(shape, one, last, now_ms),
{
    assert(batch.push(one).drop_last() =~= batch);
    lemma_swept_prefix(m, shape, batch, deleted, deleted.push(last), now_ms);
}

/// What became of expired leases depends on their own answers only.
proof fn lemma_swept_prefix(
    m: PoolModel,
    shape: super::config::PoolShape,
    batch: Seq<ExpiredLease>,
    a: Seq<bool>,
    b: Seq<bool>,
    now_ms: u64,
)
    requires
        batch.len() <= a.len(),
        batch.len() <= b.len(),
        forall|i: int| 0 <= i < batch.len() ==> a[i] == b[i],
    ensures
        m.swept(shape, batch, a, now_ms) == m.swept(shape, batch, b, now_ms),
    decreases batch.len(),
{
    if batch.len() > 0 {
        lemma_swept_prefix(m, shape, batch.drop_last(), a, b, now_ms);
    }
}

/// A sweep ends with a retry of up to 32 failed deletes that are due by then.
pub proof fn law_sweeps_retry_a_batch<S: LeaseStore>(
    before: AddressPool<S>,
    now_ms: u64,
    ids: Seq<SessionId>,
    after: AddressPool<S>,
)
    requires
        AddressPool::<S>::sweep_ends(before, now_ms, ids, after),
    ensures
        exists|between: AddressPool<S>, left: usize|
            between.shape() == before.shape() && #[trigger] AddressPool::<S>::retry_ends(
                between,
                now_ms,
                32,
                left,
                after,
            ),
{
    let (batch, deleted, between, left) = choose|
        batch: Seq<ExpiredLease>,
        deleted: Seq<bool>,
        between: AddressPool<S>,
        left: usize,
    |
        {
            &&& #[trigger] before.model().lists_expired(now_ms, batch)
            &&& between.shape() == before.shape()
            &&& between.stored() == #[trigger] pool::stored_after(
                before.stored(),
                pool::batch_sessions(batch),
                deleted,
            )
            &&& #[trigger] AddressPool::<S>::retry_ends(
                between,
                now_ms,
                model::MAX_RETRY_BATCH as nat,
                left,
                after,
            )
        };
    assert(AddressPool::<S>::retry_ends(between, now_ms, 32, left, after));
}

/// What is stored after some deletes: each session that was deleted is gone, and
/// nothing else is.
pub proof fn law_deleted_records_are_gone(
    stored: Map<u128, PersistedLease>,
    sessions: Seq<u128>,
    deleted: Seq<bool>,
    k: u128,
)
    requires
        sessions.len() == deleted.len(),
    ensures
        ({
            let after = pool::stored_after(Some(stored), sessions, deleted);
            let gone = exists|i: int|
                0 <= i < sessions.len() && #[trigger] sessions[i] == k && deleted[i];
            &&& after is Some
            &&& after->0.contains_key(k) <==> stored.contains_key(k) && !gone
            &&& after->0.contains_key(k) ==> after->0[k] == stored[k]
        }),
    decreases sessions.len(),
{
    if sessions.len() > 0 {
        let n = sessions.len() - 1;
        let front = sessions.drop_last();
        let answers = deleted.drop_last();
        law_deleted_records_are_gone(stored, front, answers, k);
        pool::lemma_stored_prefix(Some(stored), front, deleted, answers);
        if exists|i: int| 0 <= i < front.len() && #[trigger] front[i] == k && answers[i] {
            let i = choose|i: int| 0 <= i < front.len() && #[trigger] front[i] == k && answers[i];
            assert(sessions[i] == k && deleted[i]);
        }
        if exists|i: int| 0 <= i < sessions.len() && #[trigger] sessions[i] == k && deleted[i] {
            let i = choose|i: int|
                0 <= i < sessions.len() && #[trigger] sessions[i] == k && deleted[i];
            if i < n {
                assert(front[i] == k && answers[i]);
            }
        }
        assert(sessions[n] == sessions.last());
    }
}

/// A snapshot tells how many leases, reservations and failed deletes there are, how many
/// there may be, and what was counted.
pub proof fn law_snapshots_tell_the_state<S: LeaseStore>(
    pool: AddressPool<S>,
    snapshot: AddressPoolSnapshot,
)
    requires
        pool.wf(),
        call_ensures(AddressPool::<S>::snapshot, (&pool,), snapshot),
    ensures
        ({
            let m = pool.model();
            &&& snapshot.active == m.active.len() as usize
            &&& snapshot.pending == m.pending.len() as usize
            &&& snapshot.pending_releases == m.quarantine.len() as usize
            &&& snapshot.maximum_leases == pool.shape().max_leases as usize
            &&& snapshot.maximum_pending_releases == pool.shape().max_quarantine as usize
            &&& snapshot.allocations == m.metrics.allocations
            &&& snapshot.commits == m.metrics.commits
            &&& snapshot.releases == m.metrics.releases
            &&& snapshot.renewals == m.metrics.renewals
            &&& snapshot.exhausted == m.metrics.exhausted
            &&& snapshot.owner_mismatch == m.metrics.owner_mismatch
            &&& snapshot.pending_expired == m.metrics.pending_expired
            &&& snapshot.active_expired == m.metrics.active_expired
            &&& snapshot.store_failures == m.metrics.store_failures
            &&& snapshot.recovered == m.metrics.recovered
            &&& snapshot.recovered_dropped == m.metrics.recovered_dropped
            &&& snapshot.release_retries == m.metrics.release_retries
            &&& snapshot.release_retry_dropped == m.metrics.release_retry_dropped
            &&& snapshot.quarantine_full == m.metrics.quarantine_full
            &&& snapshot.release_retry_deferred == m.metrics.release_retry_deferred
            &&& snapshot.inflight_conflicts == m.metrics.inflight_conflicts
        }),
{
}

} // verus!
