//! Which records come back when a pool is opened, and as what.
use super::config::PoolShape;
use super::lease::{LeaseState, PersistedLease};
use super::model;
use super::model::{Lease, PoolMetrics, PoolModel, QuarantinedLease, RecoveryModel};
use super::pool;
use super::pool::AddressPool;
use super::store;
use super::store::{LeaseStore, StoreAnswer, StoreError};
use crate::arith;
use crate::v2::persistence::PoolTime;
use vstd::arithmetic::power2;
use vstd::prelude::*;

verus! {

/// A record that a pool can take back: alive by the wall clock, of a session and
/// a device, with a host and a `/64` that may be leased, none of them met before.
pub open spec fn sound(
    met: RecoveryModel,
    shape: PoolShape,
    lease: PersistedLease,
    now: PoolTime,
) -> bool {
    let host = lease.pair().v4();
    let prefix = lease.pair().v6();
    &&& lease.expires_at_ms > now.wall_ms
    &&& lease.session_id.key != 0
    &&& lease.device_id.key != 0
    &&& lease.ipv4_prefix_len == shape.v4_len
    &&& lease.ipv6_prefix_len == 64
    &&& shape.network < host < shape.network + power2::pow2((32 - shape.v4_len) as nat) - 1
    &&& host != shape.gateway
    &&& !shape.reserved.contains(host)
    &&& shape.base < prefix < shape.base + power2::pow2((128 - shape.v6_len) as nat)
    &&& prefix % power2::pow2(64) == 0
    &&& !met.seen.contains(lease.session_id.key)
    &&& !met.seen_v4.contains(host)
    &&& !met.seen_v6.contains(prefix)
}

/// There is room for a record: reservations and leases up to the one maximum,
/// failed deletes up to the other.
pub open spec fn room(m: PoolModel, shape: PoolShape, lease: PersistedLease) -> bool {
    if lease.state == LeaseState::ReleasePending {
        m.quarantine.len() < shape.max_quarantine
    } else {
        m.active.len() + m.pending.len() < shape.max_leases
    }
}

/// A sound record that there is room for comes back in its own state, for its own
/// device, with its own addresses, and with the time that it has left by the wall
/// clock. Any other is discarded, and changes no lease.
pub proof fn law_sound_records_come_back(
    met: RecoveryModel,
    shape: PoolShape,
    lease: PersistedLease,
    now: PoolTime,
)
    requires
        !met.pool.quarantine.contains_key(lease.session_id.key),
    ensures
        ({
            let next = met.step(shape, lease, now);
            let key = lease.session_id.key;
            let (b, a) = (met.pool, next.pool);
            let left = lease.expires_at_ms - now.wall_ms;
            let held = Lease {
                device_id: lease.device_id,
                addresses: lease.pair(),
                expires_at_ms: if now.monotonic_ms + left <= u64::MAX {
                    (now.monotonic_ms + left) as u64
                } else {
                    u64::MAX
                },
            };
            &&& a.parked == b.parked
            &&& if sound(met, shape, lease, now) {
                &&& next.seen == met.seen.insert(key)
                &&& next.seen_v4 == met.seen_v4.insert(lease.pair().v4())
                &&& next.seen_v6 == met.seen_v6.insert(lease.pair().v6())
            } else {
                next.seen == met.seen && next.seen_v4 == met.seen_v4 && next.seen_v6 == met.seen_v6
            }
            &&& if sound(met, shape, lease, now) && room(b, shape, lease) {
                &&& next.stale == met.stale
                &&& a.pending == if lease.state == LeaseState::Reserved {
                    b.pending.insert(key, held)
                } else {
                    b.pending
                }
                &&& a.active == if lease.state == LeaseState::Active {
                    b.active.insert(key, held)
                } else {
                    b.active
                }
                &&& a.quarantine == if lease.state == LeaseState::ReleasePending {
                    b.quarantine.insert(
                        key,
                        QuarantinedLease {
                            lease: held,
                            attempts: 0,
                            next_retry_ms: if now.monotonic_ms + 1_000 <= u64::MAX {
                                (now.monotonic_ms + 1_000) as u64
                            } else {
                                u64::MAX
                            },
                        },
                    )
                } else {
                    b.quarantine
                }
                &&& a.order == if lease.state == LeaseState::ReleasePending {
                    b.order.push(key)
                } else {
                    b.order
                }
                &&& a.metrics == (PoolMetrics {
                    recovered: arith::counted(b.metrics.recovered, 1),
                    ..b.metrics
                })
            } else {
                &&& next.stale == met.stale.push(lease)
                &&& a.pending == b.pending
                &&& a.active == b.active
                &&& a.quarantine == b.quarantine
                &&& a.order == b.order
                &&& a.metrics == (PoolMetrics {
                    recovered_dropped: arith::counted(b.metrics.recovered_dropped, 1),
                    ..b.metrics
                })
            }
        }),
{
    model::lemma_first_backoff();
}

/// Records are taken in order, from a pool that holds nothing, as long as they are
/// no more than the two maxima together, and no more than 65,536.
pub proof fn law_records_are_taken_in_order(
    shape: PoolShape,
    leases: Seq<PersistedLease>,
    last: PersistedLease,
    now: PoolTime,
)
    ensures
        ({
            let start = model::recovery(shape, Seq::empty(), now);
            &&& start.pool.active == Map::<u128, Lease>::empty()
            &&& start.pool.pending == Map::<u128, Lease>::empty()
            &&& start.pool.quarantine == Map::<u128, QuarantinedLease>::empty()
            &&& start.pool.order == Seq::<u128>::empty()
            &&& start.seen == Set::<u128>::empty()
            &&& start.seen_v4 == Set::<nat>::empty()
            &&& start.seen_v6 == Set::<nat>::empty()
            &&& start.stale == Seq::<PersistedLease>::empty()
        }),
        leases.len() < 65_536 && leases.len() < shape.max_leases + shape.max_quarantine
            ==> model::recovery(shape, leases.push(last), now) == model::recovery(
            shape,
            leases,
            now,
        ).step(shape, last, now),
{
    assert(leases.push(last).drop_last() =~= leases);
}

/// Two ways of starting that differ in what was discarded and counted go on alike.
proof fn lemma_steps_alike(
    a: RecoveryModel,
    b: RecoveryModel,
    shape: PoolShape,
    leases: Seq<PersistedLease>,
    now: PoolTime,
)
    requires
        a.pool.active == b.pool.active,
        a.pool.pending == b.pool.pending,
        a.pool.quarantine == b.pool.quarantine,
        a.pool.order == b.pool.order,
        a.seen == b.seen,
        a.seen_v4 == b.seen_v4,
        a.seen_v6 == b.seen_v6,
        b.stale.len() == 0,
    ensures
        ({
            let x = a.steps(shape, leases, now);
            let y = b.steps(shape, leases, now);
            &&& x.pool.active == y.pool.active
            &&& x.pool.pending == y.pool.pending
            &&& x.pool.quarantine == y.pool.quarantine
            &&& x.pool.order == y.pool.order
            &&& x.seen == y.seen
            &&& x.seen_v4 == y.seen_v4
            &&& x.seen_v6 == y.seen_v6
            &&& x.stale == a.stale + y.stale
        }),
    decreases leases.len(),
{
    if leases.len() == 0 {
        assert(a.stale =~= a.stale + b.stale);
    } else {
        lemma_steps_alike(a, b, shape, leases.drop_last(), now);
        let x = a.steps(shape, leases.drop_last(), now);
        let y = b.steps(shape, leases.drop_last(), now);
        let last = leases.last();
        assert((a.stale + y.stale).push(last) =~= a.stale + y.stale.push(last));
    }
}

/// Records past the bound are discarded, whatever they are; the pool is what the
/// first ones alone make of it.
pub proof fn law_records_past_the_bound_are_discarded(
    shape: PoolShape,
    leases: Seq<PersistedLease>,
    bound: nat,
    now: PoolTime,
)
    requires
        bound == if shape.max_leases + shape.max_quarantine <= 65_536 {
            shape.max_leases + shape.max_quarantine
        } else {
            65_536nat
        },
        leases.len() > bound,
    ensures
        ({
            let whole = model::recovery(shape, leases, now);
            let first = model::recovery(shape, leases.take(bound as int), now);
            &&& whole.pool.active == first.pool.active
            &&& whole.pool.pending == first.pool.pending
            &&& whole.pool.quarantine == first.pool.quarantine
            &&& whole.pool.order == first.pool.order
            &&& whole.stale == leases.skip(bound as int) + first.stale
        }),
{
    let a = RecoveryModel {
        pool: PoolModel::empty().drop_counted(leases.len() - bound),
        seen: Set::empty(),
        seen_v4: Set::empty(),
        seen_v6: Set::empty(),
        stale: leases.skip(bound as int),
    };
    let b = RecoveryModel {
        pool: PoolModel::empty(),
        seen: Set::empty(),
        seen_v4: Set::empty(),
        seen_v6: Set::empty(),
        stale: Seq::empty(),
    };
    assert(leases.take(bound as int).len() == bound);
    lemma_steps_alike(a, b, shape, leases.take(bound as int), now);
}

/// A discarded record that the store did not delete is quarantined with its own
/// device, addresses and deadline, due in a second, unless its session is there
/// already. Only where there is no room for one does opening fail.
pub proof fn law_undeleted_records_are_quarantined(
    m: PoolModel,
    shape: PoolShape,
    failed: Seq<PersistedLease>,
    last: PersistedLease,
    now_ms: u64,
)
    ensures
        m.discarded(shape, Seq::empty(), now_ms) == (true, m),
        ({
            let (fits, b) = m.discarded(shape, failed, now_ms);
            let (fit, a) = m.discarded(shape, failed.push(last), now_ms);
            let key = last.session_id.key;
            &&& fit == (fits && (b.quarantine.contains_key(key) || b.quarantine.len()
                < shape.max_quarantine))
            &&& a.active == b.active
            &&& a.pending == b.pending
            &&& a.parked == b.parked
            &&& fit && !b.quarantine.contains_key(key) ==> {
                &&& a.quarantine == b.quarantine.insert(
                    key,
                    QuarantinedLease {
                        lease: Lease {
                            device_id: last.device_id,
                            addresses: last.pair(),
                            expires_at_ms: last.expires_at_ms,
                        },
                        attempts: 0,
                        next_retry_ms: if now_ms + 1_000 <= u64::MAX {
                            (now_ms + 1_000) as u64
                        } else {
                            u64::MAX
                        },
                    },
                )
                &&& a.order == b.order.push(key)
            }
            &&& !fit || b.quarantine.contains_key(key) ==> a.quarantine == b.quarantine && a.order
                == b.order
        }),
{
    model::lemma_first_backoff();
    assert(failed.push(last).drop_last() =~= failed);
}

/// Records sort by their session, and those of one session by their device.
pub proof fn law_records_are_sorted(leases: Seq<PersistedLease>)
    ensures
        model::leases_sorted(leases) <==> (forall|i: int, j: int|
            0 <= i < j < leases.len() ==> {
                let (a, b) = (#[trigger] leases[i], #[trigger] leases[j]);
                ||| a.session_id.key < b.session_id.key
                ||| a.session_id.key == b.session_id.key && a.device_id.key <= b.device_id.key
            }),
{
    if model::leases_sorted(leases) {
        assert forall|i: int, j: int| 0 <= i < j < leases.len() implies {
            let (a, b) = (#[trigger] leases[i], #[trigger] leases[j]);
            ||| a.session_id.key < b.session_id.key
            ||| a.session_id.key == b.session_id.key && a.device_id.key <= b.device_id.key
        } by {
            assert(!model::sorts_before(leases[j], leases[i]));
        }
    }
}

/// The records whose delete failed are those, in their order, that were not deleted.
pub proof fn law_undeleted_records_are_those_that_failed(
    leases: Seq<PersistedLease>,
    deleted: Seq<bool>,
    last: PersistedLease,
    worked: bool,
)
    requires
        leases.len() == deleted.len(),
    ensures
        pool::undeleted(Seq::empty(), Seq::empty()) == Seq::<PersistedLease>::empty(),
        pool::undeleted(leases.push(last), deleted.push(worked)) == if worked {
            pool::undeleted(leases, deleted)
        } else {
            pool::undeleted(leases, deleted).push(last)
        },
{
    assert(leases.push(last).drop_last() =~= leases);
    lemma_undeleted_prefix(leases, deleted, deleted.push(worked));
}

/// Which records failed depends on their own answers only.
proof fn lemma_undeleted_prefix(leases: Seq<PersistedLease>, a: Seq<bool>, b: Seq<bool>)
    requires
        leases.len() <= a.len(),
        leases.len() <= b.len(),
        forall|i: int| 0 <= i < leases.len() ==> a[i] == b[i],
    ensures
        pool::undeleted(leases, a) == pool::undeleted(leases, b),
    decreases leases.len(),
{
    if leases.len() > 0 {
        lemma_undeleted_prefix(leases.drop_last(), a, b);
    }
}

/// Before its first lease a pool has counted nothing.
pub proof fn law_pools_begin_with_nothing_counted()
    ensures
        ({
            let z = model::PoolMetrics::zero();
            &&& z.allocations == 0
            &&& z.commits == 0
            &&& z.releases == 0
            &&& z.renewals == 0
            &&& z.exhausted == 0
            &&& z.owner_mismatch == 0
            &&& z.pending_expired == 0
            &&& z.active_expired == 0
            &&& z.store_failures == 0
            &&& z.recovered == 0
            &&& z.recovered_dropped == 0
            &&& z.release_retries == 0
            &&& z.release_retry_dropped == 0
            &&& z.quarantine_full == 0
            &&& z.release_retry_deferred == 0
            &&& z.inflight_conflicts == 0
        }),
{
}

/// A pool that opens is made of what its store holds, every record and no other, taken
/// by session and those of one session by device, whatever order they were loaded in.
pub proof fn law_pools_open_on_what_is_stored<S: LeaseStore>(
    shape: PoolShape,
    store: S,
    now: PoolTime,
    pool: AddressPool<S>,
)
    requires
        AddressPool::<S>::recovery_ends(shape, store, now, Ok(pool)),
    ensures
        pool.shape() == shape,
        exists|ordered: Seq<PersistedLease>, deleted: Seq<bool>|
            {
                let rec = model::recovery(shape, ordered, now);
                &&& #[trigger] pool::recovery_fits(shape, ordered, deleted, now)
                &&& store::loads(ordered, store.contents())
                &&& in_session_order(ordered)
                &&& deleted.len() == rec.stale.len()
                &&& pool.model() == rec.pool.discarded(
                    shape,
                    pool::undeleted(rec.stale, deleted),
                    now.monotonic_ms,
                ).1
            },
{
    let (answer, listing) = choose|answer: Result<Seq<PersistedLease>, StoreError>, listing: S|
        {
            &&& #[trigger] store::called(store, StoreAnswer::Loaded(answer), listing)
            &&& AddressPool::<S>::recovery_of(shape, store, answer, listing, now, Ok(pool))
        };
    let loaded = answer->Ok_0;
    let (ordered, deleted, end) = choose|
        ordered: Seq<PersistedLease>,
        deleted: Seq<bool>,
        end: S,
    |
        {
            &&& #[trigger] AddressPool::<S>::recovery_asked(
                shape,
                listing,
                loaded,
                ordered,
                deleted,
                now,
                end,
            )
            &&& pool.shape() == shape
            &&& AddressPool::<S>::recovers(
                shape,
                store.contents(),
                store.answers(),
                loaded,
                ordered,
                deleted,
                now,
                pool,
            )
        };
    law_records_are_sorted(ordered);
    assert(pool::recovery_fits(shape, ordered, deleted, now));
}

/// By session, and by device within one session.
pub open spec fn in_session_order(leases: Seq<PersistedLease>) -> bool {
    forall|i: int, j: int|
        0 <= i < j < leases.len() ==> {
            let (a, b) = (#[trigger] leases[i], #[trigger] leases[j]);
            ||| a.session_id.key < b.session_id.key
            ||| a.session_id.key == b.session_id.key && a.device_id.key <= b.device_id.key
        }
}

} // verus!
