//! The pool's state as mathematics: what every contract of the pool speaks of.
use super::config::{AddressPoolError, PoolShape, IPV6_LEASE_PREFIX_LEN, MAX_LEASES_HARD_CAP};
use super::lease::{AssignedAddresses, LeaseState, PersistedLease};
use crate::arith;
use crate::ids::{DeviceId, SessionId};
use crate::v2::persistence;
use crate::v2::persistence::PoolTime;
use vstd::prelude::*;

verus! {

/// How far past the network address the allocator looks for a free host.
pub const V4_SCAN_LIMIT: u32 = 1_048_576;

/// Bounded durable-delete retry: at most this many quarantined leases are
/// retried per sweep, so a full quarantine never blocks admission.
pub const MAX_RETRY_BATCH: usize = 32;

/// Exponential backoff for quarantined deletes.
pub const RETRY_BASE_MS: u64 = 1_000;

pub const RETRY_CAP_MS: u64 = 60_000;

/// A lease held in memory. `expires_at_ms` is monotonic.
#[derive(Debug, Clone, Copy)]
pub struct Lease {
    pub device_id: DeviceId,
    pub addresses: AssignedAddresses,
    pub expires_at_ms: u64,
}

/// A lease whose durable delete failed. Its addresses are nonreusable until
/// the store delete succeeds.
#[derive(Debug, Clone, Copy)]
pub struct QuarantinedLease {
    pub lease: Lease,
    pub attempts: u64,
    pub next_retry_ms: u64,
}

/// Event counters. They wrap.
#[derive(Debug, Clone, Copy)]
pub struct PoolMetrics {
    pub allocations: u64,
    pub commits: u64,
    pub releases: u64,
    pub renewals: u64,
    pub exhausted: u64,
    pub owner_mismatch: u64,
    pub pending_expired: u64,
    pub active_expired: u64,
    pub store_failures: u64,
    pub recovered: u64,
    pub recovered_dropped: u64,
    pub release_retries: u64,
    pub release_retry_dropped: u64,
    pub quarantine_full: u64,
    pub release_retry_deferred: u64,
    pub inflight_conflicts: u64,
}

impl PoolMetrics {
    /// All counters at zero.
    pub open spec fn zero() -> PoolMetrics {
        PoolMetrics {
            allocations: 0,
            commits: 0,
            releases: 0,
            renewals: 0,
            exhausted: 0,
            owner_mismatch: 0,
            pending_expired: 0,
            active_expired: 0,
            store_failures: 0,
            recovered: 0,
            recovered_dropped: 0,
            release_retries: 0,
            release_retry_dropped: 0,
            quarantine_full: 0,
            release_retry_deferred: 0,
            inflight_conflicts: 0,
        }
    }
}

/// When a quarantined delete is due again:
/// `now + min(60 s, 1 s * 2^min(attempts, 16))`, saturating.
pub open spec fn retry_deadline(now_ms: u64, attempts: u64) -> u64 {
    persistence::saturated(now_ms + retry_backoff(attempts))
}

/// The wait before the next attempt.
pub open spec fn retry_backoff(attempts: u64) -> int {
    if attempts >= 6 {
        RETRY_CAP_MS as int
    } else {
        RETRY_BASE_MS * vstd::arithmetic::power2::pow2(attempts as nat)
    }
}

/// The first wait is a second.
pub proof fn lemma_first_backoff()
    ensures
        retry_backoff(0) == 1_000,
{
    vstd::arithmetic::power2::lemma2_to64();
}

/// What a reservation request comes to before any address is picked.
pub enum ReserveVerdict {
    /// Refused.
    Refuse(AddressPoolError),
    /// The session already holds these.
    Grant(AssignedAddresses),
    /// A new pair is to be picked.
    Allocate,
}

/// What a commit request comes to.
pub enum CommitVerdict {
    /// Refused.
    Refuse(AddressPoolError),
    /// The session already holds these.
    Grant(AssignedAddresses),
    /// The reservation expired and is to be deleted.
    Delete(Lease),
    /// The reservation is to be promoted.
    Persist(Lease),
}

/// What a release request comes to.
pub enum ReleaseVerdict {
    /// Refused.
    Refuse(AddressPoolError),
    /// There is nothing to release.
    Absent,
    /// The lease, a reservation or an active one, is to be deleted.
    Delete { lease: Lease, was_pending: bool },
}

/// What a renewal request comes to.
pub enum RenewVerdict {
    /// Refused.
    Refuse(AddressPoolError),
    /// The lease is to be persisted with a new expiry.
    Persist(Lease),
}

/// A lease that ran out and waits for its durable delete.
#[derive(Debug, Clone, Copy)]
pub struct ExpiredLease {
    pub session_id: SessionId,
    pub lease: Lease,
    pub was_pending: bool,
}

/// A list of expired leases names a session.
pub open spec fn in_batch(batch: Seq<ExpiredLease>, k: u128) -> bool {
    exists|i: int| 0 <= i < batch.len() && (#[trigger] batch[i]).session_id.key == k
}

/// Sessions ascend strictly.
pub open spec fn batch_ascends(batch: Seq<ExpiredLease>) -> bool {
    forall|i: int, j: int|
        0 <= i < j < batch.len() ==> (#[trigger] batch[i]).session_id.key < (
        #[trigger] batch[j]).session_id.key
}

/// A lease in `m` has run out and nothing is under way for it.
pub open spec fn run_out(
    m: Map<u128, Lease>,
    parked: Map<u128, Option<AssignedAddresses>>,
    now_ms: u64,
    k: u128,
) -> bool {
    m.contains_key(k) && !parked.contains_key(k) && now_ms >= m[k].expires_at_ms
}

/// Persisted sessions ascend strictly.
pub open spec fn leases_ascend(leases: Seq<PersistedLease>) -> bool {
    forall|i: int, j: int|
        0 <= i < j < leases.len() ==> (#[trigger] leases[i]).session_id.key < (
        #[trigger] leases[j]).session_id.key
}

/// A record sorts before another: by session, then by device.
pub open spec fn sorts_before(a: PersistedLease, b: PersistedLease) -> bool {
    a.session_id.key < b.session_id.key || a.session_id == b.session_id && a.device_id.key
        < b.device_id.key
}

/// Records are in order of session and device.
pub open spec fn leases_sorted(leases: Seq<PersistedLease>) -> bool {
    forall|i: int, j: int|
        0 <= i < j < leases.len() ==> !sorts_before(#[trigger] leases[j], #[trigger] leases[i])
}

/// The records of one session and device, in order.
pub open spec fn owned_by(
    leases: Seq<PersistedLease>,
    session: SessionId,
    device: DeviceId,
) -> Seq<PersistedLease> {
    leases.filter(|lease: PersistedLease| lease.session_id == session && lease.device_id == device)
}

/// Recovery part way: the pool so far, the sessions and addresses met so far,
/// and the records that were discarded.
pub struct RecoveryModel {
    pub pool: PoolModel,
    pub seen: Set<u128>,
    pub seen_v4: Set<nat>,
    pub seen_v6: Set<nat>,
    pub stale: Seq<PersistedLease>,
}

impl RecoveryModel {
    /// A record that may come back: alive by the wall clock, owned, leasable,
    /// and with a session and addresses not met before.
    pub open spec fn recoverable(
        self,
        shape: PoolShape,
        lease: PersistedLease,
        now: PoolTime,
    ) -> bool {
        &&& lease.expires_at_ms > now.wall_ms
        &&& lease.session_id.key != 0
        &&& lease.device_id.key != 0
        &&& PoolModel::leasable(shape, lease.pair())
        &&& !self.seen.contains(lease.session_id.key)
        &&& !self.seen_v4.contains(lease.pair().v4())
        &&& !self.seen_v6.contains(lease.pair().v6())
    }

    /// The record has room in the map that its state calls for.
    pub open spec fn has_room(self, shape: PoolShape, lease: PersistedLease) -> bool {
        match lease.state {
            LeaseState::Reserved | LeaseState::Active => self.pool.active.len()
                + self.pool.pending.len() < shape.max_leases,
            LeaseState::ReleasePending => self.pool.quarantine.len() < shape.max_quarantine,
        }
    }

    /// The pool with one record restored. What is left of its wall time
    /// becomes a monotonic deadline.
    pub open spec fn restored(
        self,
        shape: PoolShape,
        lease: PersistedLease,
        now: PoolTime,
    ) -> PoolModel {
        let held = Lease {
            device_id: lease.device_id,
            addresses: lease.pair(),
            expires_at_ms: persistence::monotonic_deadline(
                lease.expires_at_ms,
                now.wall_ms,
                now.monotonic_ms,
            ),
        };
        let key = lease.session_id.key;
        let placed = match lease.state {
            LeaseState::Reserved => self.pool.with_pending(key, held),
            LeaseState::Active => self.pool.with_active(key, held),
            LeaseState::ReleasePending => self.pool.enqueue(
                shape,
                key,
                held,
                now.monotonic_ms,
            ).1,
        };
        placed.recovery_counted()
    }

    /// One more record.
    pub open spec fn step(
        self,
        shape: PoolShape,
        lease: PersistedLease,
        now: PoolTime,
    ) -> RecoveryModel {
        if !self.recoverable(shape, lease, now) {
            RecoveryModel {
                pool: self.pool.drop_counted(1),
                stale: self.stale.push(lease),
                ..self
            }
        } else {
            let met = RecoveryModel {
                seen: self.seen.insert(lease.session_id.key),
                seen_v4: self.seen_v4.insert(lease.pair().v4()),
                seen_v6: self.seen_v6.insert(lease.pair().v6()),
                ..self
            };
            if !self.has_room(shape, lease) {
                RecoveryModel {
                    pool: self.pool.drop_counted(1),
                    stale: self.stale.push(lease),
                    ..met
                }
            } else {
                RecoveryModel { pool: self.restored(shape, lease, now), ..met }
            }
        }
    }

    /// A number of records, in order.
    pub open spec fn steps(
        self,
        shape: PoolShape,
        leases: Seq<PersistedLease>,
        now: PoolTime,
    ) -> RecoveryModel
        decreases leases.len(),
    {
        if leases.len() == 0 {
            self
        } else {
            self.steps(shape, leases.drop_last(), now).step(shape, leases.last(), now)
        }
    }
}

/// How many records recovery looks at.
pub open spec fn recovery_bound(shape: PoolShape) -> nat {
    if shape.max_leases + shape.max_quarantine > MAX_LEASES_HARD_CAP {
        MAX_LEASES_HARD_CAP as nat
    } else {
        shape.max_leases + shape.max_quarantine
    }
}

/// What recovery makes of a list of records, in order: those past the bound
/// are discarded unseen, the others are taken one by one.
pub open spec fn recovery(
    shape: PoolShape,
    leases: Seq<PersistedLease>,
    now: PoolTime,
) -> RecoveryModel {
    let bound = recovery_bound(shape);
    if leases.len() > bound {
        RecoveryModel {
            pool: PoolModel::empty().drop_counted(leases.len() - bound),
            seen: Set::empty(),
            seen_v4: Set::empty(),
            seen_v6: Set::empty(),
            stale: leases.skip(bound as int),
        }.steps(shape, leases.take(bound as int), now)
    } else {
        RecoveryModel {
            pool: PoolModel::empty(),
            seen: Set::empty(),
            seen_v4: Set::empty(),
            seen_v6: Set::empty(),
            stale: Seq::empty(),
        }.steps(shape, leases, now)
    }
}

/// The state of a pool. Sessions are known by their keys.
#[verifier::ext_equal]
pub struct PoolModel {
    /// Committed leases.
    pub active: Map<u128, Lease>,
    /// Reservations not yet committed.
    pub pending: Map<u128, Lease>,
    /// Failed durable deletes.
    pub quarantine: Map<u128, QuarantinedLease>,
    /// The order in which failed deletes are retried.
    pub order: Seq<u128>,
    /// Sessions with a store operation under way. Those that are in no map
    /// meanwhile hold their addresses here.
    pub parked: Map<u128, Option<AssignedAddresses>>,
    pub metrics: PoolMetrics,
}

impl PoolModel {
    /// A pool without leases.
    pub open spec fn empty() -> PoolModel {
        PoolModel {
            active: Map::empty(),
            pending: Map::empty(),
            quarantine: Map::empty(),
            order: Seq::empty(),
            parked: Map::empty(),
            metrics: PoolMetrics::zero(),
        }
    }

    /// The addresses that a session holds, in whatever state: those of its
    /// live lease, where it has one.
    pub open spec fn pair_of(self, k: u128) -> Option<AssignedAddresses> {
        if self.active.contains_key(k) {
            Some(self.active[k].addresses)
        } else if self.pending.contains_key(k) {
            Some(self.pending[k].addresses)
        } else if self.parked.contains_key(k) && self.parked[k] is Some {
            self.parked[k]
        } else if self.quarantine.contains_key(k) {
            Some(self.quarantine[k].lease.addresses)
        } else {
            None
        }
    }

    /// The addresses of a session's failed delete, where it has one.
    pub open spec fn stuck_pair(self, k: u128) -> Option<AssignedAddresses> {
        if self.quarantine.contains_key(k) {
            Some(self.quarantine[k].lease.addresses)
        } else {
            None
        }
    }

    /// A session does not have both a live lease and a failed delete. Only a
    /// store that holds two records of one session, and cannot delete the one
    /// that was discarded, gives a session both.
    pub open spec fn apart_at(self, k: u128) -> bool {
        !(self.quarantine.contains_key(k) && self.live(k))
    }

    /// A session with a lease that is neither freed nor quarantined.
    pub open spec fn live(self, k: u128) -> bool {
        ||| self.active.contains_key(k)
        ||| self.pending.contains_key(k)
        ||| self.parked.contains_key(k) && self.parked[k] is Some
    }

    pub open spec fn live_set(self) -> Set<u128> {
        Set::new(|k: u128| self.live(k))
    }

    /// Some session holds this IPv4 host, or could not give it up.
    pub open spec fn blocks_v4(self, host: nat) -> bool {
        ||| exists|k: u128| (#[trigger] self.pair_of(k)) matches Some(pair) && pair.v4() == host
        ||| exists|k: u128| (#[trigger] self.stuck_pair(k)) matches Some(pair) && pair.v4() == host
    }

    /// Some session holds this IPv6 prefix, or could not give it up.
    pub open spec fn blocks_v6(self, prefix: nat) -> bool {
        ||| exists|k: u128| (#[trigger] self.pair_of(k)) matches Some(pair) && pair.v6() == prefix
        ||| exists|k: u128|
            (#[trigger] self.stuck_pair(k)) matches Some(pair) && pair.v6() == prefix
    }

    /// A host that may be leased and that nobody holds.
    pub open spec fn free_v4(self, shape: PoolShape, host: nat) -> bool {
        shape.v4_usable(host) && !self.blocks_v4(host)
    }

    /// A prefix that may be leased and that nobody holds.
    pub open spec fn free_v6(self, shape: PoolShape, prefix: nat) -> bool {
        shape.v6_usable(prefix) && !self.blocks_v6(prefix)
    }

    /// The lowest free host within reach of the allocator.
    pub open spec fn lowest_v4(self, shape: PoolShape, host: nat) -> bool {
        &&& self.free_v4(shape, host)
        &&& host <= shape.network + V4_SCAN_LIMIT
        &&& forall|lower: nat| lower < host ==> !#[trigger] self.free_v4(shape, lower)
    }

    /// No host within reach of the allocator is free.
    pub open spec fn no_v4(self, shape: PoolShape) -> bool {
        forall|host: nat|
            host <= shape.network + V4_SCAN_LIMIT ==> !#[trigger] self.free_v4(shape, host)
    }

    /// The lowest free prefix.
    pub open spec fn lowest_v6(self, shape: PoolShape, prefix: nat) -> bool {
        &&& self.free_v6(shape, prefix)
        &&& forall|lower: nat| lower < prefix ==> !#[trigger] self.free_v6(shape, lower)
    }

    /// No prefix is free.
    pub open spec fn no_v6(self, shape: PoolShape) -> bool {
        forall|prefix: nat| !#[trigger] self.free_v6(shape, prefix)
    }

    /// The pair that the allocator picks next.
    pub open spec fn picks(self, shape: PoolShape, pair: AssignedAddresses) -> bool {
        &&& pair.ipv4_prefix_len == shape.v4_len
        &&& pair.ipv6_prefix_len == IPV6_LEASE_PREFIX_LEN
        &&& self.lowest_v4(shape, pair.v4())
        &&& self.lowest_v6(shape, pair.v6())
    }

    /// The allocator finds no pair.
    pub open spec fn spent(self, shape: PoolShape) -> bool {
        self.no_v4(shape) || self.no_v6(shape)
    }

    /// A pair that the pool may lease.
    pub open spec fn leasable(shape: PoolShape, pair: AssignedAddresses) -> bool {
        &&& pair.ipv4_prefix_len == shape.v4_len
        &&& pair.ipv6_prefix_len == IPV6_LEASE_PREFIX_LEN
        &&& shape.v4_usable(pair.v4())
        &&& shape.v6_usable(pair.v6())
    }

    /// A session has at most one live lease.
    pub open spec fn in_one_place(self) -> bool {
        forall|k: u128| #[trigger] self.placed_once(k)
    }

    pub open spec fn placed_once(self, k: u128) -> bool {
        &&& !(self.active.contains_key(k) && self.pending.contains_key(k))
        &&& self.parked.contains_key(k) ==> match self.parked[k] {
            Some(_) => !self.active.contains_key(k) && !self.pending.contains_key(k),
            None => self.active.contains_key(k) || self.quarantine.contains_key(k),
        }
    }

    /// Live leases carry addresses that the pool may lease, for sessions with
    /// a nonzero identifier.
    pub open spec fn live_leasable(self, shape: PoolShape) -> bool {
        forall|k: u128| #[trigger]
            self.live(k) ==> k != 0 && PoolModel::leasable(shape, self.pair_of(k)->0)
    }

    /// No two live leases share an address.
    pub open spec fn live_distinct(self) -> bool {
        forall|j: u128, k: u128|
            #[trigger] self.live(j) && #[trigger] self.live(k) && j != k ==> self.pair_of(j)->0.v4()
                != self.pair_of(k)->0.v4() && self.pair_of(j)->0.v6() != self.pair_of(k)->0.v6()
    }

    /// The retry order lists each waiting failed delete once. One that does
    /// not wait is with the store.
    pub open spec fn order_sound(self) -> bool {
        &&& self.order.no_duplicates()
        &&& forall|i: int|
            0 <= i < self.order.len() ==> self.quarantine.contains_key(#[trigger] self.order[i])
        &&& forall|k: u128| #[trigger]
            self.quarantine.contains_key(k) ==> self.order.contains(k) || self.with_store(k)
    }

    /// Something is under way for a session that stays in its map.
    pub open spec fn with_store(self, k: u128) -> bool {
        self.parked.contains_key(k) && self.parked[k] is None
    }

    /// What every operation keeps.
    pub open spec fn wf(self, shape: PoolShape) -> bool {
        &&& self.active.dom().finite()
        &&& self.pending.dom().finite()
        &&& self.quarantine.dom().finite()
        &&& self.parked.dom().finite()
        &&& self.in_one_place()
        &&& self.live_leasable(shape)
        &&& self.live_distinct()
        &&& self.live_set().finite()
        &&& self.live_set().len() <= shape.max_leases
        &&& self.quarantine.len() <= shape.max_quarantine
        &&& self.order_sound()
        &&& self.metrics.release_retry_dropped == 0
    }

    // Reservation.

    /// What a reservation request comes to, and the state once that is known.
    pub open spec fn reserve_verdict(
        self,
        shape: PoolShape,
        session: u128,
        device: DeviceId,
        now_ms: u64,
    ) -> (ReserveVerdict, PoolModel) {
        if session == 0 || device.key == 0 {
            (ReserveVerdict::Refuse(AddressPoolError::OwnerMismatch), self)
        } else if self.parked.contains_key(session) {
            (ReserveVerdict::Refuse(AddressPoolError::Store), self.conflicted())
        } else if self.quarantine.contains_key(session) {
            self.owned(self.quarantine[session].lease, device)
        } else if self.active.contains_key(session) {
            self.owned(self.active[session], device)
        } else if self.pending.contains_key(session) && (self.pending[session].device_id != device
            || now_ms < self.pending[session].expires_at_ms) {
            self.owned(self.pending[session], device)
        } else {
            let ready = self.without_stale(session);
            if ready.active.len() + ready.pending.len() + ready.parked.len() >= shape.max_leases {
                (ReserveVerdict::Refuse(AddressPoolError::Exhausted), ready.exhausted())
            } else {
                (ReserveVerdict::Allocate, ready)
            }
        }
    }

    /// A lease is granted again to its own device and to no other.
    pub open spec fn owned(self, lease: Lease, device: DeviceId) -> (ReserveVerdict, PoolModel) {
        if lease.device_id != device {
            (
                ReserveVerdict::Refuse(AddressPoolError::OwnerMismatch),
                PoolModel {
                    metrics: PoolMetrics {
                        owner_mismatch: arith::counted(self.metrics.owner_mismatch, 1),
                        ..self.metrics
                    },
                    ..self
                },
            )
        } else {
            (ReserveVerdict::Grant(lease.addresses), self)
        }
    }

    /// An expired reservation of the session itself makes way.
    pub open spec fn without_stale(self, session: u128) -> PoolModel {
        if self.pending.contains_key(session) {
            PoolModel {
                pending: self.pending.remove(session),
                metrics: PoolMetrics {
                    pending_expired: arith::counted(self.metrics.pending_expired, 1),
                    ..self.metrics
                },
                ..self
            }
        } else {
            self
        }
    }

    pub open spec fn conflicted(self) -> PoolModel {
        PoolModel {
            metrics: PoolMetrics {
                inflight_conflicts: arith::counted(self.metrics.inflight_conflicts, 1),
                ..self.metrics
            },
            ..self
        }
    }

    pub open spec fn exhausted(self) -> PoolModel {
        PoolModel {
            metrics: PoolMetrics {
                exhausted: arith::counted(self.metrics.exhausted, 1),
                ..self.metrics
            },
            ..self
        }
    }

    pub open spec fn store_failed(self) -> PoolModel {
        PoolModel {
            metrics: PoolMetrics {
                store_failures: arith::counted(self.metrics.store_failures, 1),
                ..self.metrics
            },
            ..self
        }
    }

    /// A session's addresses wait for a store operation.
    pub open spec fn park(self, session: u128, pair: AssignedAddresses) -> PoolModel {
        PoolModel { parked: self.parked.insert(session, Some(pair)), ..self }
    }

    /// A session's store operation is over.
    pub open spec fn unpark(self, session: u128) -> PoolModel {
        PoolModel { parked: self.parked.remove(session), ..self }
    }

    /// A reservation is recorded.
    pub open spec fn reserved(self, session: u128, lease: Lease) -> PoolModel {
        PoolModel {
            pending: self.pending.insert(session, lease),
            metrics: PoolMetrics {
                allocations: arith::counted(self.metrics.allocations, 1),
                ..self.metrics
            },
            ..self
        }
    }

    // Quarantine.

    /// A failed durable delete is quarantined, unless the quarantine is full.
    pub open spec fn enqueue(
        self,
        shape: PoolShape,
        session: u128,
        lease: Lease,
        now_ms: u64,
    ) -> (bool, PoolModel) {
        if self.quarantine.contains_key(session) {
            (true, self)
        } else if self.quarantine.len() >= shape.max_quarantine {
            (
                false,
                PoolModel {
                    metrics: PoolMetrics {
                        quarantine_full: arith::counted(self.metrics.quarantine_full, 1),
                        store_failures: arith::counted(self.metrics.store_failures, 1),
                        ..self.metrics
                    },
                    ..self
                },
            )
        } else {
            (
                true,
                PoolModel {
                    quarantine: self.quarantine.insert(
                        session,
                        QuarantinedLease {
                            lease,
                            attempts: 0,
                            next_retry_ms: retry_deadline(now_ms, 0),
                        },
                    ),
                    order: self.order.push(session),
                    ..self
                },
            )
        }
    }

    // Commit.

    /// What a commit request comes to, and the state once that is known.
    pub open spec fn commit_verdict(self, session: u128, now_ms: u64) -> (CommitVerdict, PoolModel) {
        if self.parked.contains_key(session) {
            (CommitVerdict::Refuse(AddressPoolError::Store), self.conflicted())
        } else if self.active.contains_key(session) {
            (CommitVerdict::Grant(self.active[session].addresses), self)
        } else if self.quarantine.contains_key(session) {
            (CommitVerdict::Grant(self.quarantine[session].lease.addresses), self)
        } else if !self.pending.contains_key(session) {
            (CommitVerdict::Refuse(AddressPoolError::UnknownLease), self)
        } else if now_ms >= self.pending[session].expires_at_ms {
            (CommitVerdict::Delete(self.pending[session]), self.taken(session))
        } else {
            (CommitVerdict::Persist(self.pending[session]), self.taken(session))
        }
    }

    /// A live lease leaves its map and waits for a store operation.
    pub open spec fn taken(self, session: u128) -> PoolModel {
        self.dropped(session).park(session, self.pair_of(session)->0)
    }

    /// A live lease leaves its map.
    pub open spec fn dropped(self, session: u128) -> PoolModel {
        PoolModel {
            active: self.active.remove(session),
            pending: self.pending.remove(session),
            ..self
        }
    }

    /// A lease becomes active.
    pub open spec fn with_active(self, session: u128, lease: Lease) -> PoolModel {
        PoolModel { active: self.active.insert(session, lease), ..self }
    }

    /// A lease becomes a reservation.
    pub open spec fn with_pending(self, session: u128, lease: Lease) -> PoolModel {
        PoolModel { pending: self.pending.insert(session, lease), ..self }
    }

    /// One more commit.
    pub open spec fn commit_counted(self) -> PoolModel {
        PoolModel {
            metrics: PoolMetrics {
                commits: arith::counted(self.metrics.commits, 1),
                ..self.metrics
            },
            ..self
        }
    }

    /// One more expired reservation.
    pub open spec fn pending_expiry_counted(self) -> PoolModel {
        PoolModel {
            metrics: PoolMetrics {
                pending_expired: arith::counted(self.metrics.pending_expired, 1),
                ..self.metrics
            },
            ..self
        }
    }

    /// One more release.
    pub open spec fn release_counted(self) -> PoolModel {
        PoolModel {
            metrics: PoolMetrics {
                releases: arith::counted(self.metrics.releases, 1),
                ..self.metrics
            },
            ..self
        }
    }

    /// One more renewal.
    pub open spec fn renewal_counted(self) -> PoolModel {
        PoolModel {
            metrics: PoolMetrics {
                renewals: arith::counted(self.metrics.renewals, 1),
                ..self.metrics
            },
            ..self
        }
    }

    /// An expired reservation after its durable delete: what the commit
    /// returns, and the state. A failed delete is quarantined; when the
    /// quarantine is full the reservation stays.
    pub open spec fn expired_reservation(
        self,
        shape: PoolShape,
        session: u128,
        lease: Lease,
        deleted: bool,
        now_ms: u64,
    ) -> (AddressPoolError, PoolModel) {
        let freed = self.unpark(session).pending_expiry_counted();
        if deleted {
            (AddressPoolError::Expired, freed)
        } else {
            let (fits, queued) = freed.enqueue(shape, session, lease, now_ms);
            if fits {
                (AddressPoolError::Expired, queued.store_failed())
            } else {
                (AddressPoolError::Store, queued.with_pending(session, lease))
            }
        }
    }

    // Release.

    /// What a release request comes to, and the state once that is known.
    pub open spec fn release_verdict(self, session: u128) -> (ReleaseVerdict, PoolModel) {
        if self.parked.contains_key(session) {
            (ReleaseVerdict::Refuse(AddressPoolError::Store), self.conflicted())
        } else if self.quarantine.contains_key(session) {
            (ReleaseVerdict::Absent, self)
        } else if self.pending.contains_key(session) {
            (
                ReleaseVerdict::Delete { lease: self.pending[session], was_pending: true },
                self.taken(session),
            )
        } else if self.active.contains_key(session) {
            (
                ReleaseVerdict::Delete { lease: self.active[session], was_pending: false },
                self.taken(session),
            )
        } else {
            (ReleaseVerdict::Absent, self)
        }
    }

    /// A lease goes back to the map that it came from.
    pub open spec fn restored(self, session: u128, lease: Lease, was_pending: bool) -> PoolModel {
        if was_pending {
            self.with_pending(session, lease)
        } else {
            self.with_active(session, lease)
        }
    }

    /// A released lease after its durable delete: what the release returns,
    /// and the state. A failed delete is quarantined; when the quarantine is
    /// full the lease stays blocked as what it was.
    pub open spec fn released(
        self,
        shape: PoolShape,
        session: u128,
        lease: Lease,
        was_pending: bool,
        deleted: bool,
        now_ms: u64,
    ) -> (Result<bool, AddressPoolError>, PoolModel) {
        let freed = self.unpark(session);
        if deleted {
            (Ok(true), freed.release_counted())
        } else {
            let (fits, queued) = freed.enqueue(shape, session, lease, now_ms);
            if fits {
                (Ok(true), queued.store_failed().release_counted())
            } else {
                (Err(AddressPoolError::Store), queued.restored(session, lease, was_pending))
            }
        }
    }

    /// A release without store I/O: the lease goes straight to quarantine.
    pub open spec fn deferred(self, shape: PoolShape, session: u128) -> (bool, PoolModel) {
        if self.parked.contains_key(session) || self.quarantine.contains_key(session) || !self.live(
            session,
        ) {
            (false, self)
        } else {
            let lease = if self.pending.contains_key(session) {
                self.pending[session]
            } else {
                self.active[session]
            };
            let (fits, queued) = self.dropped(session).enqueue(shape, session, lease, 0);
            if fits {
                (true, queued.release_counted())
            } else {
                (false, queued.restored(session, lease, self.pending.contains_key(session)))
            }
        }
    }

    // Renewal.

    /// What a renewal request comes to, and the state once that is known.
    pub open spec fn renew_verdict(self, session: u128, now_ms: u64) -> (RenewVerdict, PoolModel) {
        if self.parked.contains_key(session) {
            (RenewVerdict::Refuse(AddressPoolError::Store), self.conflicted())
        } else if !self.active.contains_key(session) {
            (RenewVerdict::Refuse(AddressPoolError::UnknownLease), self)
        } else if now_ms >= self.active[session].expires_at_ms {
            (RenewVerdict::Refuse(AddressPoolError::Expired), self)
        } else {
            (
                RenewVerdict::Persist(self.active[session]),
                PoolModel { parked: self.parked.insert(session, None), ..self },
            )
        }
    }

    // Sweep.

    /// A live lease that has run out and that nothing is under way for.
    pub open spec fn expired(self, now_ms: u64, k: u128) -> bool {
        ||| run_out(self.pending, self.parked, now_ms, k)
        ||| run_out(self.active, self.parked, now_ms, k)
    }

    pub open spec fn expired_pending(self, now_ms: u64) -> Set<u128> {
        Set::new(|k: u128| run_out(self.pending, self.parked, now_ms, k))
    }

    pub open spec fn expired_active(self, now_ms: u64) -> Set<u128> {
        Set::new(|k: u128| run_out(self.active, self.parked, now_ms, k))
    }

    /// A list names exactly the expired leases, in session order.
    pub open spec fn lists_expired(self, now_ms: u64, batch: Seq<ExpiredLease>) -> bool {
        &&& batch_ascends(batch)
        &&& forall|i: int| 0 <= i < batch.len() ==> self.lists_one(now_ms, #[trigger] batch[i])
        &&& forall|k: u128| #[trigger] self.expired(now_ms, k) ==> in_batch(batch, k)
    }

    pub open spec fn lists_one(self, now_ms: u64, one: ExpiredLease) -> bool {
        if one.was_pending {
            run_out(self.pending, self.parked, now_ms, one.session_id.key)
                && self.pending[one.session_id.key] == one.lease
        } else {
            run_out(self.active, self.parked, now_ms, one.session_id.key)
                && self.active[one.session_id.key] == one.lease
        }
    }

    /// Every expired lease leaves its map and waits for its durable delete.
    pub open spec fn sweep_taken(self, now_ms: u64) -> PoolModel {
        PoolModel {
            active: self.active.remove_keys(self.expired_active(now_ms)),
            pending: self.pending.remove_keys(self.expired_pending(now_ms)),
            parked: Map::new(
                |k: u128| self.parked.contains_key(k) || self.expired(now_ms, k),
                |k: u128|
                    if self.parked.contains_key(k) {
                        self.parked[k]
                    } else {
                        self.pair_of(k)
                    },
            ),
            metrics: PoolMetrics {
                pending_expired: arith::counted(
                    self.metrics.pending_expired,
                    self.expired_pending(now_ms).len() as int,
                ),
                active_expired: arith::counted(
                    self.metrics.active_expired,
                    self.expired_active(now_ms).len() as int,
                ),
                ..self.metrics
            },
            ..self
        }
    }

    /// One expired lease after its durable delete. A failed delete is
    /// quarantined; when the quarantine is full the lease stays blocked.
    pub open spec fn swept_one(
        self,
        shape: PoolShape,
        one: ExpiredLease,
        deleted: bool,
        now_ms: u64,
    ) -> PoolModel {
        let key = one.session_id.key;
        let freed = self.unpark(key);
        if deleted {
            freed
        } else {
            let (fits, queued) = freed.enqueue(shape, key, one.lease, now_ms);
            if fits {
                queued.store_failed()
            } else if one.was_pending {
                queued.with_pending(key, one.lease)
            } else {
                queued.with_active(key, one.lease)
            }
        }
    }

    /// A number of expired leases after their durable deletes, in order.
    pub open spec fn swept(
        self,
        shape: PoolShape,
        batch: Seq<ExpiredLease>,
        deleted: Seq<bool>,
        now_ms: u64,
    ) -> PoolModel
        decreases batch.len(),
    {
        if batch.len() == 0 {
            self
        } else {
            self.swept(shape, batch.drop_last(), deleted, now_ms).swept_one(
                shape,
                batch.last(),
                deleted[batch.len() - 1],
                now_ms,
            )
        }
    }

    // Retry.

    /// A failed delete is due again.
    pub open spec fn due(self, now_ms: u64, k: u128) -> bool {
        self.quarantine[k].next_retry_ms <= now_ms
    }

    /// Out of a list of failed deletes, the first `limit` that are due and
    /// that nothing is under way for, and the others, both in order.
    pub open spec fn select(
        self,
        now_ms: u64,
        limit: nat,
        ids: Seq<u128>,
    ) -> (Seq<u128>, Seq<u128>)
        decreases ids.len(),
    {
        if ids.len() == 0 {
            (Seq::empty(), Seq::empty())
        } else {
            let (batch, rest) = self.select(now_ms, limit, ids.drop_last());
            if self.ready(now_ms, ids.last()) && batch.len() < limit {
                (batch.push(ids.last()), rest)
            } else {
                (batch, rest.push(ids.last()))
            }
        }
    }

    /// A failed delete is due, and nothing is under way for its session.
    pub open spec fn ready(self, now_ms: u64, k: u128) -> bool {
        !self.parked.contains_key(k) && self.due(now_ms, k)
    }

    /// One that was ready has found the batch full.
    pub open spec fn overfull(self, now_ms: u64, limit: nat, ids: Seq<u128>) -> bool
        decreases ids.len(),
    {
        ids.len() > 0 && (self.overfull(now_ms, limit, ids.drop_last()) || self.ready(
            now_ms,
            ids.last(),
        ) && self.select(now_ms, limit, ids.drop_last()).0.len() >= limit)
    }

    /// How many are deferred: those that are not due, and everything from the
    /// one that found the batch full.
    pub open spec fn put_off(self, now_ms: u64, limit: nat, ids: Seq<u128>) -> nat
        decreases ids.len(),
    {
        if ids.len() == 0 {
            0
        } else {
            let before = self.put_off(now_ms, limit, ids.drop_last());
            if self.overfull(now_ms, limit, ids) || !self.parked.contains_key(ids.last())
                && !self.due(now_ms, ids.last()) {
                before + 1
            } else {
                before
            }
        }
    }

    /// The selected failed deletes wait for the store; the others are counted
    /// as deferred.
    pub open spec fn retry_taken(self, now_ms: u64, limit: nat) -> PoolModel {
        let (batch, rest) = self.select(now_ms, limit, self.order);
        PoolModel {
            order: rest,
            parked: Map::new(
                |k: u128| self.parked.contains_key(k) || batch.contains(k),
                |k: u128|
                    if self.parked.contains_key(k) {
                        self.parked[k]
                    } else {
                        None
                    },
            ),
            metrics: PoolMetrics {
                release_retry_deferred: arith::counted(
                    self.metrics.release_retry_deferred,
                    self.put_off(now_ms, limit, self.order) as int,
                ),
                ..self.metrics
            },
            ..self
        }
    }

    /// One failed delete after another attempt: it leaves, or backs off.
    pub open spec fn retried_one(self, session: u128, deleted: bool, now_ms: u64) -> PoolModel {
        let freed = self.unpark(session);
        if deleted {
            PoolModel {
                quarantine: self.quarantine.remove(session),
                metrics: PoolMetrics {
                    release_retries: arith::counted(self.metrics.release_retries, 1),
                    ..self.metrics
                },
                ..freed
            }
        } else {
            let attempts = persistence::saturated(self.quarantine[session].attempts + 1);
            PoolModel {
                quarantine: self.quarantine.insert(
                    session,
                    QuarantinedLease {
                        lease: self.quarantine[session].lease,
                        attempts,
                        next_retry_ms: retry_deadline(now_ms, attempts),
                    },
                ),
                order: self.order.push(session),
                ..freed
            }
        }
    }

    /// A number of failed deletes after another attempt each, in order.
    pub open spec fn retried(self, batch: Seq<u128>, deleted: Seq<bool>, now_ms: u64) -> PoolModel
        decreases batch.len(),
    {
        if batch.len() == 0 {
            self
        } else {
            self.retried(batch.drop_last(), deleted, now_ms).retried_one(
                batch.last(),
                deleted[batch.len() - 1],
                now_ms,
            )
        }
    }

    // Recovery.

    /// Discarded records.
    pub open spec fn drop_counted(self, n: int) -> PoolModel {
        PoolModel {
            metrics: PoolMetrics {
                recovered_dropped: arith::counted(self.metrics.recovered_dropped, n),
                ..self.metrics
            },
            ..self
        }
    }

    /// One more restored record.
    pub open spec fn recovery_counted(self) -> PoolModel {
        PoolModel {
            metrics: PoolMetrics {
                recovered: arith::counted(self.metrics.recovered, 1),
                ..self.metrics
            },
            ..self
        }
    }

    /// Discarded records whose durable delete failed are quarantined, in
    /// order, until the quarantine is full.
    pub open spec fn discarded(
        self,
        shape: PoolShape,
        failed: Seq<PersistedLease>,
        now_ms: u64,
    ) -> (bool, PoolModel)
        decreases failed.len(),
    {
        if failed.len() == 0 {
            (true, self)
        } else {
            let (fits, queued) = self.discarded(shape, failed.drop_last(), now_ms);
            let lease = failed.last();
            if !fits {
                (false, queued)
            } else {
                let (fits, queued) = queued.enqueue(
                    shape,
                    lease.session_id.key,
                    Lease {
                        device_id: lease.device_id,
                        addresses: lease.pair(),
                        expires_at_ms: lease.expires_at_ms,
                    },
                    now_ms,
                );
                if fits {
                    (true, queued.store_failed())
                } else {
                    (false, queued)
                }
            }
        }
    }

    // What keeps a pool well formed.

    /// Losing leases, or moving them, keeps a pool well formed.
    pub proof fn lemma_shrinks(self, next: PoolModel, shape: PoolShape)
        requires
            self.wf(shape),
            next.active.dom().finite(),
            next.pending.dom().finite(),
            next.quarantine.dom().finite(),
            next.parked.dom().finite(),
            next.in_one_place(),
            forall|k: u128| #[trigger]
                next.live(k) ==> self.live(k) && next.pair_of(k) == self.pair_of(k),
            next.quarantine.len() <= shape.max_quarantine,
            next.order_sound(),
            next.metrics.release_retry_dropped == 0,
        ensures
            next.wf(shape),
    {
        assert forall|k: u128| #[trigger] next.live(k) implies k != 0 && PoolModel::leasable(
            shape,
            next.pair_of(k)->0,
        ) by {
            assert(self.live(k));
        }
        assert forall|j: u128, k: u128|
            #[trigger] next.live(j) && #[trigger] next.live(k) && j != k implies next.pair_of(
            j,
        )->0.v4() != next.pair_of(k)->0.v4() && next.pair_of(j)->0.v6() != next.pair_of(
            k,
        )->0.v6() by {
            assert(self.live(j) && self.live(k));
        }
        assert(next.live_set().subset_of(self.live_set())) by {
            assert forall|k: u128| next.live_set().contains(k) implies self.live_set().contains(
                k,
            ) by {
                assert(next.live(k));
            }
        }
        vstd::set_lib::lemma_len_subset(next.live_set(), self.live_set());
    }

    /// Parking a picked pair for a new session keeps a pool well formed.
    pub proof fn lemma_parks(self, shape: PoolShape, session: u128, pair: AssignedAddresses)
        requires
            self.wf(shape),
            session != 0,
            self.pair_of(session) is None,
            !self.parked.contains_key(session),
            self.picks(shape, pair),
            self.active.len() + self.pending.len() + self.parked.len() < shape.max_leases,
        ensures
            self.park(session, pair).wf(shape),
    {
        let next = self.park(session, pair);
        assert forall|k: u128| #[trigger] next.placed_once(k) by {
            assert(self.placed_once(k));
        }
        assert forall|k: u128| k != session implies #[trigger] next.live(k) == self.live(k)
            && next.pair_of(k) == self.pair_of(k) by {}
        assert(next.pair_of(session) == Some(pair));
        assert forall|k: u128| #[trigger] next.live(k) implies k != 0 && PoolModel::leasable(
            shape,
            next.pair_of(k)->0,
        ) by {
            if k != session {
                assert(self.live(k));
            }
        }
        assert forall|k: u128| k != session && #[trigger] self.live(k) implies self.pair_of(
            k,
        )->0.v4() != pair.v4() && self.pair_of(k)->0.v6() != pair.v6() by {
            assert(self.pair_of(k) is Some);
            assert(!self.blocks_v4(pair.v4()));
            assert(!self.blocks_v6(pair.v6()));
        }
        assert forall|j: u128, k: u128|
            #[trigger] next.live(j) && #[trigger] next.live(k) && j != k implies next.pair_of(
            j,
        )->0.v4() != next.pair_of(k)->0.v4() && next.pair_of(j)->0.v6() != next.pair_of(
            k,
        )->0.v6() by {
            if j != session {
                assert(self.live(j));
            }
            if k != session {
                assert(self.live(k));
            }
        }
        assert(next.live_set() =~= self.live_set().insert(session)) by {
            assert forall|k: u128| next.live_set().contains(k) == self.live_set().insert(
                session,
            ).contains(k) by {
                assert(next.live(k) == (k == session || self.live(k)));
            }
        }
        self.lemma_live_bound();
        assert forall|k: u128| #[trigger] next.quarantine.contains_key(k) implies next.order.contains(
            k,
        ) || next.with_store(k) by {
            assert(self.quarantine.contains_key(k));
        }
        assert forall|i: int| 0 <= i < next.order.len() implies next.quarantine.contains_key(
            #[trigger] next.order[i],
        ) by {
            assert(self.quarantine.contains_key(self.order[i]));
            assert(self.placed_once(session));
        }
    }

    /// There are no more live leases than entries.
    pub proof fn lemma_live_bound(self)
        requires
            self.active.dom().finite(),
            self.pending.dom().finite(),
            self.parked.dom().finite(),
        ensures
            self.live_set().finite(),
            self.live_set().len() <= self.active.len() + self.pending.len() + self.parked.len(),
    {
        let two = self.active.dom().union(self.pending.dom());
        let all = two.union(self.parked.dom());
        vstd::set_lib::lemma_len_union(self.active.dom(), self.pending.dom());
        vstd::set_lib::lemma_len_union(two, self.parked.dom());
        assert(self.live_set().subset_of(all)) by {
            assert forall|k: u128| self.live_set().contains(k) implies all.contains(k) by {
                assert(self.live(k));
            }
        }
        vstd::set_lib::lemma_len_subset(self.live_set(), all);
    }

    /// Counting keeps a pool well formed.
    pub proof fn lemma_counts(self, next: PoolModel, shape: PoolShape)
        requires
            self.wf(shape),
            next == (PoolModel { metrics: next.metrics, ..self }),
            next.metrics.release_retry_dropped == 0,
        ensures
            next.wf(shape),
    {
        assert forall|k: u128| #[trigger] next.placed_once(k) by {
            assert(self.placed_once(k));
        }
        assert forall|k: u128| #[trigger] next.live(k) implies self.live(k) && next.pair_of(k)
            == self.pair_of(k) by {}
        assert(next.order_sound()) by {
            assert(self.order_sound());
        }
        self.lemma_shrinks(next, shape);
    }

    /// Dropping a lease that nothing is under way for keeps a pool well formed.
    pub proof fn lemma_drops(self, shape: PoolShape, session: u128)
        requires
            self.wf(shape),
            !self.parked.contains_key(session),
        ensures
            self.dropped(session).wf(shape),
            !self.dropped(session).live(session),
            self.quarantine.contains_key(session) || self.dropped(session).pair_of(session) is None,
    {
        let next = self.dropped(session);
        assert forall|k: u128| #[trigger] next.placed_once(k) by {
            assert(self.placed_once(k));
        }
        assert forall|k: u128| #[trigger] next.live(k) implies self.live(k) && next.pair_of(k)
            == self.pair_of(k) by {}
        assert(self.placed_once(session));
        self.lemma_order_kept(next);
        self.lemma_shrinks(next, shape);
    }

    /// The retry order stays sound when quarantine, order and parked do not
    /// change.
    proof fn lemma_order_kept(self, next: PoolModel)
        requires
            self.order_sound(),
            next.quarantine == self.quarantine,
            next.order == self.order,
            next.parked == self.parked,
        ensures
            next.order_sound(),
    {
        assert forall|k: u128| #[trigger] next.quarantine.contains_key(k) implies next.order.contains(
            k,
        ) || next.with_store(k) by {
            assert(self.quarantine.contains_key(k));
        }
        assert forall|i: int| 0 <= i < next.order.len() implies next.quarantine.contains_key(
            #[trigger] next.order[i],
        ) by {
            assert(self.quarantine.contains_key(self.order[i]));
        }
    }

    /// Taking a live lease out for a store operation keeps a pool well formed.
    pub proof fn lemma_takes(self, shape: PoolShape, session: u128)
        requires
            self.wf(shape),
            !self.parked.contains_key(session),
            self.live(session),
        ensures
            self.taken(session).wf(shape),
    {
        let next = self.taken(session);
        assert(self.placed_once(session));
        assert forall|k: u128| #[trigger] next.placed_once(k) by {
            assert(self.placed_once(k));
        }
        assert forall|k: u128| #[trigger] next.live(k) implies self.live(k) && next.pair_of(k)
            == self.pair_of(k) by {}
        self.lemma_order_parked(next, session);
        self.lemma_shrinks(next, shape);
    }

    /// The retry order stays sound when something begins or ends for a session
    /// that is not itself retried.
    proof fn lemma_order_parked(self, next: PoolModel, session: u128)
        requires
            self.order_sound(),
            self.quarantine.contains_key(session) ==> self.order.contains(session),
            next.quarantine == self.quarantine,
            next.order == self.order,
            forall|k: u128| k != session ==> #[trigger] next.with_store(k) == self.with_store(k),
        ensures
            next.order_sound(),
    {
        assert forall|k: u128| #[trigger] next.quarantine.contains_key(k) implies next.order.contains(
            k,
        ) || next.with_store(k) by {
            assert(self.quarantine.contains_key(k));
        }
        assert forall|i: int| 0 <= i < next.order.len() implies next.quarantine.contains_key(
            #[trigger] next.order[i],
        ) by {
            assert(self.quarantine.contains_key(self.order[i]));
        }
    }

    /// Ending a store operation of a session that is in no map keeps a pool
    /// well formed.
    pub proof fn lemma_unparks(self, shape: PoolShape, session: u128)
        requires
            self.wf(shape),
            self.parked.contains_key(session),
            self.parked[session] is Some,
        ensures
            self.unpark(session).wf(shape),
            !self.unpark(session).live(session),
            self.quarantine.contains_key(session) || self.unpark(session).pair_of(session) is None,
    {
        let next = self.unpark(session);
        assert(self.placed_once(session));
        assert forall|k: u128| #[trigger] next.placed_once(k) by {
            assert(self.placed_once(k));
        }
        assert forall|k: u128| #[trigger] next.live(k) implies self.live(k) && next.pair_of(k)
            == self.pair_of(k) by {}
        self.lemma_order_parked(next, session);
        self.lemma_shrinks(next, shape);
    }

    /// A parked lease may become active or pending again.
    pub proof fn lemma_places(self, shape: PoolShape, session: u128, lease: Lease, next: PoolModel)
        requires
            self.wf(shape),
            self.parked.contains_key(session),
            self.parked[session] == Some(lease.addresses),
            ({
                ||| next == (PoolModel {
                    metrics: next.metrics,
                    ..self.unpark(session).with_active(session, lease)
                })
                ||| next == (PoolModel {
                    metrics: next.metrics,
                    ..self.unpark(session).with_pending(session, lease)
                })
            }),
            next.metrics.release_retry_dropped == 0,
        ensures
            next.wf(shape),
    {
        assert(self.placed_once(session));
        assert forall|k: u128| #[trigger] next.placed_once(k) by {
            assert(self.placed_once(k));
        }
        assert forall|k: u128| #[trigger] next.live(k) implies self.live(k) && next.pair_of(k)
            == self.pair_of(k) by {}
        self.lemma_order_parked(next, session);
        self.lemma_shrinks(next, shape);
    }

    /// Once the quarantine is full, no more discarded records fit.
    pub proof fn lemma_discard_stops(
        self,
        shape: PoolShape,
        failed: Seq<PersistedLease>,
        now_ms: u64,
        n: int,
    )
        requires
            0 <= n <= failed.len(),
            !self.discarded(shape, failed.take(n), now_ms).0,
        ensures
            !self.discarded(shape, failed, now_ms).0,
        decreases failed.len(),
    {
        if n < failed.len() {
            let front = failed.drop_last();
            assert(front.take(n) =~= failed.take(n));
            self.lemma_discard_stops(shape, front, now_ms, n);
        } else {
            assert(failed.take(n) =~= failed);
        }
    }

    /// Adding a lease that nobody collides with keeps a pool well formed.
    pub proof fn lemma_adds(self, shape: PoolShape, session: u128, lease: Lease, next: PoolModel)
        requires
            self.wf(shape),
            session != 0,
            self.pair_of(session) is None,
            !self.parked.contains_key(session),
            self.parked.len() == 0,
            PoolModel::leasable(shape, lease.addresses),
            !self.blocks_v4(lease.addresses.v4()),
            !self.blocks_v6(lease.addresses.v6()),
            self.active.len() + self.pending.len() < shape.max_leases,
            ({
                ||| next == (PoolModel { metrics: next.metrics, ..self.with_active(session, lease) })
                ||| next == (PoolModel { metrics: next.metrics, ..self.with_pending(session, lease) })
            }),
            next.metrics.release_retry_dropped == 0,
        ensures
            next.wf(shape),
    {
        let pair = lease.addresses;
        assert forall|k: u128| #[trigger] next.placed_once(k) by {
            assert(self.placed_once(k));
        }
        assert forall|k: u128| k != session implies #[trigger] next.live(k) == self.live(k)
            && next.pair_of(k) == self.pair_of(k) by {}
        assert(next.pair_of(session) == Some(pair));
        assert forall|k: u128| #[trigger] next.live(k) implies k != 0 && PoolModel::leasable(
            shape,
            next.pair_of(k)->0,
        ) by {
            if k != session {
                assert(self.live(k));
            }
        }
        assert forall|k: u128| k != session && #[trigger] self.live(k) implies self.pair_of(
            k,
        )->0.v4() != pair.v4() && self.pair_of(k)->0.v6() != pair.v6() by {
            assert(self.pair_of(k) is Some);
        }
        assert forall|j: u128, k: u128|
            #[trigger] next.live(j) && #[trigger] next.live(k) && j != k implies next.pair_of(
            j,
        )->0.v4() != next.pair_of(k)->0.v4() && next.pair_of(j)->0.v6() != next.pair_of(
            k,
        )->0.v6() by {
            if j != session {
                assert(self.live(j));
            }
            if k != session {
                assert(self.live(k));
            }
        }
        assert(next.live_set() =~= self.live_set().insert(session)) by {
            assert forall|k: u128| next.live_set().contains(k) == self.live_set().insert(
                session,
            ).contains(k) by {
                assert(next.live(k) == (k == session || self.live(k)));
            }
        }
        self.lemma_live_bound();
        self.lemma_order_kept(next);
    }

    /// Taking the expired leases out keeps a pool well formed.
    pub proof fn lemma_sweep_takes(self, shape: PoolShape, now_ms: u64, next: PoolModel)
        requires
            self.wf(shape),
            next == self.sweep_taken(now_ms),
            next.active.dom().finite(),
            next.pending.dom().finite(),
            next.parked.dom().finite(),
        ensures
            next.wf(shape),
    {
        assert forall|k: u128| #[trigger] next.placed_once(k) by {
            assert(self.placed_once(k));
        }
        assert forall|k: u128| #[trigger] next.live(k) implies self.live(k) && next.pair_of(k)
            == self.pair_of(k) by {
            assert(self.placed_once(k));
        }
        assert forall|k: u128| #[trigger] next.quarantine.contains_key(k) implies next.order.contains(
            k,
        ) || next.with_store(k) by {
            assert(self.quarantine.contains_key(k));
        }
        assert forall|i: int| 0 <= i < next.order.len() implies next.quarantine.contains_key(
            #[trigger] next.order[i],
        ) by {
            assert(self.quarantine.contains_key(self.order[i]));
            assert(self.placed_once(self.order[i]));
        }
        self.lemma_shrinks(next, shape);
    }

    /// Every lease that a sweep takes out is parked with its addresses.
    pub proof fn lemma_batch_parked(self, now_ms: u64, batch: Seq<ExpiredLease>)
        requires
            self.in_one_place(),
            self.lists_expired(now_ms, batch),
        ensures
            forall|i: int|
                0 <= i < batch.len() ==> self.sweep_taken(now_ms).parked.contains_key(
                    (#[trigger] batch[i]).session_id.key,
                ) && self.sweep_taken(now_ms).parked[batch[i].session_id.key] == Some(
                    batch[i].lease.addresses,
                ),
    {
        assert forall|i: int| 0 <= i < batch.len() implies self.sweep_taken(
            now_ms,
        ).parked.contains_key((#[trigger] batch[i]).session_id.key) && self.sweep_taken(
            now_ms,
        ).parked[batch[i].session_id.key] == Some(batch[i].lease.addresses) by {
            let k = batch[i].session_id.key;
            assert(self.lists_one(now_ms, batch[i]));
            assert(self.placed_once(k));
            assert(self.expired(now_ms, k));
        }
    }

    /// Selecting loses no failed delete and repeats none.
    pub proof fn lemma_select(self, now_ms: u64, limit: nat, ids: Seq<u128>)
        requires
            ids.no_duplicates(),
        ensures
            ({
                let (batch, rest) = self.select(now_ms, limit, ids);
                &&& batch.no_duplicates()
                &&& rest.no_duplicates()
                &&& batch.len() + rest.len() == ids.len()
                &&& batch.len() <= limit
                &&& forall|k: u128| #[trigger] ids.contains(k) <==> batch.contains(k) || rest.contains(k)
                &&& forall|k: u128| #[trigger] batch.contains(k) ==> !rest.contains(k)
                &&& forall|k: u128| #[trigger]
                    batch.contains(k) ==> !self.parked.contains_key(k)
            }),
        decreases ids.len(),
    {
        if ids.len() > 0 {
            let front = ids.drop_last();
            let last = ids.last();
            assert(front.no_duplicates());
            self.lemma_select(now_ms, limit, front);
            let (batch, rest) = self.select(now_ms, limit, front);
            assert(!front.contains(last)) by {
                if front.contains(last) {
                    let i = front.index_of(last);
                    assert(ids[i] == ids[ids.len() - 1]);
                }
            }
            assert(!batch.contains(last) && !rest.contains(last)) by {
                assert(!front.contains(last));
            }
            lemma_pushes(batch, last);
            lemma_pushes(rest, last);
            lemma_pushes(front, last);
            assert(front.push(last) =~= ids);
        } else {
            let (batch, rest) = self.select(now_ms, limit, ids);
            assert(batch =~= Seq::empty() && rest =~= Seq::empty());
        }
    }

    /// Taking the selected failed deletes out keeps a pool well formed.
    pub proof fn lemma_retry_takes(
        self,
        shape: PoolShape,
        now_ms: u64,
        limit: nat,
        next: PoolModel,
    )
        requires
            self.wf(shape),
            next == self.retry_taken(now_ms, limit),
            next.parked.dom().finite(),
        ensures
            next.wf(shape),
    {
        let (batch, rest) = self.select(now_ms, limit, self.order);
        self.lemma_select(now_ms, limit, self.order);
        assert forall|k: u128| batch.contains(k) || rest.contains(k) implies #[trigger] self.quarantine.contains_key(
            k,
        ) by {
            assert(self.order.contains(k));
            let i = self.order.index_of(k);
            assert(self.quarantine.contains_key(self.order[i]));
        }
        assert forall|k: u128| #[trigger] next.placed_once(k) by {
            assert(self.placed_once(k));
            if batch.contains(k) {
                assert(self.quarantine.contains_key(k));
            }
        }
        assert forall|k: u128| #[trigger] next.live(k) implies self.live(k) && next.pair_of(k)
            == self.pair_of(k) by {
            assert(self.placed_once(k));
        }
        assert forall|k: u128| #[trigger] next.quarantine.contains_key(k) implies next.order.contains(
            k,
        ) || next.with_store(k) by {
            assert(self.quarantine.contains_key(k));
            if self.order.contains(k) {
                assert(batch.contains(k) || rest.contains(k));
            }
        }
        assert forall|i: int| 0 <= i < next.order.len() implies next.quarantine.contains_key(
            #[trigger] next.order[i],
        ) by {
            assert(rest.contains(rest[i]));
            assert(self.quarantine.contains_key(rest[i]));
            if batch.contains(rest[i]) {
                assert(!rest.contains(rest[i]));
            }
        }
        self.lemma_shrinks(next, shape);
    }

    /// Another attempt at a failed delete keeps a pool well formed.
    pub proof fn lemma_retries(self, shape: PoolShape, session: u128, deleted: bool, now_ms: u64)
        requires
            self.wf(shape),
            self.quarantine.contains_key(session),
            self.with_store(session),
            !self.order.contains(session),
        ensures
            self.retried_one(session, deleted, now_ms).wf(shape),
    {
        let next = self.retried_one(session, deleted, now_ms);
        assert(self.placed_once(session));
        assert forall|k: u128| #[trigger] next.placed_once(k) by {
            assert(self.placed_once(k));
        }
        assert forall|k: u128| #[trigger] next.live(k) implies self.live(k) && next.pair_of(k)
            == self.pair_of(k) by {
            assert(self.placed_once(k));
        }
        assert(next.quarantine.len() <= self.quarantine.len()) by {
            if !deleted {
                assert(next.quarantine.dom() =~= self.quarantine.dom());
            }
        }
        lemma_pushes(self.order, session);
        assert forall|k: u128| #[trigger] next.quarantine.contains_key(k) implies next.order.contains(
            k,
        ) || next.with_store(k) by {
            assert(self.quarantine.contains_key(k));
        }
        assert forall|i: int| 0 <= i < next.order.len() implies next.quarantine.contains_key(
            #[trigger] next.order[i],
        ) by {
            if i < self.order.len() {
                assert(self.order.contains(self.order[i]));
                assert(self.quarantine.contains_key(self.order[i]));
            }
        }
        self.lemma_shrinks(next, shape);
    }

    /// Marking a session that stays in its map keeps a pool well formed.
    pub proof fn lemma_marks(self, shape: PoolShape, session: u128)
        requires
            self.wf(shape),
            !self.parked.contains_key(session),
            self.active.contains_key(session),
        ensures
            (PoolModel { parked: self.parked.insert(session, None), ..self }).wf(shape),
    {
        let next = PoolModel { parked: self.parked.insert(session, None), ..self };
        assert(self.placed_once(session));
        assert forall|k: u128| #[trigger] next.placed_once(k) by {
            assert(self.placed_once(k));
        }
        assert forall|k: u128| #[trigger] next.live(k) implies self.live(k) && next.pair_of(k)
            == self.pair_of(k) by {}
        self.lemma_order_parked(next, session);
        self.lemma_shrinks(next, shape);
    }

    /// Ending a store operation of an active session keeps a pool well formed.
    pub proof fn lemma_unmarks(self, shape: PoolShape, session: u128)
        requires
            self.wf(shape),
            self.parked.contains_key(session),
            self.parked[session] is None,
            self.active.contains_key(session),
            self.quarantine.contains_key(session) ==> self.order.contains(session),
        ensures
            self.unpark(session).wf(shape),
    {
        let next = self.unpark(session);
        assert(self.placed_once(session));
        assert forall|k: u128| #[trigger] next.placed_once(k) by {
            assert(self.placed_once(k));
        }
        assert forall|k: u128| #[trigger] next.live(k) implies self.live(k) && next.pair_of(k)
            == self.pair_of(k) by {}
        self.lemma_order_parked(next, session);
        self.lemma_shrinks(next, shape);
    }

    /// A new expiry for the same addresses keeps a pool well formed.
    pub proof fn lemma_reexpires(
        self,
        shape: PoolShape,
        session: u128,
        lease: Lease,
        next: PoolModel,
    )
        requires
            self.wf(shape),
            self.active.contains_key(session),
            self.active[session].addresses == lease.addresses,
            next == (PoolModel { metrics: next.metrics, ..self.with_active(session, lease) }),
            next.metrics.release_retry_dropped == 0,
        ensures
            next.wf(shape),
    {
        assert forall|k: u128| #[trigger] next.placed_once(k) by {
            assert(self.placed_once(k));
        }
        assert forall|k: u128| #[trigger] next.live(k) implies self.live(k) && next.pair_of(k)
            == self.pair_of(k) by {}
        self.lemma_order_kept(next);
        self.lemma_shrinks(next, shape);
    }

    /// Quarantining a session keeps a pool well formed.
    pub proof fn lemma_enqueues(self, shape: PoolShape, session: u128, lease: Lease, now_ms: u64)
        requires
            self.wf(shape),
        ensures
            self.enqueue(shape, session, lease, now_ms).1.wf(shape),
    {
        let (fits, next) = self.enqueue(shape, session, lease, now_ms);
        if !fits || self.quarantine.contains_key(session) {
            self.lemma_counts(next, shape);
        } else {
            assert forall|k: u128| #[trigger] next.placed_once(k) by {
                assert(self.placed_once(k));
            }
            assert forall|k: u128| #[trigger] next.live(k) implies self.live(k) && next.pair_of(k)
                == self.pair_of(k) by {}
            assert forall|k: u128| #[trigger]
                next.quarantine.contains_key(k) implies next.order.contains(k)
                || next.with_store(k) by {
                if k == session {
                    assert(next.order[self.order.len() as int] == session);
                } else {
                    assert(self.quarantine.contains_key(k));
                    if self.order.contains(k) {
                        let i = self.order.index_of(k);
                        assert(next.order[i] == k);
                    }
                }
            }
            assert forall|i: int| 0 <= i < next.order.len() implies next.quarantine.contains_key(
                #[trigger] next.order[i],
            ) by {
                if i < self.order.len() {
                    assert(self.quarantine.contains_key(self.order[i]));
                }
            }
            assert(next.order.no_duplicates()) by {
                assert forall|i: int, j: int|
                    0 <= i < next.order.len() && 0 <= j < next.order.len() && i
                        != j implies next.order[i] != next.order[j] by {
                    if i < self.order.len() {
                        assert(self.quarantine.contains_key(self.order[i]));
                    }
                    if j < self.order.len() {
                        assert(self.quarantine.contains_key(self.order[j]));
                    }
                }
            }
            self.lemma_shrinks(next, shape);
        }
    }
}

/// Appending keeps what is there and adds what is new.
pub proof fn lemma_pushes<T>(s: Seq<T>, x: T)
    ensures
        forall|y: T| #[trigger] s.push(x).contains(y) <==> s.contains(y) || y == x,
        s.no_duplicates() && !s.contains(x) ==> s.push(x).no_duplicates(),
{
    let t = s.push(x);
    assert forall|y: T| #[trigger] t.contains(y) <==> s.contains(y) || y == x by {
        if t.contains(y) {
            let i = t.index_of(y);
            if i < s.len() {
                assert(s[i] == y);
            }
        }
        if s.contains(y) {
            let i = s.index_of(y);
            assert(t[i] == y);
        }
        assert(t[s.len() as int] == x);
    }
}

} // verus!
