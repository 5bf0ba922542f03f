//! What a new reservation is given, and when there is nothing left to give.
use super::config::{AddressPoolError, PoolShape};
use super::lease::{AssignedAddresses, LeaseState, PersistedLease};
use super::model::{PoolMetrics, PoolModel};
use super::pool::AddressPool;
use super::store::{LeaseStore, StoreAnswer};
use crate::arith;
use crate::ids::{DeviceId, SessionId};
use crate::v2::persistence::PoolTime;
use vstd::arithmetic::power2;
use vstd::prelude::*;
use vstd::set_lib;

verus! {

/// A session is committed, reserved, under way or quarantined with this host.
pub open spec fn holds_host(m: PoolModel, k: u128, host: nat) -> bool {
    ||| m.active.contains_key(k) && m.active[k].addresses.v4() == host
    ||| m.pending.contains_key(k) && m.pending[k].addresses.v4() == host
    ||| m.parked.contains_key(k) && (m.parked[k] matches Some(pair) && pair.v4() == host)
    ||| m.quarantine.contains_key(k) && m.quarantine[k].lease.addresses.v4() == host
}

/// A session is committed, reserved, under way or quarantined with this prefix.
pub open spec fn holds_prefix(m: PoolModel, k: u128, prefix: nat) -> bool {
    ||| m.active.contains_key(k) && m.active[k].addresses.v6() == prefix
    ||| m.pending.contains_key(k) && m.pending[k].addresses.v6() == prefix
    ||| m.parked.contains_key(k) && (m.parked[k] matches Some(pair) && pair.v6() == prefix)
    ||| m.quarantine.contains_key(k) && m.quarantine[k].lease.addresses.v6() == prefix
}

/// A host that a session asking anew cannot be given: the gateway, a reserved
/// one, or one that another session holds.
pub open spec fn unavailable_host(
    m: PoolModel,
    shape: PoolShape,
    session: u128,
    host: nat,
) -> bool {
    ||| host == shape.gateway
    ||| shape.reserved.contains(host)
    ||| exists|k: u128| k != session && #[trigger] holds_host(m, k, host)
}

/// A `/64` that a session asking anew cannot be given: one that another session
/// holds.
pub open spec fn unavailable_prefix(m: PoolModel, session: u128, prefix: nat) -> bool {
    exists|k: u128| k != session && #[trigger] holds_prefix(m, k, prefix)
}

/// Every host strictly between the network and the broadcast address, as far as
/// the allocator looks, is unavailable.
pub open spec fn hosts_are_spent(m: PoolModel, shape: PoolShape, session: u128) -> bool {
    forall|host: nat|
        shape.network < host < shape.network + power2::pow2((32 - shape.v4_len) as nat) - 1
            && host <= shape.network + 1_048_576 ==> #[trigger] unavailable_host(
            m,
            shape,
            session,
            host,
        )
}

/// Every `/64` of the IPv6 parent but subnet zero is unavailable.
pub open spec fn prefixes_are_spent(m: PoolModel, shape: PoolShape, session: u128) -> bool {
    forall|prefix: nat|
        shape.base < prefix < shape.base + power2::pow2((128 - shape.v6_len) as nat) && prefix
            % power2::pow2(64) == 0 ==> #[trigger] unavailable_prefix(m, session, prefix)
}

/// Nobody but the session itself counts towards the maximum any more: the leases
/// and the store operations of all others.
pub open spec fn others(m: PoolModel, session: u128) -> nat {
    m.active.remove(session).len() + m.pending.remove(session).len() + m.parked.remove(
        session,
    ).len()
}

/// A session asks anew: it has an identifier, holds nothing, and nothing is under
/// way for it. Its own reservation that ran out does not count.
pub open spec fn asks_anew(m: PoolModel, session: u128, device: DeviceId, now_ms: u64) -> bool {
    &&& session != 0
    &&& device.key != 0
    &&& !m.active.contains_key(session)
    &&& !m.parked.contains_key(session)
    &&& !m.quarantine.contains_key(session)
    &&& m.pending.contains_key(session) ==> m.pending[session].device_id == device && now_ms
        >= m.pending[session].expires_at_ms
}

/// What other sessions hold is what is not free once the session's own expired
/// reservation is gone.
proof fn lemma_held_by_others(m: PoolModel, session: u128, device: DeviceId, now_ms: u64)
    requires
        m.in_one_place(),
        asks_anew(m, session, device, now_ms),
    ensures
        forall|host: nat|
            m.without_stale(session).blocks_v4(host) == (exists|k: u128|
                k != session && #[trigger] holds_host(m, k, host)),
        forall|prefix: nat|
            m.without_stale(session).blocks_v6(prefix) == unavailable_prefix(m, session, prefix),
{
    let ready = m.without_stale(session);
    assert forall|host: nat|
        ready.blocks_v4(host) == (exists|k: u128|
            k != session && #[trigger] holds_host(m, k, host)) by {
        if ready.blocks_v4(host) {
            if exists|k: u128|
                (#[trigger] ready.pair_of(k)) matches Some(pair) && pair.v4() == host {
                let k = choose|k: u128|
                    (#[trigger] ready.pair_of(k)) matches Some(pair) && pair.v4() == host;
                assert(holds_host(m, k, host));
            } else {
                let k = choose|k: u128|
                    (#[trigger] ready.stuck_pair(k)) matches Some(pair) && pair.v4() == host;
                assert(holds_host(m, k, host));
            }
        }
        if exists|k: u128| k != session && #[trigger] holds_host(m, k, host) {
            let k = choose|k: u128| k != session && #[trigger] holds_host(m, k, host);
            assert(m.placed_once(k));
            assert(ready.pair_of(k) is Some);
            assert(ready.stuck_pair(k) == m.stuck_pair(k));
            assert(ready.blocks_v4(host));
        }
    }
    assert forall|prefix: nat| ready.blocks_v6(prefix) == unavailable_prefix(m, session, prefix) by {
        if ready.blocks_v6(prefix) {
            if exists|k: u128|
                (#[trigger] ready.pair_of(k)) matches Some(pair) && pair.v6() == prefix {
                let k = choose|k: u128|
                    (#[trigger] ready.pair_of(k)) matches Some(pair) && pair.v6() == prefix;
                assert(holds_prefix(m, k, prefix));
            } else {
                let k = choose|k: u128|
                    (#[trigger] ready.stuck_pair(k)) matches Some(pair) && pair.v6() == prefix;
                assert(holds_prefix(m, k, prefix));
            }
        }
        if unavailable_prefix(m, session, prefix) {
            let k = choose|k: u128| k != session && #[trigger] holds_prefix(m, k, prefix);
            assert(m.placed_once(k));
            assert(ready.pair_of(k) is Some);
            assert(ready.stuck_pair(k) == m.stuck_pair(k));
            assert(ready.blocks_v6(prefix));
        }
    }
}

/// A session is told that the pool is exhausted only where that is so: it asks
/// anew, and the maximum number of leases is held, or every host within reach is
/// the gateway, reserved or held, or every `/64` but the gateway's own is held.
/// Nothing is stored, and no lease changes but the session's own reservation that
/// ran out.
pub proof fn law_exhausted_means_exhausted<S: LeaseStore>(
    before: AddressPool<S>,
    session: u128,
    device: DeviceId,
    now: PoolTime,
    after: AddressPool<S>,
)
    requires
        before.wf(),
        AddressPool::<S>::reserve_ends(
            before,
            session,
            device,
            now,
            Err::<AssignedAddresses, _>(AddressPoolError::Exhausted),
            after,
        ),
    ensures
        asks_anew(before.model(), session, device, now.monotonic_ms),
        ({
            ||| others(before.model(), session) >= before.shape().max_leases
            ||| hosts_are_spent(before.model(), before.shape(), session)
            ||| prefixes_are_spent(before.model(), before.shape(), session)
        }),
        after.model().active == before.model().active,
        after.model().pending == before.model().pending.remove(session),
        after.model().quarantine == before.model().quarantine,
        after.model().order == before.model().order,
        after.model().parked == before.model().parked,
        after.model().metrics == (PoolMetrics {
            exhausted: arith::counted(before.model().metrics.exhausted, 1),
            pending_expired: if before.model().pending.contains_key(session) {
                arith::counted(before.model().metrics.pending_expired, 1)
            } else {
                before.model().metrics.pending_expired
            },
            ..before.model().metrics
        }),
        after.store() == before.store(),
{
    before.lemma_wf();
    let m = before.model();
    let shape = before.shape();
    let ready = m.without_stale(session);
    assert(m.placed_once(session));
    assert(asks_anew(m, session, device, now.monotonic_ms));
    lemma_held_by_others(m, session, device, now.monotonic_ms);
    assert(m.active.remove(session) =~= m.active);
    assert(m.parked.remove(session) =~= m.parked);
    assert(m.pending.remove(session) =~= ready.pending);
    if others(m, session) < shape.max_leases {
        if ready.no_v4(shape) {
            assert forall|host: nat|
                shape.network < host < shape.network + power2::pow2((32 - shape.v4_len) as nat) - 1
                    && host <= shape.network + 1_048_576 implies #[trigger] unavailable_host(
                m,
                shape,
                session,
                host,
            ) by {
                assert(!ready.free_v4(shape, host));
            }
        } else {
            assert forall|prefix: nat|
                shape.base < prefix < shape.base + power2::pow2((128 - shape.v6_len) as nat)
                    && prefix % power2::pow2(64) == 0 implies #[trigger] unavailable_prefix(
                m,
                session,
                prefix,
            ) by {
                assert(!ready.free_v6(shape, prefix));
            }
        }
    }
    if before.store() is Some {
        super::laws::law_logged_calls_are_the_calls(before.store()->0, after.store()->0);
    }
}

/// A session that asks anew, and is not refused, is given the lowest host and the
/// lowest `/64` that are available, and holds them as a reservation until the
/// pending TTL is over. The record of it, with a deadline by the wall clock, is
/// stored first.
pub proof fn law_new_reservations_get_the_lowest_pair<S: LeaseStore>(
    before: AddressPool<S>,
    session: u128,
    device: DeviceId,
    now: PoolTime,
    pair: AssignedAddresses,
    after: AddressPool<S>,
)
    requires
        before.wf(),
        asks_anew(before.model(), session, device, now.monotonic_ms),
        AddressPool::<S>::reserve_ends(
            before,
            session,
            device,
            now,
            Ok::<_, AddressPoolError>(pair),
            after,
        ),
    ensures
        ({
            let m = before.model();
            let shape = before.shape();
            &&& shape.network < pair.v4() < shape.network + power2::pow2(
                (32 - shape.v4_len) as nat,
            ) - 1
            &&& pair.v4() <= shape.network + 1_048_576
            &&& !unavailable_host(m, shape, session, pair.v4())
            &&& forall|lower: nat|
                shape.network < lower < pair.v4() ==> #[trigger] unavailable_host(
                    m,
                    shape,
                    session,
                    lower,
                )
            &&& pair.ipv4_prefix_len == shape.v4_len
            &&& shape.base < pair.v6() < shape.base + power2::pow2((128 - shape.v6_len) as nat)
            &&& pair.v6() % power2::pow2(64) == 0
            &&& !unavailable_prefix(m, session, pair.v6())
            &&& forall|lower: nat|
                shape.base < lower < pair.v6() && lower % power2::pow2(64) == 0
                    ==> #[trigger] unavailable_prefix(m, session, lower)
            &&& pair.ipv6_prefix_len == 64
            &&& others(m, session) < shape.max_leases
            &&& after.model().active == m.active
            &&& after.model().quarantine == m.quarantine
            &&& after.model().order == m.order
            &&& after.model().parked == m.parked
            &&& after.model().pending.remove(session) == m.pending.remove(session)
            &&& after.model().pending.contains_key(session)
            &&& after.model().pending[session].device_id == device
            &&& after.model().pending[session].addresses == pair
            &&& after.model().pending[session].expires_at_ms == if now.monotonic_ms
                + shape.pending_ttl <= u64::MAX {
                now.monotonic_ms + shape.pending_ttl
            } else {
                u64::MAX as int
            }
            &&& after.model().metrics == (PoolMetrics {
                allocations: arith::counted(m.metrics.allocations, 1),
                pending_expired: if m.pending.contains_key(session) {
                    arith::counted(m.metrics.pending_expired, 1)
                } else {
                    m.metrics.pending_expired
                },
                ..m.metrics
            })
            &&& before.stored() matches Some(stored) ==> {
                &&& after.stored() is Some
                &&& after.stored()->0.remove(session) == stored.remove(session)
                &&& after.stored()->0.contains_key(session)
                &&& after.stored()->0[session] == (PersistedLease {
                    session_id: SessionId { key: session },
                    device_id: device,
                    ipv4: pair.ipv4,
                    ipv4_prefix_len: pair.ipv4_prefix_len,
                    ipv6_prefix: pair.ipv6_prefix,
                    ipv6_prefix_len: pair.ipv6_prefix_len,
                    state: LeaseState::Reserved,
                    expires_at_ms: if now.wall_ms + shape.pending_ttl <= u64::MAX {
                        (now.wall_ms + shape.pending_ttl) as u64
                    } else {
                        u64::MAX
                    },
                })
                &&& after.answered() is Some
                &&& after.answered()->0.len() == before.answered()->0.len() + 1
                &&& after.answered()->0.drop_last() == before.answered()->0
                &&& after.answered()->0.last() matches StoreAnswer::Persisted(lease, Ok(_)) && lease
                    == after.stored()->0[session]
            }
        }),
{
    before.lemma_wf();
    let m = before.model();
    let shape = before.shape();
    let ready = m.without_stale(session);
    lemma_held_by_others(m, session, device, now.monotonic_ms);
    assert(m.active.remove(session) =~= m.active);
    assert(m.parked.remove(session) =~= m.parked);
    assert(m.pending.remove(session) =~= ready.pending);
    assert(after.model().pending.remove(session) =~= m.pending.remove(session));
    assert(ready.free_v4(shape, pair.v4()) && ready.free_v6(shape, pair.v6()));
    assert forall|lower: nat| shape.network < lower < pair.v4() implies #[trigger] unavailable_host(
        m,
        shape,
        session,
        lower,
    ) by {
        assert(!ready.free_v4(shape, lower));
    }
    assert forall|lower: nat|
        shape.base < lower < pair.v6() && lower % power2::pow2(
            64,
        ) == 0 implies #[trigger] unavailable_prefix(m, session, lower) by {
        assert(!ready.free_v6(shape, lower));
    }
    if let Some(stored) = before.stored() {
        assert(after.stored()->0.remove(session) =~= stored.remove(session));
    }
}

/// A session that asks anew is given a pair wherever one is available and fewer
/// than the maximum are held, unless there is a store that refuses the record.
/// Only then does it fail otherwise, and leaves every lease as it was.
pub proof fn law_available_pairs_are_given<S: LeaseStore>(
    before: AddressPool<S>,
    session: u128,
    device: DeviceId,
    now: PoolTime,
    result: Result<AssignedAddresses, AddressPoolError>,
    after: AddressPool<S>,
)
    requires
        before.wf(),
        asks_anew(before.model(), session, device, now.monotonic_ms),
        others(before.model(), session) < before.shape().max_leases,
        !hosts_are_spent(before.model(), before.shape(), session),
        !prefixes_are_spent(before.model(), before.shape(), session),
        AddressPool::<S>::reserve_ends(before, session, device, now, result, after),
    ensures
        before.store() is None ==> result is Ok,
        result matches Err(e) ==> {
            &&& e == AddressPoolError::Store
            &&& after.answered() is Some
            &&& after.answered()->0.len() == before.answered()->0.len() + 1
            &&& after.answered()->0.last() matches super::store::StoreAnswer::Persisted(_, answer)
                && answer is Err
            &&& after.stored() == before.stored()
            &&& after.model().active == before.model().active
            &&& after.model().pending == before.model().pending.remove(session)
            &&& after.model().quarantine == before.model().quarantine
            &&& after.model().parked == before.model().parked
            &&& after.model().metrics == (PoolMetrics {
                store_failures: arith::counted(before.model().metrics.store_failures, 1),
                pending_expired: if before.model().pending.contains_key(session) {
                    arith::counted(before.model().metrics.pending_expired, 1)
                } else {
                    before.model().metrics.pending_expired
                },
                ..before.model().metrics
            })
        },
{
    before.lemma_wf();
    let m = before.model();
    let ready = m.without_stale(session);
    assert(m.active.remove(session) =~= m.active);
    assert(m.parked.remove(session) =~= m.parked);
    assert(m.pending.remove(session) =~= ready.pending);
    if result == Err::<AssignedAddresses, _>(AddressPoolError::Exhausted) {
        law_exhausted_means_exhausted(before, session, device, now, after);
    }
}

/// Every live session's host, with the gateway and the reserved ones.
proof fn lemma_hosts_outnumber(m: PoolModel, shape: PoolShape, session: u128)
    requires
        shape.valid(),
        m.wf(shape),
        m.quarantine.dom() == Set::<u128>::empty(),
        !m.active.contains_key(session),
        !m.parked.contains_key(session),
        others(m, session) < shape.max_leases,
    ensures
        !hosts_are_spent(m, shape, session),
{
    let held = m.without_stale(session);
    let holders = held.live_set();
    let f = |k: u128| held.pair_of(k)->0.v4() as int;
    let hosts = holders.map(f);
    let g = |host: nat| host as int;
    let kept = shape.reserved.to_set().map(g);
    let span = power2::pow2((32 - shape.v4_len) as nat) as int;
    let low = shape.network + 1int;
    let high = if span - 1 < 1_048_577 {
        shape.network + span - 1
    } else {
        shape.network + 1_048_577int
    };
    let range = set_lib::set_int_range(low, high);
    lemma_few_holders(m, session);
    set_lib::lemma_map_size_bound(holders, hosts, f);
    vstd::seq_lib::seq_to_set_is_finite(shape.reserved);
    shape.reserved.lemma_cardinality_of_set();
    set_lib::lemma_map_size_bound(shape.reserved.to_set(), kept, g);
    set_lib::lemma_int_range(low, high);
    let taken = hosts.union(kept).insert(shape.gateway as int);
    set_lib::lemma_len_union(hosts, kept);
    if hosts_are_spent(m, shape, session) {
        assert(range.subset_of(taken)) by {
            assert forall|host: int| range.contains(host) implies taken.contains(host) by {
                let n = host as nat;
                assert(unavailable_host(m, shape, session, n));
                if shape.reserved.contains(n) {
                    assert(shape.reserved.to_set().contains(n));
                    assert(kept.contains(g(n)));
                } else if n != shape.gateway {
                    let k = choose|k: u128| k != session && #[trigger] holds_host(m, k, n);
                    assert(m.placed_once(k));
                    assert(held.live(k));
                    assert(holders.contains(k));
                    assert(hosts.contains(f(k)));
                }
            }
        }
        set_lib::lemma_len_subset(range, taken);
    }
}

/// A session that is in no map leaves at most the others live.
proof fn lemma_few_holders(m: PoolModel, session: u128)
    requires
        m.active.dom().finite(),
        m.pending.dom().finite(),
        m.parked.dom().finite(),
        !m.active.contains_key(session),
        !m.parked.contains_key(session),
    ensures
        m.without_stale(session).live_set().finite(),
        m.without_stale(session).live_set().len() <= others(m, session),
{
    let held = m.without_stale(session);
    assert(m.active.remove(session) =~= m.active);
    assert(m.parked.remove(session) =~= m.parked);
    assert(m.pending.remove(session) =~= held.pending);
    held.lemma_live_bound();
}

/// Every live session's `/64`.
proof fn lemma_prefixes_outnumber(m: PoolModel, shape: PoolShape, session: u128)
    requires
        shape.valid(),
        m.wf(shape),
        m.quarantine.dom() == Set::<u128>::empty(),
        !m.active.contains_key(session),
        !m.parked.contains_key(session),
        others(m, session) < shape.max_leases,
    ensures
        !prefixes_are_spent(m, shape, session),
{
    let held = m.without_stale(session);
    let holders = held.live_set();
    let f = |k: u128| shape.subnet_index(held.pair_of(k)->0.v6()) as int;
    let taken = holders.map(f);
    let range = set_lib::set_int_range(1, shape.v6_subnets() as int);
    lemma_few_holders(m, session);
    set_lib::lemma_map_size_bound(holders, taken, f);
    set_lib::lemma_int_range(1, shape.v6_subnets() as int);
    if prefixes_are_spent(m, shape, session) {
        assert(range.subset_of(taken)) by {
            assert forall|n: int| range.contains(n) implies taken.contains(n) by {
                let prefix = shape.v6_subnet(n as nat);
                shape.lemma_subnet_inside(n as nat);
                assert(unavailable_prefix(m, session, prefix));
                let k = choose|k: u128| k != session && #[trigger] holds_prefix(m, k, prefix);
                assert(m.placed_once(k));
                assert(held.live(k));
                assert(held.pair_of(k)->0.v6() == prefix);
                shape.lemma_subnet_of(prefix);
                shape.lemma_subnet_order(n as nat, shape.subnet_index(prefix));
                shape.lemma_subnet_order(shape.subnet_index(prefix), n as nat);
                assert(holders.contains(k));
                assert(taken.contains(f(k)));
            }
        }
        set_lib::lemma_len_subset(range, taken);
    }
}

/// While nothing is quarantined, a pool has a pair for every session that it may
/// lease to: a session that asks anew while fewer than the maximum are held is
/// never told that the pool is exhausted.
pub proof fn law_a_pool_serves_its_maximum<S: LeaseStore>(
    before: AddressPool<S>,
    session: u128,
    device: DeviceId,
    now: PoolTime,
    result: Result<AssignedAddresses, AddressPoolError>,
    after: AddressPool<S>,
)
    requires
        before.wf(),
        asks_anew(before.model(), session, device, now.monotonic_ms),
        before.model().quarantine.dom() == Set::<u128>::empty(),
        others(before.model(), session) < before.shape().max_leases,
        AddressPool::<S>::reserve_ends(before, session, device, now, result, after),
    ensures
        result is Ok || result == Err::<AssignedAddresses, _>(AddressPoolError::Store),
        before.store() is None ==> result is Ok,
{
    before.lemma_wf();
    lemma_hosts_outnumber(before.model(), before.shape(), session);
    lemma_prefixes_outnumber(before.model(), before.shape(), session);
    law_available_pairs_are_given(before, session, device, now, result, after);
}

} // verus!
