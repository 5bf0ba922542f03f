//! The pool's state and its allocator.
use super::config::{
    AddressPoolConfig, AddressPoolError, PoolShape, IPV6_LEASE_PREFIX_LEN, MAX_LEASES_HARD_CAP,
};
use super::lease::{AssignedAddresses, LeaseState, PersistedLease};
use super::model;
use super::model::{
    CommitVerdict, ExpiredLease, Lease, PoolMetrics, PoolModel, QuarantinedLease, RecoveryModel,
    ReleaseVerdict, RenewVerdict, ReserveVerdict, RETRY_BASE_MS, RETRY_CAP_MS, V4_SCAN_LIMIT,
};
use crate::arith::{count, power_of_two};
use crate::encoding;
use crate::encoding::{be_bytes_16, be_bytes_4, be_u128, be_u32};
use crate::id_map;
use crate::id_map::IdMap;
use crate::ids::{DeviceId, SessionId};
use crate::v2::persistence;
use crate::v2::persistence::{monotonic_expiry_from_wall, wall_expiry_from_ttl, PoolTime};
use std::collections::HashSet;
use vstd::arithmetic::power2;
use vstd::prelude::*;

verus! {

/// Leases, quarantine and store operations under way, without the store.
pub struct PoolState {
    pub(crate) config: AddressPoolConfig,
    pub(crate) active: IdMap<Lease>,
    pub(crate) pending: IdMap<Lease>,
    pub(crate) quarantine: IdMap<QuarantinedLease>,
    pub(crate) order: Vec<u128>,
    pub(crate) parked: IdMap<Option<AssignedAddresses>>,
    pub(crate) metrics: PoolMetrics,
}

impl View for PoolState {
    type V = PoolModel;

    closed spec fn view(&self) -> PoolModel {
        PoolModel {
            active: self.active@,
            pending: self.pending@,
            quarantine: self.quarantine@,
            order: self.order@,
            parked: self.parked@,
            metrics: self.metrics,
        }
    }
}

impl PoolState {
    /// What the pool may lease.
    pub closed spec fn shape(&self) -> PoolShape {
        self.config@
    }

    pub closed spec fn wf(&self) -> bool {
        &&& self.config.wf()
        &&& self.active.wf()
        &&& self.pending.wf()
        &&& self.quarantine.wf()
        &&& self.parked.wf()
        &&& self@.wf(self.config@)
    }

    /// What every pool keeps.
    pub proof fn lemma_wf(&self)
        requires
            self.wf(),
        ensures
            self.shape().valid(),
            self@.wf(self.shape()),
    {
    }

    pub fn new(config: AddressPoolConfig) -> (state: Self)
        requires
            config.wf(),
        ensures
            state.wf(),
            state.shape() == config@,
            state@ == PoolModel::empty(),
    {
        let state = PoolState {
            config,
            active: IdMap::new(),
            pending: IdMap::new(),
            quarantine: IdMap::new(),
            order: Vec::new(),
            parked: IdMap::new(),
            metrics: PoolMetrics {
                allocations: 0,
                commits: 0,
                releases: 0,
                renewals: 0,
                exhausted: 0,
                owner_mismatch: 0,
                pending_expired: 0,
                active_expired: 0,
                store_failures: 0,
                recovered: 0,
                recovered_dropped: 0,
                release_retries: 0,
                release_retry_dropped: 0,
                quarantine_full: 0,
                release_retry_deferred: 0,
                inflight_conflicts: 0,
            },
        };
        proof {
            assert(state@ =~= PoolModel::empty());
            assert(state@.live_set() =~= Set::empty());
        }
        state
    }

    /// Every address pair that some session holds.
    fn held_pairs(&self) -> (pairs: Vec<AssignedAddresses>)
        requires
            self.wf(),
        ensures
            forall|i: int| 0 <= i < pairs@.len() ==> held(self@, #[trigger] pairs@[i]),
            forall|k: u128|
                (#[trigger] self@.pair_of(k)) matches Some(pair) ==> pairs@.contains(pair),
            forall|k: u128|
                (#[trigger] self@.stuck_pair(k)) matches Some(pair) ==> pairs@.contains(pair),
    {
        let mut pairs: Vec<AssignedAddresses> = Vec::new();
        let ghost model = self@;
        let list = self.active.entries();
        let mut i: usize = 0;
        while i < list.len()
            invariant
                self.wf(),
                list@ == self.active.listed(),
                model == self@,
                i <= self.active.listed().len(),
                forall|j: int| 0 <= j < pairs@.len() ==> held(model, #[trigger] pairs@[j]),
                forall|j: int|
                    0 <= j < i ==> pairs@.contains(
                        (#[trigger] self.active.listed()[j]).1.addresses,
                    ),
            decreases self.active.listed().len() - i,
        {
            let ghost before = pairs@;
            pairs.push(list[i].1.addresses);
            proof {
                lemma_pushed(before, pairs@.last());
                id_map::lemma_entry(self.active.listed(), i as int);
                let k = self.active.listed()[i as int].0;
                assert(model.pair_of(k) == Some(pairs@.last()));
            }
            i = i + 1;
        }
        let list = self.pending.entries();
        i = 0;
        while i < list.len()
            invariant
                self.wf(),
                list@ == self.pending.listed(),
                model == self@,
                i <= self.pending.listed().len(),
                forall|j: int| 0 <= j < pairs@.len() ==> held(model, #[trigger] pairs@[j]),
                forall|j: int|
                    0 <= j < self.active.listed().len() ==> pairs@.contains(
                        (#[trigger] self.active.listed()[j]).1.addresses,
                    ),
                forall|j: int|
                    0 <= j < i ==> pairs@.contains(
                        (#[trigger] self.pending.listed()[j]).1.addresses,
                    ),
            decreases self.pending.listed().len() - i,
        {
            let ghost before = pairs@;
            pairs.push(list[i].1.addresses);
            proof {
                lemma_pushed(before, pairs@.last());
                id_map::lemma_entry(self.pending.listed(), i as int);
                let k = self.pending.listed()[i as int].0;
                assert(model.placed_once(k));
                assert(model.pair_of(k) == Some(pairs@.last()));
            }
            i = i + 1;
        }
        let list = self.quarantine.entries();
        i = 0;
        while i < list.len()
            invariant
                self.wf(),
                list@ == self.quarantine.listed(),
                model == self@,
                i <= self.quarantine.listed().len(),
                forall|j: int| 0 <= j < pairs@.len() ==> held(model, #[trigger] pairs@[j]),
                forall|j: int|
                    0 <= j < self.active.listed().len() ==> pairs@.contains(
                        (#[trigger] self.active.listed()[j]).1.addresses,
                    ),
                forall|j: int|
                    0 <= j < self.pending.listed().len() ==> pairs@.contains(
                        (#[trigger] self.pending.listed()[j]).1.addresses,
                    ),
                forall|j: int|
                    0 <= j < i ==> pairs@.contains(
                        (#[trigger] self.quarantine.listed()[j]).1.lease.addresses,
                    ),
            decreases self.quarantine.listed().len() - i,
        {
            let ghost before = pairs@;
            pairs.push(list[i].1.lease.addresses);
            proof {
                lemma_pushed(before, pairs@.last());
                id_map::lemma_entry(self.quarantine.listed(), i as int);
                let k = self.quarantine.listed()[i as int].0;
                assert(model.stuck_pair(k) == Some(pairs@.last()));
            }
            i = i + 1;
        }
        let list = self.parked.entries();
        i = 0;
        while i < list.len()
            invariant
                self.wf(),
                list@ == self.parked.listed(),
                model == self@,
                i <= self.parked.listed().len(),
                forall|j: int| 0 <= j < pairs@.len() ==> held(model, #[trigger] pairs@[j]),
                forall|j: int|
                    0 <= j < self.active.listed().len() ==> pairs@.contains(
                        (#[trigger] self.active.listed()[j]).1.addresses,
                    ),
                forall|j: int|
                    0 <= j < self.pending.listed().len() ==> pairs@.contains(
                        (#[trigger] self.pending.listed()[j]).1.addresses,
                    ),
                forall|j: int|
                    0 <= j < self.quarantine.listed().len() ==> pairs@.contains(
                        (#[trigger] self.quarantine.listed()[j]).1.lease.addresses,
                    ),
                forall|j: int|
                    0 <= j < i ==> ((#[trigger] self.parked.listed()[j]).1 matches Some(pair)
                        ==> pairs@.contains(pair)),
            decreases self.parked.listed().len() - i,
        {
            let ghost before = pairs@;
            proof {
                id_map::lemma_entry(self.parked.listed(), i as int);
                assert(model.placed_once(self.parked.listed()[i as int].0));
            }
            if let Some(pair) = list[i].1 {
                pairs.push(pair);
                proof {
                    lemma_pushed(before, pair);
                    let k = self.parked.listed()[i as int].0;
                    assert(model.pair_of(k) == Some(pair));
                }
            }
            i = i + 1;
        }
        proof {
            assert forall|k: u128| (#[trigger] model.pair_of(k)) matches Some(pair) implies pairs@.contains(
                model.pair_of(k)->0,
            ) by {
                if self.active@.contains_key(k) {
                    id_map::lemma_key_entry(self.active.listed(), k);
                } else if self.pending@.contains_key(k) {
                    id_map::lemma_key_entry(self.pending.listed(), k);
                } else if self.parked@.contains_key(k) && self.parked@[k] is Some {
                    id_map::lemma_key_entry(self.parked.listed(), k);
                } else {
                    id_map::lemma_key_entry(self.quarantine.listed(), k);
                }
            }
            assert forall|k: u128| (#[trigger] model.stuck_pair(k)) matches Some(pair) implies pairs@.contains(
                model.stuck_pair(k)->0,
            ) by {
                id_map::lemma_key_entry(self.quarantine.listed(), k);
            }
        }
        pairs
    }

    /// The hosts and the prefixes that some session holds.
    fn used(&self) -> (sets: (HashSet<u32>, HashSet<u128>))
        requires
            self.wf(),
        ensures
            forall|host: u32| #[trigger] sets.0@.contains(host) == self@.blocks_v4(host as nat),
            forall|prefix: u128| #[trigger]
                sets.1@.contains(prefix) == self@.blocks_v6(prefix as nat),
    {
        broadcast use vstd::std_specs::hash::group_hash_axioms;

        let pairs = self.held_pairs();
        let mut sessions: HashSet<u128> = HashSet::new();
        let mut hosts: HashSet<u32> = HashSet::new();
        let mut prefixes: HashSet<u128> = HashSet::new();
        let mut i: usize = 0;
        while i < pairs.len()
            invariant
                i <= pairs@.len(),
                forall|h: u32| #[trigger]
                    hosts@.contains(h) == exists|j: int|
                        0 <= j < i && (#[trigger] pairs@[j]).v4() == h,
                forall|p: u128| #[trigger]
                    prefixes@.contains(p) == exists|j: int|
                        0 <= j < i && (#[trigger] pairs@[j]).v6() == p,
            decreases pairs@.len() - i,
        {
            let pair = pairs[i];
            let host: u32 = be_u32(pair.ipv4);
            let prefix: u128 = be_u128(pair.ipv6_prefix);
            let ghost hosts_before = hosts@;
            let ghost prefixes_before = prefixes@;
            hosts.insert(host);
            prefixes.insert(prefix);
            proof {
                assert forall|h: u32| #[trigger] hosts@.contains(h) == exists|j: int|
                    0 <= j < i + 1 && (#[trigger] pairs@[j]).v4() == h by {
                    if h == host {
                        assert(pairs@[i as int].v4() == h);
                    } else {
                        assert(hosts@.contains(h) == hosts_before.contains(h));
                    }
                }
                assert forall|p: u128| #[trigger] prefixes@.contains(p) == exists|j: int|
                    0 <= j < i + 1 && (#[trigger] pairs@[j]).v6() == p by {
                    if p == prefix {
                        assert(pairs@[i as int].v6() == p);
                    } else {
                        assert(prefixes@.contains(p) == prefixes_before.contains(p));
                    }
                }
            }
            i = i + 1;
        }
        proof {
            assert forall|h: u32| #[trigger] hosts@.contains(h) == self@.blocks_v4(h as nat) by {
                if hosts@.contains(h) {
                    let j = choose|j: int|
                        0 <= j < pairs@.len() && (#[trigger] pairs@[j]).v4() == h;
                    assert(held(self@, pairs@[j]));
                    if exists|k: u128| #[trigger] self@.pair_of(k) == Some(pairs@[j]) {
                        let k = choose|k: u128| #[trigger] self@.pair_of(k) == Some(pairs@[j]);
                        assert(self@.pair_of(k) == Some(pairs@[j]));
                    } else {
                        let k = choose|k: u128| #[trigger] self@.stuck_pair(k) == Some(pairs@[j]);
                        assert(self@.stuck_pair(k) == Some(pairs@[j]));
                    }
                }
                if exists|k: u128|
                    (#[trigger] self@.pair_of(k)) matches Some(pair) && pair.v4() == h as nat {
                    let k = choose|k: u128|
                        (#[trigger] self@.pair_of(k)) matches Some(pair) && pair.v4() == h as nat;
                    assert(pairs@.contains(self@.pair_of(k)->0));
                } else if self@.blocks_v4(h as nat) {
                    let k = choose|k: u128|
                        (#[trigger] self@.stuck_pair(k)) matches Some(pair) && pair.v4() == h as nat;
                    assert(pairs@.contains(self@.stuck_pair(k)->0));
                }
            }
            assert forall|p: u128| #[trigger] prefixes@.contains(p) == self@.blocks_v6(p as nat) by {
                if prefixes@.contains(p) {
                    let j = choose|j: int|
                        0 <= j < pairs@.len() && (#[trigger] pairs@[j]).v6() == p;
                    assert(held(self@, pairs@[j]));
                    if exists|k: u128| #[trigger] self@.pair_of(k) == Some(pairs@[j]) {
                        let k = choose|k: u128| #[trigger] self@.pair_of(k) == Some(pairs@[j]);
                        assert(self@.pair_of(k) == Some(pairs@[j]));
                    } else {
                        let k = choose|k: u128| #[trigger] self@.stuck_pair(k) == Some(pairs@[j]);
                        assert(self@.stuck_pair(k) == Some(pairs@[j]));
                    }
                }
                if exists|k: u128|
                    (#[trigger] self@.pair_of(k)) matches Some(pair) && pair.v6() == p as nat {
                    let k = choose|k: u128|
                        (#[trigger] self@.pair_of(k)) matches Some(pair) && pair.v6() == p as nat;
                    assert(pairs@.contains(self@.pair_of(k)->0));
                } else if self@.blocks_v6(p as nat) {
                    let k = choose|k: u128|
                        (#[trigger] self@.stuck_pair(k)) matches Some(pair) && pair.v6() == p as nat;
                    assert(pairs@.contains(self@.stuck_pair(k)->0));
                }
            }
        }
        (hosts, prefixes)
    }

    /// The lowest free IPv4 host.
    fn find_free_ipv4(&self, used: &HashSet<u32>) -> (found: Option<[u8; 4]>)
        requires
            self.wf(),
            forall|host: u32| #[trigger] used@.contains(host) == self@.blocks_v4(host as nat),
        ensures
            match found {
                Some(bytes) => self@.lowest_v4(self.shape(), encoding::be(bytes@)),
                None => self@.no_v4(self.shape()),
            },
    {
        broadcast use vstd::std_specs::hash::group_hash_axioms;

        let ghost shape = self.config@;
        let network: u32 = self.config.network_number();
        let gateway: u32 = self.config.gateway_number();
        let broadcast_host: u32 = self.config.broadcast_number();
        let mut offset: u32 = 1;
        while offset <= V4_SCAN_LIMIT
            invariant
                self.wf(),
                shape == self.config@,
                shape == self.shape(),
                network == shape.network,
                gateway == shape.gateway,
                broadcast_host == shape.broadcast(),
                network < broadcast_host,
                1 <= offset <= V4_SCAN_LIMIT + 1,
                network + offset <= broadcast_host,
                forall|host: u32| #[trigger] used@.contains(host) == self@.blocks_v4(host as nat),
                forall|lower: nat|
                    lower < network + offset ==> !#[trigger] self@.free_v4(shape, lower),
            decreases V4_SCAN_LIMIT + 1 - offset,
        {
            if network + offset == broadcast_host {
                return None;
            }
            let candidate: u32 = network + offset;
            let taken: bool = candidate == gateway || self.config.is_reserved(candidate)
                || used.contains(&candidate);
            if !taken {
                let bytes = be_bytes_4(candidate);
                proof {
                    encoding::lemma_radix_values();
                    encoding::lemma_be_of_to_be(candidate as nat, 4);
                    assert(self@.free_v4(shape, candidate as nat));
                }
                return Some(bytes);
            }
            assert(!self@.free_v4(shape, candidate as nat));
            offset = offset + 1;
        }
        None
    }

    /// The lowest free IPv6 `/64`.
    fn find_free_ipv6(&self, used: &HashSet<u128>) -> (found: Option<[u8; 16]>)
        requires
            self.wf(),
            forall|prefix: u128| #[trigger] used@.contains(prefix) == self@.blocks_v6(prefix as nat),
        ensures
            match found {
                Some(bytes) => self@.lowest_v6(self.shape(), encoding::be(bytes@)),
                None => self@.no_v6(self.shape()),
            },
    {
        broadcast use vstd::std_specs::hash::group_hash_axioms;

        let ghost shape = self.config@;
        let subnets: u128 = self.config.subnet_count();
        let mut subnet: u128 = 1;
        proof {
            assert forall|lower: nat| lower < shape.v6_subnet(1) implies !#[trigger] self@.free_v6(
                shape,
                lower,
            ) by {
                if shape.v6_usable(lower) {
                    shape.lemma_subnet_of(lower);
                    shape.lemma_subnet_order(1, shape.subnet_index(lower));
                }
            }
        }
        while subnet < subnets
            invariant
                self.wf(),
                shape == self.config@,
                shape == self.shape(),
                subnets == shape.v6_subnets(),
                1 <= subnet <= subnets,
                forall|prefix: u128| #[trigger]
                    used@.contains(prefix) == self@.blocks_v6(prefix as nat),
                forall|lower: nat|
                    lower < shape.v6_subnet(subnet as nat) ==> !#[trigger] self@.free_v6(
                        shape,
                        lower,
                    ),
            decreases subnets - subnet,
        {
            let candidate: u128 = self.config.subnet_prefix(subnet);
            if !used.contains(&candidate) {
                let bytes = be_bytes_16(candidate);
                proof {
                    encoding::lemma_radix_values();
                    encoding::lemma_be_of_to_be(candidate as nat, 16);
                    assert(self@.free_v6(shape, candidate as nat));
                }
                return Some(bytes);
            }
            proof {
                assert forall|lower: nat|
                    lower < shape.v6_subnet((subnet + 1) as nat) implies !#[trigger] self@.free_v6(
                    shape,
                    lower,
                ) by {
                    if shape.v6_usable(lower) {
                        shape.lemma_subnet_of(lower);
                        let t = shape.subnet_index(lower);
                        shape.lemma_subnet_order(t, (subnet + 1) as nat);
                        if t < subnet {
                            shape.lemma_subnet_order(t, subnet as nat);
                        }
                    }
                }
            }
            subnet = subnet + 1;
        }
        proof {
            assert forall|prefix: nat| !#[trigger] self@.free_v6(shape, prefix) by {
                if shape.v6_usable(prefix) {
                    shape.lemma_subnet_of(prefix);
                    shape.lemma_subnet_order(shape.subnet_index(prefix), subnets as nat);
                }
            }
        }
        None
    }

    /// Picks the next address pair.
    pub(crate) fn allocate(&self) -> (result: Option<AssignedAddresses>)
        requires
            self.wf(),
        ensures
            match result {
                Some(pair) => self@.picks(self.shape(), pair),
                None => self@.spent(self.shape()),
            },
    {
        let (hosts, prefixes) = self.used();
        let ipv4 = match self.find_free_ipv4(&hosts) {
            Some(ipv4) => ipv4,
            None => {
                return None;
            },
        };
        let ipv6_prefix = match self.find_free_ipv6(&prefixes) {
            Some(prefix) => prefix,
            None => {
                return None;
            },
        };
        Some(
            AssignedAddresses {
                ipv4,
                ipv4_prefix_len: self.config.ipv4_prefix_len(),
                ipv6_prefix,
                ipv6_prefix_len: IPV6_LEASE_PREFIX_LEN,
            },
        )
    }
}

/// Occupancy and counters of a pool.
#[derive(Debug, Clone, Copy, PartialEq, Eq, Structural)]
pub struct AddressPoolSnapshot {
    pub active: usize,
    pub pending: usize,
    pub pending_releases: usize,
    pub maximum_leases: usize,
    pub maximum_pending_releases: usize,
    pub allocations: u64,
    pub commits: u64,
    pub releases: u64,
    pub renewals: u64,
    pub exhausted: u64,
    pub owner_mismatch: u64,
    pub pending_expired: u64,
    pub active_expired: u64,
    pub store_failures: u64,
    pub recovered: u64,
    pub recovered_dropped: u64,
    pub release_retries: u64,
    /// Always zero: no failed delete is ever dropped.
    pub release_retry_dropped: u64,
    pub quarantine_full: u64,
    pub release_retry_deferred: u64,
    pub inflight_conflicts: u64,
}

impl AddressPoolSnapshot {
    /// The snapshot of a state.
    pub open spec fn of(shape: PoolShape, m: PoolModel) -> AddressPoolSnapshot {
        AddressPoolSnapshot {
            active: m.active.len() as usize,
            pending: m.pending.len() as usize,
            pending_releases: m.quarantine.len() as usize,
            maximum_leases: shape.max_leases as usize,
            maximum_pending_releases: shape.max_quarantine as usize,
            allocations: m.metrics.allocations,
            commits: m.metrics.commits,
            releases: m.metrics.releases,
            renewals: m.metrics.renewals,
            exhausted: m.metrics.exhausted,
            owner_mismatch: m.metrics.owner_mismatch,
            pending_expired: m.metrics.pending_expired,
            active_expired: m.metrics.active_expired,
            store_failures: m.metrics.store_failures,
            recovered: m.metrics.recovered,
            recovered_dropped: m.metrics.recovered_dropped,
            release_retries: m.metrics.release_retries,
            release_retry_dropped: m.metrics.release_retry_dropped,
            quarantine_full: m.metrics.quarantine_full,
            release_retry_deferred: m.metrics.release_retry_deferred,
            inflight_conflicts: m.metrics.inflight_conflicts,
        }
    }
}

/// A reservation that waits for its durable persist.
pub struct ReservePlan {
    pub session_id: SessionId,
    /// The reservation to record once it is persisted.
    pub lease: Lease,
    /// The durable expiry.
    pub wall_expires_at_ms: u64,
}

/// How a reservation goes on.
pub enum ReserveStep {
    /// The session already holds these.
    Granted(AssignedAddresses),
    /// Persist the reservation, then finish it.
    Persist(ReservePlan),
}

/// A reservation that waits to be promoted durably.
pub struct CommitPlan {
    pub session_id: SessionId,
    /// The reservation to restore if the persist fails.
    pub pending: Lease,
    /// The active lease to record once it is persisted.
    pub active: Lease,
    /// The durable expiry.
    pub wall_expires_at_ms: u64,
}

/// A lease that waits for its durable delete.
pub struct DeletePlan {
    pub session_id: SessionId,
    pub lease: Lease,
    /// It was never committed.
    pub was_pending: bool,
}

/// How a commit goes on.
pub enum CommitStep {
    /// The session already holds these.
    Granted(AssignedAddresses),
    /// Persist the active lease, then finish it.
    Persist(CommitPlan),
    /// Delete the expired reservation, then finish it.
    Delete(DeletePlan),
}

/// How a release goes on.
pub enum ReleaseStep {
    /// There is nothing to release.
    Absent,
    /// Delete the lease, then finish it.
    Delete(DeletePlan),
}

/// An active lease that waits for its new expiry to be persisted.
pub struct RenewPlan {
    pub session_id: SessionId,
    /// The lease with its new expiry.
    pub lease: Lease,
    /// The durable expiry.
    pub wall_expires_at_ms: u64,
}

impl ReservePlan {
    /// The record to persist.
    pub open spec fn record_spec(&self) -> PersistedLease {
        PersistedLease::of(
            self.session_id.key,
            self.lease.device_id,
            self.lease.addresses,
            LeaseState::Reserved,
            self.wall_expires_at_ms,
        )
    }

    pub fn record(&self) -> (lease: PersistedLease)
        ensures
            lease == self.record_spec(),
    {
        PersistedLease::record(
            self.session_id,
            self.lease.device_id,
            self.lease.addresses,
            LeaseState::Reserved,
            self.wall_expires_at_ms,
        )
    }
}

impl CommitPlan {
    /// The record to persist.
    pub open spec fn record_spec(&self) -> PersistedLease {
        PersistedLease::of(
            self.session_id.key,
            self.active.device_id,
            self.active.addresses,
            LeaseState::Active,
            self.wall_expires_at_ms,
        )
    }

    pub fn record(&self) -> (lease: PersistedLease)
        ensures
            lease == self.record_spec(),
    {
        PersistedLease::record(
            self.session_id,
            self.active.device_id,
            self.active.addresses,
            LeaseState::Active,
            self.wall_expires_at_ms,
        )
    }
}

impl RenewPlan {
    /// The record to persist.
    pub open spec fn record_spec(&self) -> PersistedLease {
        PersistedLease::of(
            self.session_id.key,
            self.lease.device_id,
            self.lease.addresses,
            LeaseState::Active,
            self.wall_expires_at_ms,
        )
    }

    pub fn record(&self) -> (lease: PersistedLease)
        ensures
            lease == self.record_spec(),
    {
        PersistedLease::record(
            self.session_id,
            self.lease.device_id,
            self.lease.addresses,
            LeaseState::Active,
            self.wall_expires_at_ms,
        )
    }
}

impl PoolState {
    /// First half of a reservation: everything but the durable persist.
    ///
    /// The same session plus device receives the same addresses; a different
    /// device receives `OwnerMismatch`. A session with a store operation under
    /// way fails closed with `Store`. A new pair is parked until
    /// [`PoolState::finish_reserve`], so nobody else is given it meanwhile.
    pub fn begin_reserve(
        &mut self,
        session_id: SessionId,
        device_id: DeviceId,
        now: PoolTime,
    ) -> (result: Result<ReserveStep, AddressPoolError>)
        requires
            old(self).wf(),
        ensures
            final(self).wf(),
            final(self).shape() == old(self).shape(),
            ({
                let (verdict, ready) = old(self)@.reserve_verdict(
                    old(self).shape(),
                    session_id.key,
                    device_id,
                    now.monotonic_ms,
                );
                match verdict {
                    ReserveVerdict::Refuse(e) => result == Err::<ReserveStep, _>(e) && final(self)@
                        == ready,
                    ReserveVerdict::Grant(pair) => result == Ok::<_, AddressPoolError>(
                        ReserveStep::Granted(pair),
                    ) && final(self)@ == ready,
                    ReserveVerdict::Allocate => match result {
                        Ok(ReserveStep::Persist(plan)) => {
                            &&& ready.picks(old(self).shape(), plan.lease.addresses)
                            &&& plan.session_id == session_id
                            &&& plan.lease.device_id == device_id
                            &&& plan.lease.expires_at_ms == persistence::saturated(
                                now.monotonic_ms + old(self).shape().pending_ttl,
                            )
                            &&& plan.wall_expires_at_ms == persistence::saturated(
                                now.wall_ms + old(self).shape().pending_ttl,
                            )
                            &&& final(self)@ == ready.park(session_id.key, plan.lease.addresses)
                        },
                        Err(e) => e == AddressPoolError::Exhausted && ready.spent(old(self).shape())
                            && final(self)@ == ready.exhausted(),
                        _ => false,
                    },
                }
            }),
    {
        let ghost before = self@;
        let ghost shape = self.config@;
        let key: u128 = session_id.key;
        if key == 0 || device_id.key == 0 {
            return Err(AddressPoolError::OwnerMismatch);
        }
        if self.parked.contains(key) {
            self.metrics.inflight_conflicts = count(self.metrics.inflight_conflicts, 1);
            proof {
                before.lemma_counts(self@, shape);
            }
            return Err(AddressPoolError::Store);
        }
        let mut known: Option<Lease> = None;
        if let Some(quarantined) = self.quarantine.get(key) {
            known = Some(quarantined.lease);
        } else if let Some(active) = self.active.get(key) {
            known = Some(*active);
        } else if let Some(pending) = self.pending.get(key) {
            if pending.device_id != device_id || now.monotonic_ms < pending.expires_at_ms {
                known = Some(*pending);
            }
        }
        if let Some(lease) = known {
            if lease.device_id != device_id {
                self.metrics.owner_mismatch = count(self.metrics.owner_mismatch, 1);
                proof {
                    before.lemma_counts(self@, shape);
                }
                return Err(AddressPoolError::OwnerMismatch);
            }
            return Ok(ReserveStep::Granted(lease.addresses));
        }
        if self.pending.contains(key) {
            let _stale = self.pending.remove(key);
            self.metrics.pending_expired = count(self.metrics.pending_expired, 1);
        }
        let ghost ready = self@;
        proof {
            before.lemma_drops(shape, key);
            assert(before.dropped(key).active =~= before.active);
            if !before.pending.contains_key(key) {
                assert(before.dropped(key).pending =~= before.pending);
            }
            before.dropped(key).lemma_counts(ready, shape);
            assert(ready == before.without_stale(key));
        }
        let held: usize = self.active.len().saturating_add(self.pending.len()).saturating_add(
            self.parked.len(),
        );
        if held >= self.config.maximum_leases() {
            self.metrics.exhausted = count(self.metrics.exhausted, 1);
            proof {
                ready.lemma_counts(self@, shape);
            }
            return Err(AddressPoolError::Exhausted);
        }
        let addresses = match self.allocate() {
            Some(addresses) => addresses,
            None => {
                self.metrics.exhausted = count(self.metrics.exhausted, 1);
                proof {
                    ready.lemma_counts(self@, shape);
                }
                return Err(AddressPoolError::Exhausted);
            },
        };
        self.parked.insert(key, Some(addresses));
        proof {
            ready.lemma_parks(shape, key, addresses);
            assert(self@ =~= ready.park(key, addresses));
        }
        Ok(
            ReserveStep::Persist(
                ReservePlan {
                    session_id,
                    lease: Lease {
                        device_id,
                        addresses,
                        expires_at_ms: now.monotonic_ms.saturating_add(
                            self.config.pending_ttl_ms(),
                        ),
                    },
                    wall_expires_at_ms: wall_expiry_from_ttl(
                        now.wall_ms,
                        self.config.pending_ttl_ms(),
                    ),
                },
            ),
        )
    }

    /// Second half of a reservation, once the store has answered.
    pub fn finish_reserve(&mut self, plan: ReservePlan, persisted: bool) -> (result: Result<
        AssignedAddresses,
        AddressPoolError,
    >)
        requires
            old(self).wf(),
            old(self)@.parked.contains_key(plan.session_id.key),
            old(self)@.parked[plan.session_id.key] == Some(plan.lease.addresses),
        ensures
            final(self).wf(),
            final(self).shape() == old(self).shape(),
            ({
                let freed = old(self)@.unpark(plan.session_id.key);
                if persisted {
                    result == Ok::<_, AddressPoolError>(plan.lease.addresses) && final(self)@
                        == freed.reserved(plan.session_id.key, plan.lease)
                } else {
                    result == Err::<AssignedAddresses, _>(AddressPoolError::Store) && final(self)@
                        == freed.store_failed()
                }
            }),
    {
        let ghost before = self@;
        let ghost shape = self.config@;
        let key: u128 = plan.session_id.key;
        let _parked = self.parked.remove(key);
        let ghost freed = self@;
        proof {
            before.lemma_unparks(shape, key);
            assert(freed =~= before.unpark(key));
        }
        if !persisted {
            self.metrics.store_failures = count(self.metrics.store_failures, 1);
            proof {
                freed.lemma_counts(self@, shape);
            }
            return Err(AddressPoolError::Store);
        }
        self.pending.insert(key, plan.lease);
        self.metrics.allocations = count(self.metrics.allocations, 1);
        proof {
            before.lemma_places(shape, key, plan.lease, self@);
        }
        Ok(plan.lease.addresses)
    }

    /// First half of a commit: everything but the store operation.
    ///
    /// Idempotent when the session is already active or quarantined. An
    /// expired reservation is to be deleted durably, any other is to be
    /// persisted as active.
    pub fn begin_commit(&mut self, session_id: SessionId, now: PoolTime) -> (result: Result<
        CommitStep,
        AddressPoolError,
    >)
        requires
            old(self).wf(),
        ensures
            final(self).wf(),
            final(self).shape() == old(self).shape(),
            ({
                let (verdict, taken) = old(self)@.commit_verdict(session_id.key, now.monotonic_ms);
                &&& final(self)@ == taken
                &&& match verdict {
                    CommitVerdict::Refuse(e) => result == Err::<CommitStep, _>(e),
                    CommitVerdict::Grant(pair) => result == Ok::<_, AddressPoolError>(
                        CommitStep::Granted(pair),
                    ),
                    CommitVerdict::Delete(lease) => {
                        result matches Ok(CommitStep::Delete(plan)) && plan.session_id == session_id
                            && plan.lease == lease
                    },
                    CommitVerdict::Persist(lease) => {
                        &&& result matches Ok(CommitStep::Persist(plan))
                        &&& plan.session_id == session_id
                        &&& plan.pending == lease
                        &&& plan.active == (Lease {
                            expires_at_ms: persistence::saturated(
                                now.monotonic_ms + old(self).shape().lease_ttl,
                            ),
                            ..lease
                        })
                        &&& plan.wall_expires_at_ms == persistence::saturated(
                            now.wall_ms + old(self).shape().lease_ttl,
                        )
                    },
                }
            }),
    {
        let ghost before = self@;
        let ghost shape = self.config@;
        let key: u128 = session_id.key;
        if self.parked.contains(key) {
            self.metrics.inflight_conflicts = count(self.metrics.inflight_conflicts, 1);
            proof {
                before.lemma_counts(self@, shape);
            }
            return Err(AddressPoolError::Store);
        }
        if let Some(active) = self.active.get(key) {
            return Ok(CommitStep::Granted(active.addresses));
        }
        if let Some(quarantined) = self.quarantine.get(key) {
            return Ok(CommitStep::Granted(quarantined.lease.addresses));
        }
        let pending = match self.pending.remove(key) {
            Some(pending) => pending,
            None => {
                assert(self@.pending =~= before.pending);
                return Err(AddressPoolError::UnknownLease);
            },
        };
        self.parked.insert(key, Some(pending.addresses));
        proof {
            before.lemma_takes(shape, key);
            assert(self@.active =~= before.active.remove(key));
            assert(self@ =~= before.taken(key));
        }
        if now.monotonic_ms >= pending.expires_at_ms {
            return Ok(CommitStep::Delete(DeletePlan { session_id, lease: pending, was_pending: true }));
        }
        Ok(
            CommitStep::Persist(
                CommitPlan {
                    session_id,
                    pending,
                    active: Lease {
                        device_id: pending.device_id,
                        addresses: pending.addresses,
                        expires_at_ms: now.monotonic_ms.saturating_add(self.config.lease_ttl_ms()),
                    },
                    wall_expires_at_ms: wall_expiry_from_ttl(
                        now.wall_ms,
                        self.config.lease_ttl_ms(),
                    ),
                },
            ),
        )
    }

    /// Second half of a promotion, once the store has answered. A failed
    /// persist restores the reservation.
    pub fn finish_commit(&mut self, plan: CommitPlan, persisted: bool) -> (result: Result<
        AssignedAddresses,
        AddressPoolError,
    >)
        requires
            old(self).wf(),
            old(self)@.parked.contains_key(plan.session_id.key),
            old(self)@.parked[plan.session_id.key] == Some(plan.pending.addresses),
            plan.active.addresses == plan.pending.addresses,
        ensures
            final(self).wf(),
            final(self).shape() == old(self).shape(),
            ({
                let freed = old(self)@.unpark(plan.session_id.key);
                if persisted {
                    result == Ok::<_, AddressPoolError>(plan.active.addresses) && final(self)@
                        == freed.with_active(plan.session_id.key, plan.active).commit_counted()
                } else {
                    result == Err::<AssignedAddresses, _>(AddressPoolError::Store) && final(self)@
                        == freed.with_pending(plan.session_id.key, plan.pending).store_failed()
                }
            }),
    {
        let ghost before = self@;
        let ghost shape = self.config@;
        let key: u128 = plan.session_id.key;
        let _parked = self.parked.remove(key);
        if !persisted {
            self.pending.insert(key, plan.pending);
            self.metrics.store_failures = count(self.metrics.store_failures, 1);
            proof {
                before.lemma_places(shape, key, plan.pending, self@);
            }
            return Err(AddressPoolError::Store);
        }
        self.active.insert(key, plan.active);
        self.metrics.commits = count(self.metrics.commits, 1);
        proof {
            before.lemma_places(shape, key, plan.active, self@);
        }
        Ok(plan.active.addresses)
    }

    /// Quarantines a failed durable delete. Never drops on overflow: a full
    /// quarantine is reported and counted, and the caller keeps the lease
    /// blocked.
    fn enqueue_release(&mut self, session: u128, lease: Lease, now_ms: u64) -> (fits: bool)
        requires
            old(self).wf(),
        ensures
            final(self).wf(),
            final(self).shape() == old(self).shape(),
            (fits, final(self)@) == old(self)@.enqueue(old(self).shape(), session, lease, now_ms),
    {
        let ghost before = self@;
        let ghost shape = self.config@;
        proof {
            before.lemma_enqueues(shape, session, lease, now_ms);
        }
        if self.quarantine.contains(session) {
            return true;
        }
        if self.quarantine.len() >= self.config.maximum_pending_releases() {
            self.metrics.quarantine_full = count(self.metrics.quarantine_full, 1);
            self.metrics.store_failures = count(self.metrics.store_failures, 1);
            return false;
        }
        self.order.push(session);
        let entry = QuarantinedLease {
            lease,
            attempts: 0,
            next_retry_ms: next_retry_deadline(now_ms, 0),
        };
        self.quarantine.insert(session, entry);
        assert(self@ =~= before.enqueue(shape, session, lease, now_ms).1);
        true
    }

    /// Second half of an expired commit, once the store has answered. A failed
    /// delete is quarantined; when the quarantine is full the reservation
    /// stays and the commit fails with `Store` instead of `Expired`.
    pub fn finish_expired(&mut self, plan: DeletePlan, deleted: bool, now_ms: u64) -> (e:
        AddressPoolError)
        requires
            old(self).wf(),
            old(self)@.parked.contains_key(plan.session_id.key),
            old(self)@.parked[plan.session_id.key] == Some(plan.lease.addresses),
        ensures
            final(self).wf(),
            final(self).shape() == old(self).shape(),
            (e, final(self)@) == old(self)@.expired_reservation(
                old(self).shape(),
                plan.session_id.key,
                plan.lease,
                deleted,
                now_ms,
            ),
    {
        let ghost before = self@;
        let ghost shape = self.config@;
        let key: u128 = plan.session_id.key;
        let _parked = self.parked.remove(key);
        self.metrics.pending_expired = count(self.metrics.pending_expired, 1);
        let ghost freed = self@;
        proof {
            before.lemma_unparks(shape, key);
            before.unpark(key).lemma_counts(freed, shape);
            assert(freed =~= before.unpark(key).pending_expiry_counted());
        }
        if !deleted {
            if !self.enqueue_release(key, plan.lease, now_ms) {
                let ghost queued = self@;
                self.pending.insert(key, plan.lease);
                proof {
                    before.lemma_places(shape, key, plan.lease, self@);
                }
                return AddressPoolError::Store;
            }
            let ghost queued = self@;
            self.metrics.store_failures = count(self.metrics.store_failures, 1);
            proof {
                queued.lemma_counts(self@, shape);
            }
        }
        AddressPoolError::Expired
    }

    /// First half of a release: takes the lease out and parks it.
    pub fn begin_release(&mut self, session_id: SessionId) -> (result: Result<
        ReleaseStep,
        AddressPoolError,
    >)
        requires
            old(self).wf(),
        ensures
            final(self).wf(),
            final(self).shape() == old(self).shape(),
            ({
                let (verdict, taken) = old(self)@.release_verdict(session_id.key);
                &&& final(self)@ == taken
                &&& match verdict {
                    ReleaseVerdict::Refuse(e) => result == Err::<ReleaseStep, _>(e),
                    ReleaseVerdict::Absent => result == Ok::<_, AddressPoolError>(
                        ReleaseStep::Absent,
                    ),
                    ReleaseVerdict::Delete { lease, was_pending } => {
                        result matches Ok(ReleaseStep::Delete(plan)) && plan.session_id
                            == session_id && plan.lease == lease && plan.was_pending == was_pending
                    },
                }
            }),
    {
        let ghost before = self@;
        let ghost shape = self.config@;
        let key: u128 = session_id.key;
        if self.parked.contains(key) {
            self.metrics.inflight_conflicts = count(self.metrics.inflight_conflicts, 1);
            proof {
                before.lemma_counts(self@, shape);
            }
            return Err(AddressPoolError::Store);
        }
        if self.quarantine.contains(key) {
            return Ok(ReleaseStep::Absent);
        }
        let (lease, was_pending) = match self.take(key) {
            Some(taken) => taken,
            None => {
                return Ok(ReleaseStep::Absent);
            },
        };
        self.parked.insert(key, Some(lease.addresses));
        proof {
            before.lemma_takes(shape, key);
            assert(self@ =~= before.taken(key));
        }
        Ok(ReleaseStep::Delete(DeletePlan { session_id, lease, was_pending }))
    }

    /// Takes a reserved or active lease out of its map, and says whether it was
    /// reserved only.
    fn take(&mut self, key: u128) -> (taken: Option<(Lease, bool)>)
        requires
            old(self).wf(),
            !old(self)@.parked.contains_key(key),
        ensures
            final(self).wf(),
            final(self).shape() == old(self).shape(),
            final(self)@ == old(self)@.dropped(key),
            match taken {
                Some((lease, was_pending)) => old(self)@.live(key) && was_pending == old(
                    self,
                )@.pending.contains_key(key) && lease == if old(self)@.pending.contains_key(
                    key,
                ) {
                    old(self)@.pending[key]
                } else {
                    old(self)@.active[key]
                } && old(self)@.pair_of(key) == Some(lease.addresses),
                None => !old(self)@.live(key),
            },
    {
        let ghost before = self@;
        proof {
            before.lemma_drops(self.config@, key);
            assert(before.placed_once(key));
        }
        if let Some(pending) = self.pending.remove(key) {
            assert(self@.active =~= before.active.remove(key));
            assert(self@ =~= before.dropped(key));
            return Some((pending, true));
        }
        if let Some(active) = self.active.remove(key) {
            assert(self@ =~= before.dropped(key));
            return Some((active, false));
        }
        assert(self@ =~= before.dropped(key));
        None
    }

    /// Second half of a release, once the store has answered.
    pub fn finish_release(&mut self, plan: DeletePlan, deleted: bool, now_ms: u64) -> (result:
        Result<bool, AddressPoolError>)
        requires
            old(self).wf(),
            old(self)@.parked.contains_key(plan.session_id.key),
            old(self)@.parked[plan.session_id.key] == Some(plan.lease.addresses),
        ensures
            final(self).wf(),
            final(self).shape() == old(self).shape(),
            (result, final(self)@) == old(self)@.released(
                old(self).shape(),
                plan.session_id.key,
                plan.lease,
                plan.was_pending,
                deleted,
                now_ms,
            ),
    {
        let ghost before = self@;
        let ghost shape = self.config@;
        let key: u128 = plan.session_id.key;
        let _parked = self.parked.remove(key);
        proof {
            before.lemma_unparks(shape, key);
            assert(self@ =~= before.unpark(key));
        }
        if !deleted {
            if !self.enqueue_release(key, plan.lease, now_ms) {
                if plan.was_pending {
                    self.pending.insert(key, plan.lease);
                } else {
                    self.active.insert(key, plan.lease);
                }
                proof {
                    before.lemma_places(shape, key, plan.lease, self@);
                }
                return Err(AddressPoolError::Store);
            }
            let ghost queued = self@;
            self.metrics.store_failures = count(self.metrics.store_failures, 1);
            proof {
                queued.lemma_counts(self@, shape);
            }
        }
        let ghost counted = self@;
        self.metrics.releases = count(self.metrics.releases, 1);
        proof {
            counted.lemma_counts(self@, shape);
        }
        Ok(true)
    }

    /// Moves a lease straight to quarantine without store I/O. The bounded
    /// retry performs the durable delete. Returns whether a lease was moved;
    /// when the quarantine is full the lease stays blocked as what it was.
    pub fn release_deferred(&mut self, session_id: SessionId) -> (moved: bool)
        requires
            old(self).wf(),
        ensures
            final(self).wf(),
            final(self).shape() == old(self).shape(),
            (moved, final(self)@) == old(self)@.deferred(old(self).shape(), session_id.key),
    {
        let ghost before = self@;
        let ghost shape = self.config@;
        let key: u128 = session_id.key;
        if self.parked.contains(key) || self.quarantine.contains(key) {
            return false;
        }
        let (lease, was_pending) = match self.take(key) {
            Some(taken) => taken,
            None => {
                assert(self@ =~= before);
                return false;
            },
        };
        proof {
            before.lemma_drops(shape, key);
            before.lemma_takes(shape, key);
        }
        if !self.enqueue_release(key, lease, 0) {
            if was_pending {
                self.pending.insert(key, lease);
            } else {
                self.active.insert(key, lease);
            }
            proof {
                assert(before.taken(key).unpark(key).parked =~= before.parked);
                before.taken(key).lemma_places(shape, key, lease, self@);
            }
            return false;
        }
        let ghost queued = self@;
        self.metrics.releases = count(self.metrics.releases, 1);
        proof {
            queued.lemma_counts(self@, shape);
        }
        true
    }

    /// First half of a renewal. The active entry stays in place with its old
    /// expiry until the new one is persisted.
    pub fn begin_renew(&mut self, session_id: SessionId, now: PoolTime) -> (result: Result<
        RenewPlan,
        AddressPoolError,
    >)
        requires
            old(self).wf(),
        ensures
            final(self).wf(),
            final(self).shape() == old(self).shape(),
            ({
                let (verdict, parked) = old(self)@.renew_verdict(session_id.key, now.monotonic_ms);
                &&& final(self)@ == parked
                &&& match verdict {
                    RenewVerdict::Refuse(e) => result == Err::<RenewPlan, _>(e),
                    RenewVerdict::Persist(lease) => {
                        &&& result matches Ok(plan)
                        &&& plan.session_id == session_id
                        &&& plan.lease == (Lease {
                            expires_at_ms: persistence::saturated(
                                now.monotonic_ms + old(self).shape().lease_ttl,
                            ),
                            ..lease
                        })
                        &&& plan.wall_expires_at_ms == persistence::saturated(
                            now.wall_ms + old(self).shape().lease_ttl,
                        )
                    },
                }
            }),
    {
        let ghost before = self@;
        let ghost shape = self.config@;
        let key: u128 = session_id.key;
        if self.parked.contains(key) {
            self.metrics.inflight_conflicts = count(self.metrics.inflight_conflicts, 1);
            proof {
                before.lemma_counts(self@, shape);
            }
            return Err(AddressPoolError::Store);
        }
        let active = match self.active.get(key) {
            Some(active) => *active,
            None => {
                return Err(AddressPoolError::UnknownLease);
            },
        };
        if now.monotonic_ms >= active.expires_at_ms {
            return Err(AddressPoolError::Expired);
        }
        self.parked.insert(key, None);
        proof {
            before.lemma_marks(shape, key);
        }
        Ok(
            RenewPlan {
                session_id,
                lease: Lease {
                    device_id: active.device_id,
                    addresses: active.addresses,
                    expires_at_ms: now.monotonic_ms.saturating_add(self.config.lease_ttl_ms()),
                },
                wall_expires_at_ms: wall_expiry_from_ttl(now.wall_ms, self.config.lease_ttl_ms()),
            },
        )
    }

    /// Second half of a renewal, once the store has answered. A failed persist
    /// keeps the old expiry, so memory and the durable record agree.
    pub fn finish_renew(&mut self, plan: RenewPlan, persisted: bool) -> (result: Result<
        (),
        AddressPoolError,
    >)
        requires
            old(self).wf(),
            old(self)@.parked.contains_key(plan.session_id.key),
            old(self)@.parked[plan.session_id.key] is None,
            old(self)@.active.contains_key(plan.session_id.key),
            old(self)@.active[plan.session_id.key].addresses == plan.lease.addresses,
            old(self)@.quarantine.contains_key(plan.session_id.key) ==> old(self)@.order.contains(
                plan.session_id.key,
            ),
        ensures
            final(self).wf(),
            final(self).shape() == old(self).shape(),
            ({
                let freed = old(self)@.unpark(plan.session_id.key);
                if persisted {
                    result == Ok::<_, AddressPoolError>(()) && final(self)@ == freed.with_active(
                        plan.session_id.key,
                        plan.lease,
                    ).renewal_counted()
                } else {
                    result == Err::<(), _>(AddressPoolError::Store) && final(self)@
                        == freed.store_failed()
                }
            }),
    {
        let ghost before = self@;
        let ghost shape = self.config@;
        let key: u128 = plan.session_id.key;
        let _parked = self.parked.remove(key);
        let ghost freed = self@;
        proof {
            before.lemma_unmarks(shape, key);
            assert(freed =~= before.unpark(key));
        }
        if !persisted {
            self.metrics.store_failures = count(self.metrics.store_failures, 1);
            proof {
                freed.lemma_counts(self@, shape);
            }
            return Err(AddressPoolError::Store);
        }
        self.active.insert(key, plan.lease);
        self.metrics.renewals = count(self.metrics.renewals, 1);
        proof {
            freed.lemma_reexpires(shape, key, plan.lease, self@);
        }
        Ok(())
    }

    /// The committed or pending addresses for a session, if any. This includes
    /// reservations, so source validation must use
    /// [`PoolState::lookup_active`] instead.
    pub fn lookup(&self, session_id: SessionId) -> (found: Option<AssignedAddresses>)
        requires
            self.wf(),
        ensures
            found == if self@.active.contains_key(session_id.key) {
                Some(self@.active[session_id.key].addresses)
            } else if self@.pending.contains_key(session_id.key) {
                Some(self@.pending[session_id.key].addresses)
            } else {
                None
            },
    {
        if let Some(active) = self.active.get(session_id.key) {
            return Some(active.addresses);
        }
        match self.pending.get(session_id.key) {
            Some(pending) => Some(pending.addresses),
            None => None,
        }
    }

    /// The committed lease for a session, if any: the only kind of lease that
    /// authorizes payload.
    pub fn lookup_active(&self, session_id: SessionId) -> (found: Option<AssignedAddresses>)
        requires
            self.wf(),
        ensures
            found == if self@.active.contains_key(session_id.key) {
                Some(self@.active[session_id.key].addresses)
            } else {
                None
            },
    {
        match self.active.get(session_id.key) {
            Some(active) => Some(active.addresses),
            None => None,
        }
    }
}

/// Splits the leases that have run out off a map, both in session order.
fn split_expired(
    leases: &IdMap<Lease>,
    parked: &IdMap<Option<AssignedAddresses>>,
    now_ms: u64,
) -> (parts: (IdMap<Lease>, IdMap<Lease>))
    requires
        leases.wf(),
        parked.wf(),
    ensures
        parts.0.wf(),
        parts.1.wf(),
        forall|k: u128| #[trigger]
            parts.0@.contains_key(k) == (leases@.contains_key(k) && !model::run_out(
                leases@,
                parked@,
                now_ms,
                k,
            )),
        forall|k: u128| #[trigger] parts.0@.contains_key(k) ==> parts.0@[k] == leases@[k],
        forall|k: u128| #[trigger]
            parts.1@.contains_key(k) == model::run_out(leases@, parked@, now_ms, k),
        forall|k: u128| #[trigger] parts.1@.contains_key(k) ==> parts.1@[k] == leases@[k],
{
    let mut kept: IdMap<Lease> = IdMap::new();
    let mut expired: IdMap<Lease> = IdMap::new();
    let list = leases.entries();
    let total: usize = list.len();
    let mut i: usize = 0;
    while i < total
        invariant
            leases.wf(),
            parked.wf(),
            kept.wf(),
            expired.wf(),
            i <= total == leases.listed().len(),
            list@ == leases.listed(),
            forall|k: u128| #[trigger]
                kept@.contains_key(k) ==> leases@.contains_key(k) && kept@[k] == leases@[k]
                    && !model::run_out(leases@, parked@, now_ms, k),
            forall|k: u128| #[trigger]
                expired@.contains_key(k) ==> model::run_out(leases@, parked@, now_ms, k)
                    && expired@[k] == leases@[k],
            forall|j: int|
                0 <= j < i ==> kept@.contains_key((#[trigger] leases.listed()[j]).0)
                    || expired@.contains_key(leases.listed()[j].0),
        decreases total - i,
    {
        let (key, lease) = list[i];
        proof {
            id_map::lemma_entry(leases.listed(), i as int);
        }
        if now_ms >= lease.expires_at_ms && !parked.contains(key) {
            expired.insert(key, lease);
        } else {
            kept.insert(key, lease);
        }
        i = i + 1;
    }
    proof {
        assert forall|k: u128| leases@.contains_key(k) implies #[trigger] kept@.contains_key(k)
            || expired@.contains_key(k) by {
            id_map::lemma_key_entry(leases.listed(), k);
            let j = id_map::key_index(leases.listed(), k);
            assert(leases.listed()[j].0 == k);
        }
        assert forall|k: u128| #[trigger] kept@.contains_key(k) == (leases@.contains_key(k)
            && !model::run_out(leases@, parked@, now_ms, k)) by {
            if expired@.contains_key(k) {
            }
        }
        assert forall|k: u128| #[trigger] expired@.contains_key(k) == model::run_out(
            leases@,
            parked@,
            now_ms,
            k,
        ) by {
            if kept@.contains_key(k) {
            }
        }
    }
    (kept, expired)
}

/// Merges two lists of expired leases into session order.
fn merge_expired(pending: &IdMap<Lease>, active: &IdMap<Lease>) -> (batch: Vec<ExpiredLease>)
    requires
        pending.wf(),
        active.wf(),
        forall|k: u128| !(#[trigger] pending@.contains_key(k) && active@.contains_key(k)),
    ensures
        model::batch_ascends(batch@),
        forall|i: int|
            0 <= i < batch@.len() ==> {
                let one = #[trigger] batch@[i];
                let from = if one.was_pending {
                    pending@
                } else {
                    active@
                };
                from.contains_key(one.session_id.key) && from[one.session_id.key] == one.lease
            },
        forall|k: u128| #[trigger] pending@.contains_key(k) ==> model::in_batch(batch@, k),
        forall|k: u128| #[trigger] active@.contains_key(k) ==> model::in_batch(batch@, k),
{
    let mut batch: Vec<ExpiredLease> = Vec::new();
    let waiting = pending.entries();
    let held = active.entries();
    let pending_total: usize = waiting.len();
    let active_total: usize = held.len();
    let mut i: usize = 0;
    let mut j: usize = 0;
    while i < pending_total || j < active_total
        invariant
            pending.wf(),
            active.wf(),
            i <= pending_total == pending.listed().len(),
            j <= active_total == active.listed().len(),
            waiting@ == pending.listed(),
            held@ == active.listed(),
            forall|k: u128| !(#[trigger] pending@.contains_key(k) && active@.contains_key(k)),
            model::batch_ascends(batch@),
            forall|b: int, m: int|
                0 <= b < batch@.len() && i <= m < pending_total ==> (
                #[trigger] batch@[b]).session_id.key < (#[trigger] pending.listed()[m]).0,
            forall|b: int, m: int|
                0 <= b < batch@.len() && j <= m < active_total ==> (
                #[trigger] batch@[b]).session_id.key < (#[trigger] active.listed()[m]).0,
            forall|b: int|
                0 <= b < batch@.len() ==> {
                    let one = #[trigger] batch@[b];
                    let from = if one.was_pending {
                        pending@
                    } else {
                        active@
                    };
                    from.contains_key(one.session_id.key) && from[one.session_id.key] == one.lease
                },
            forall|m: int|
                0 <= m < i ==> model::in_batch(batch@, (#[trigger] pending.listed()[m]).0),
            forall|m: int|
                0 <= m < j ==> model::in_batch(batch@, (#[trigger] active.listed()[m]).0),
        decreases pending_total - i + active_total - j,
    {
        let take_pending: bool = if i >= pending_total {
            false
        } else if j >= active_total {
            true
        } else {
            waiting[i].0 < held[j].0
        };
        let ghost before = batch@;
        proof {
            if i < pending_total {
                id_map::lemma_entry(pending.listed(), i as int);
            }
            if j < active_total {
                id_map::lemma_entry(active.listed(), j as int);
            }
        }
        if take_pending {
            let (key, lease) = waiting[i];
            batch.push(
                ExpiredLease {
                    session_id: SessionId { key },
                    lease,
                    was_pending: true,
                },
            );
            proof {
                lemma_batch_push(before, batch@.last());
                assert forall|b: int, m: int|
                    0 <= b < batch@.len() && j <= m < active_total implies (
                #[trigger] batch@[b]).session_id.key < (#[trigger] active.listed()[m]).0 by {
                    if b == before.len() {
                        assert(active.listed()[j as int].0 <= active.listed()[m].0);
                    }
                }
            }
            i = i + 1;
        } else {
            let (key, lease) = held[j];
            batch.push(
                ExpiredLease {
                    session_id: SessionId { key },
                    lease,
                    was_pending: false,
                },
            );
            proof {
                lemma_batch_push(before, batch@.last());
                if i < pending_total {
                    assert(pending@.contains_key(pending.listed()[i as int].0));
                }
                assert forall|b: int, m: int|
                    0 <= b < batch@.len() && i <= m < pending_total implies (
                #[trigger] batch@[b]).session_id.key < (#[trigger] pending.listed()[m]).0 by {
                    if b == before.len() {
                        assert(pending.listed()[i as int].0 <= pending.listed()[m].0);
                    }
                }
            }
            j = j + 1;
        }
    }
    proof {
        assert forall|k: u128| #[trigger] pending@.contains_key(k) implies model::in_batch(
            batch@,
            k,
        ) by {
            id_map::lemma_key_entry(pending.listed(), k);
            let m = id_map::key_index(pending.listed(), k);
            assert(model::in_batch(batch@, pending.listed()[m].0));
        }
        assert forall|k: u128| #[trigger] active@.contains_key(k) implies model::in_batch(
            batch@,
            k,
        ) by {
            id_map::lemma_key_entry(active.listed(), k);
            let m = id_map::key_index(active.listed(), k);
            assert(model::in_batch(batch@, active.listed()[m].0));
        }
    }
    batch
}

proof fn lemma_batch_push(batch: Seq<ExpiredLease>, one: ExpiredLease)
    ensures
        model::in_batch(batch.push(one), one.session_id.key),
        forall|k: u128|
            model::in_batch(batch, k) ==> #[trigger] model::in_batch(batch.push(one), k),
{
    let next = batch.push(one);
    assert(next[batch.len() as int] == one);
    assert forall|k: u128| model::in_batch(batch, k) implies #[trigger] model::in_batch(
        next,
        k,
    ) by {
        let i = choose|i: int| 0 <= i < batch.len() && (#[trigger] batch[i]).session_id.key == k;
        assert(next[i] == batch[i]);
    }
}

impl PoolState {
    /// First part of a sweep: parks every lease that has run out, in session
    /// order. Sessions with a store operation under way are left alone.
    pub fn begin_sweep(&mut self, now_ms: u64) -> (batch: Vec<ExpiredLease>)
        requires
            old(self).wf(),
        ensures
            final(self).wf(),
            final(self).shape() == old(self).shape(),
            old(self)@.lists_expired(now_ms, batch@),
            final(self)@ == old(self)@.sweep_taken(now_ms),
    {
        let ghost before = self@;
        let ghost shape = self.config@;
        let (kept_pending, expired_pending) = split_expired(&self.pending, &self.parked, now_ms);
        let (kept_active, expired_active) = split_expired(&self.active, &self.parked, now_ms);
        proof {
            assert forall|k: u128| !(#[trigger] expired_pending@.contains_key(k)
                && expired_active@.contains_key(k)) by {
                assert(before.placed_once(k));
            }
            assert(expired_pending@.dom() =~= before.expired_pending(now_ms));
            assert(expired_active@.dom() =~= before.expired_active(now_ms));
        }
        let batch = merge_expired(&expired_pending, &expired_active);
        proof {
            assert forall|k: u128| #[trigger] before.expired(now_ms, k) implies model::in_batch(
                batch@,
                k,
            ) by {
                assert(expired_pending@.contains_key(k) || expired_active@.contains_key(k));
            }
        }
        self.metrics.pending_expired = count(
            self.metrics.pending_expired,
            expired_pending.len() as u64,
        );
        self.metrics.active_expired = count(self.metrics.active_expired, expired_active.len() as u64);
        self.pending = kept_pending;
        self.active = kept_active;
        let mut i: usize = 0;
        let ghost parked_before = self.parked@;
        let ghost mid = *self;
        while i < batch.len()
            invariant
                i <= batch@.len(),
                mid == (PoolState { parked: mid.parked, ..*self }),
                self.parked.wf(),
                forall|k: u128| #[trigger]
                    self.parked@.contains_key(k) == (parked_before.contains_key(k)
                        || model::in_batch(batch@.take(i as int), k)),
                forall|k: u128| #[trigger]
                    parked_before.contains_key(k) ==> self.parked@[k] == parked_before[k],
                forall|j: int|
                    0 <= j < i ==> self.parked@[(#[trigger] batch@[j]).session_id.key] == Some(
                        batch@[j].lease.addresses,
                    ),
                forall|j: int|
                    0 <= j < batch@.len() ==> !parked_before.contains_key(
                        (#[trigger] batch@[j]).session_id.key,
                    ),
                model::batch_ascends(batch@),
            decreases batch@.len() - i,
        {
            let one = batch[i];
            let ghost earlier = self.parked@;
            self.parked.insert(one.session_id.key, Some(one.lease.addresses));
            proof {
                assert(batch@.take(i + 1) =~= batch@.take(i as int).push(one));
                lemma_batch_push(batch@.take(i as int), one);
                assert forall|k: u128| #[trigger]
                    self.parked@.contains_key(k) == (parked_before.contains_key(k)
                        || model::in_batch(batch@.take(i + 1), k)) by {
                    if model::in_batch(batch@.take(i + 1), k) && k != one.session_id.key {
                        let t = batch@.take(i + 1);
                        let j = choose|j: int|
                            0 <= j < t.len() && (#[trigger] t[j]).session_id.key == k;
                        assert(batch@.take(i as int)[j] == t[j]);
                    }
                }
                assert forall|j: int| 0 <= j < i + 1 implies self.parked@[(
                #[trigger] batch@[j]).session_id.key] == Some(batch@[j].lease.addresses) by {
                    if j < i {
                        assert(batch@[j].session_id.key < batch@[i as int].session_id.key);
                    }
                }
            }
            i = i + 1;
        }
        proof {
            assert(batch@.take(i as int) =~= batch@);
            assert forall|j: int| 0 <= j < batch@.len() implies before.lists_one(
                now_ms,
                #[trigger] batch@[j],
            ) by {}
            assert forall|k: u128| #[trigger] model::in_batch(batch@, k) implies before.expired(
                now_ms,
                k,
            ) && self.parked@[k] == before.pair_of(k) by {
                let j = choose|j: int|
                    0 <= j < batch@.len() && (#[trigger] batch@[j]).session_id.key == k;
                assert(before.lists_one(now_ms, batch@[j]));
                assert(before.placed_once(k));
            }
            let next = before.sweep_taken(now_ms);
            assert(self@.active =~= next.active);
            assert(self@.pending =~= next.pending);
            assert(self@.parked =~= next.parked);
            assert(self@ =~= next);
            self.active.lemma_finite();
            self.pending.lemma_finite();
            self.parked.lemma_finite();
            before.lemma_sweep_takes(shape, now_ms, self@);
        }
        batch
    }
}

impl PoolState {
    /// Ends the sweep of one expired lease.
    fn finish_one(&mut self, one: ExpiredLease, deleted: bool, now_ms: u64)
        requires
            old(self).wf(),
            old(self)@.parked.contains_key(one.session_id.key),
            old(self)@.parked[one.session_id.key] == Some(one.lease.addresses),
        ensures
            final(self).wf(),
            final(self).shape() == old(self).shape(),
            final(self)@ == old(self)@.swept_one(old(self).shape(), one, deleted, now_ms),
    {
        let ghost before = self@;
        let ghost shape = self.config@;
        let key: u128 = one.session_id.key;
        let _parked = self.parked.remove(key);
        proof {
            before.lemma_unparks(shape, key);
            assert(self@ =~= before.unpark(key));
        }
        if !deleted {
            if !self.enqueue_release(key, one.lease, now_ms) {
                if one.was_pending {
                    self.pending.insert(key, one.lease);
                } else {
                    self.active.insert(key, one.lease);
                }
                proof {
                    before.lemma_places(shape, key, one.lease, self@);
                }
            } else {
                let ghost queued = self@;
                self.metrics.store_failures = count(self.metrics.store_failures, 1);
                proof {
                    queued.lemma_counts(self@, shape);
                }
            }
        }
    }

    /// Last part of a sweep, once the store has answered for each lease of
    /// the batch. Returns the expired sessions so that the caller can close
    /// them; they are reported even where the lease had to stay blocked.
    pub fn finish_sweep(&mut self, batch: &Vec<ExpiredLease>, deleted: &Vec<bool>, now_ms: u64) -> (ids:
        Vec<SessionId>)
        requires
            old(self).wf(),
            deleted@.len() == batch@.len(),
            model::batch_ascends(batch@),
            forall|i: int|
                0 <= i < batch@.len() ==> old(self)@.parked.contains_key(
                    (#[trigger] batch@[i]).session_id.key,
                ) && old(self)@.parked[batch@[i].session_id.key] == Some(
                    batch@[i].lease.addresses,
                ),
        ensures
            final(self).wf(),
            final(self).shape() == old(self).shape(),
            final(self)@ == old(self)@.swept(old(self).shape(), batch@, deleted@, now_ms),
            ids@ == batch@.map_values(|one: ExpiredLease| one.session_id),
    {
        let ghost before = self@;
        let ghost shape = self.config@;
        let mut ids: Vec<SessionId> = Vec::new();
        let mut i: usize = 0;
        while i < batch.len()
            invariant
                self.wf(),
                self.shape() == shape,
                i <= batch@.len() == deleted@.len(),
                model::batch_ascends(batch@),
                self@ == before.swept(shape, batch@.take(i as int), deleted@, now_ms),
                forall|j: int|
                    i <= j < batch@.len() ==> self@.parked.contains_key(
                        (#[trigger] batch@[j]).session_id.key,
                    ) && self@.parked[batch@[j].session_id.key] == Some(batch@[j].lease.addresses),
                ids@ == batch@.take(i as int).map_values(|one: ExpiredLease| one.session_id),
            decreases batch@.len() - i,
        {
            let one = batch[i];
            self.finish_one(one, deleted[i], now_ms);
            ids.push(one.session_id);
            proof {
                let longer = batch@.take(i + 1);
                assert(longer.drop_last() =~= batch@.take(i as int));
                assert(longer.last() == one);
                assert(ids@ =~= longer.map_values(|one: ExpiredLease| one.session_id));
            }
            i = i + 1;
        }
        assert(batch@.take(i as int) =~= batch@);
        ids
    }

    /// First part of a retry: parks at most `max_batch` failed deletes that
    /// are due, first come first served. The others stay queued and are
    /// counted as deferred; sessions that something is under way for are
    /// passed over.
    pub fn begin_retry(&mut self, now_ms: u64, max_batch: usize) -> (batch: Vec<u128>)
        requires
            old(self).wf(),
        ensures
            final(self).wf(),
            final(self).shape() == old(self).shape(),
            batch@ == old(self)@.select(now_ms, max_batch as nat, old(self)@.order).0,
            final(self)@ == old(self)@.retry_taken(now_ms, max_batch as nat),
    {
        let ghost before = self@;
        let ghost shape = self.config@;
        let ghost limit = max_batch as nat;
        let mut batch: Vec<u128> = Vec::new();
        let mut rest: Vec<u128> = Vec::new();
        let mut full: bool = false;
        let mut deferred: u64 = 0;
        let mut i: usize = 0;
        while i < self.order.len()
            invariant
                self.wf(),
                self@ == before,
                self.order@ == before.order,
                i <= self.order@.len(),
                limit == max_batch,
                (batch@, rest@) == before.select(now_ms, limit, before.order.take(i as int)),
                full == before.overfull(now_ms, limit, before.order.take(i as int)),
                deferred == before.put_off(now_ms, limit, before.order.take(i as int)),
                deferred <= i,
                full ==> batch@.len() >= max_batch,
            decreases self.order@.len() - i,
        {
            let id: u128 = self.order[i];
            proof {
                assert(before.quarantine.contains_key(before.order[i as int]));
                let longer = before.order.take(i + 1);
                assert(longer.drop_last() =~= before.order.take(i as int));
                assert(longer.last() == id);
            }
            let due: bool = match self.quarantine.get(id) {
                Some(entry) => entry.next_retry_ms <= now_ms,
                None => false,
            };
            let under_way: bool = self.parked.contains(id);
            if due && !under_way && batch.len() < max_batch {
                batch.push(id);
            } else {
                if due && !under_way {
                    full = true;
                }
                if full || !under_way && !due {
                    deferred = deferred + 1;
                }
                rest.push(id);
            }
            i = i + 1;
        }
        proof {
            assert(before.order.take(i as int) =~= before.order);
            before.lemma_select(now_ms, limit, before.order);
            assert forall|k: u128| batch@.contains(k) implies !(
            #[trigger] before.parked.contains_key(k)) by {}
        }
        self.metrics.release_retry_deferred = count(self.metrics.release_retry_deferred, deferred);
        self.order = rest;
        let ghost mid = *self;
        let mut j: usize = 0;
        while j < batch.len()
            invariant
                j <= batch@.len(),
                mid == (PoolState { parked: mid.parked, ..*self }),
                self.parked.wf(),
                batch@.no_duplicates(),
                forall|k: u128| batch@.contains(k) ==> !(#[trigger] before.parked.contains_key(k)),
                forall|k: u128| #[trigger]
                    self.parked@.contains_key(k) == (before.parked.contains_key(k) || batch@.take(
                        j as int,
                    ).contains(k)),
                forall|k: u128| #[trigger]
                    self.parked@.contains_key(k) ==> self.parked@[k]
                        == if before.parked.contains_key(k) {
                        before.parked[k]
                    } else {
                        None
                    },
            decreases batch@.len() - j,
        {
            let id: u128 = batch[j];
            self.parked.insert(id, None);
            proof {
                assert(batch@.contains(batch@[j as int]));
                assert(batch@.take(j + 1) =~= batch@.take(j as int).push(id));
                model::lemma_pushes(batch@.take(j as int), id);
            }
            j = j + 1;
        }
        proof {
            assert(batch@.take(j as int) =~= batch@);
            let next = before.retry_taken(now_ms, limit);
            assert(self@.parked =~= next.parked);
            assert(self@ =~= next);
            self.parked.lemma_finite();
            before.lemma_retry_takes(shape, now_ms, limit, self@);
        }
        batch
    }

    /// Ends one more attempt at a failed delete.
    fn retry_one(&mut self, id: u128, deleted: bool, now_ms: u64)
        requires
            old(self).wf(),
            old(self)@.quarantine.contains_key(id),
            old(self)@.with_store(id),
            !old(self)@.order.contains(id),
        ensures
            final(self).wf(),
            final(self).shape() == old(self).shape(),
            final(self)@ == old(self)@.retried_one(id, deleted, now_ms),
    {
        let ghost before = self@;
        proof {
            before.lemma_retries(self.config@, id, deleted, now_ms);
        }
        let _parked = self.parked.remove(id);
        if deleted {
            let _entry = self.quarantine.remove(id);
            self.metrics.release_retries = count(self.metrics.release_retries, 1);
        } else if let Some(entry) = self.quarantine.get(id) {
            let attempts: u64 = entry.attempts.saturating_add(1);
            let next = QuarantinedLease {
                lease: entry.lease,
                attempts,
                next_retry_ms: next_retry_deadline(now_ms, attempts),
            };
            self.quarantine.insert(id, next);
            self.order.push(id);
        }
        assert(self@ =~= before.retried_one(id, deleted, now_ms));
    }

    /// Last part of a retry, once the store has answered for each. Successes
    /// leave the quarantine, failures back off. Returns how many failed
    /// deletes are left.
    pub fn finish_retry(&mut self, batch: &Vec<u128>, deleted: &Vec<bool>, now_ms: u64) -> (left:
        usize)
        requires
            old(self).wf(),
            deleted@.len() == batch@.len(),
            batch@.no_duplicates(),
            forall|i: int|
                0 <= i < batch@.len() ==> old(self)@.quarantine.contains_key(#[trigger] batch@[i])
                    && old(self)@.with_store(batch@[i]) && !old(self)@.order.contains(batch@[i]),
        ensures
            final(self).wf(),
            final(self).shape() == old(self).shape(),
            final(self)@ == old(self)@.retried(batch@, deleted@, now_ms),
            left == final(self)@.quarantine.len(),
    {
        let ghost before = self@;
        let ghost shape = self.config@;
        let mut i: usize = 0;
        while i < batch.len()
            invariant
                self.wf(),
                self.shape() == shape,
                i <= batch@.len() == deleted@.len(),
                batch@.no_duplicates(),
                self@ == before.retried(batch@.take(i as int), deleted@, now_ms),
                forall|j: int|
                    i <= j < batch@.len() ==> self@.quarantine.contains_key(#[trigger] batch@[j])
                        && self@.with_store(batch@[j]) && !self@.order.contains(batch@[j]),
            decreases batch@.len() - i,
        {
            let id: u128 = batch[i];
            let ghost order = self@.order;
            self.retry_one(id, deleted[i], now_ms);
            proof {
                model::lemma_pushes(order, id);
                let longer = batch@.take(i + 1);
                assert(longer.drop_last() =~= batch@.take(i as int));
                assert(longer.last() == id);
            }
            i = i + 1;
        }
        assert(batch@.take(i as int) =~= batch@);
        self.quarantine.len()
    }

    /// Failed deletes in session order, each with its original expiry and the
    /// number of attempts so far.
    pub fn quarantined(&self) -> (entries: Vec<(SessionId, u64, u64)>)
        requires
            self.wf(),
        ensures
            entries@.len() == self@.quarantine.len(),
            forall|i: int, j: int|
                0 <= i < j < entries@.len() ==> (#[trigger] entries@[i]).0.key < (
                #[trigger] entries@[j]).0.key,
            forall|i: int|
                0 <= i < entries@.len() ==> {
                    let entry = #[trigger] entries@[i];
                    &&& self@.quarantine.contains_key(entry.0.key)
                    &&& entry.1 == self@.quarantine[entry.0.key].lease.expires_at_ms
                    &&& entry.2 == self@.quarantine[entry.0.key].attempts
                },
    {
        let mut entries: Vec<(SessionId, u64, u64)> = Vec::new();
        let list = self.quarantine.entries();
        let total: usize = list.len();
        let mut i: usize = 0;
        while i < total
            invariant
                self.wf(),
                list@ == self.quarantine.listed(),
                i <= total == self.quarantine.listed().len(),
                total == self@.quarantine.len(),
                entries@.len() == i,
                forall|j: int|
                    0 <= j < i ==> (#[trigger] entries@[j]) == (
                        SessionId { key: self.quarantine.listed()[j].0 },
                        self.quarantine.listed()[j].1.lease.expires_at_ms,
                        self.quarantine.listed()[j].1.attempts,
                    ),
            decreases total - i,
        {
            let (key, entry) = list[i];
            entries.push((SessionId { key }, entry.lease.expires_at_ms, entry.attempts));
            i = i + 1;
        }
        proof {
            assert forall|j: int| 0 <= j < entries@.len() implies {
                let entry = #[trigger] entries@[j];
                &&& self@.quarantine.contains_key(entry.0.key)
                &&& entry.1 == self@.quarantine[entry.0.key].lease.expires_at_ms
                &&& entry.2 == self@.quarantine[entry.0.key].attempts
            } by {
                id_map::lemma_entry(self.quarantine.listed(), j);
            }
        }
        entries
    }
}

impl PoolState {
    /// Whether the pool may lease an address pair.
    fn is_leasable(&self, pair: &AssignedAddresses) -> (leasable: bool)
        requires
            self.wf(),
        ensures
            leasable == PoolModel::leasable(self.shape(), *pair),
    {
        if pair.ipv4_prefix_len != self.config.ipv4_prefix_len() || pair.ipv6_prefix_len
            != IPV6_LEASE_PREFIX_LEN {
            return false;
        }
        self.config.is_usable_v4(be_u32(pair.ipv4)) && self.config.is_usable_v6(
            be_u128(pair.ipv6_prefix),
        )
    }

    /// Restores one record, or says that it is to be discarded.
    fn recover_one(
        &mut self,
        lease: &PersistedLease,
        now: PoolTime,
        sessions: &mut HashSet<u128>,
        hosts: &mut HashSet<u32>,
        prefixes: &mut HashSet<u128>,
        Ghost(rec): Ghost<RecoveryModel>,
    ) -> (restored: bool)
        requires
            old(self).wf(),
            old(self)@ == rec.pool,
            old(self)@.parked == Map::<u128, Option<AssignedAddresses>>::empty(),
            old(sessions)@ == rec.seen,
            matches_seen(old(hosts)@, rec.seen_v4),
            matches_seen_wide(old(prefixes)@, rec.seen_v6),
            covers(rec),
        ensures
            final(self).wf(),
            final(self).shape() == old(self).shape(),
            ({
                let next = rec.step(old(self).shape(), *lease, now);
                &&& final(self)@ == next.pool
                &&& final(sessions)@ == next.seen
                &&& matches_seen(final(hosts)@, next.seen_v4)
                &&& matches_seen_wide(final(prefixes)@, next.seen_v6)
                &&& next.stale == if restored {
                    rec.stale
                } else {
                    rec.stale.push(*lease)
                }
                &&& covers(next)
                &&& final(self)@.parked == old(self)@.parked
            }),
    {
        broadcast use vstd::std_specs::hash::group_hash_axioms;

        let ghost before = self@;
        let ghost shape = self.config@;
        let key: u128 = lease.session_id.key;
        let pair = lease.addresses();
        let host: u32 = be_u32(pair.ipv4);
        let prefix: u128 = be_u128(pair.ipv6_prefix);
        let recoverable: bool = lease.expires_at_ms > now.wall_ms && key != 0
            && lease.device_id.key != 0 && self.is_leasable(&pair) && !sessions.contains(&key)
            && !hosts.contains(&host) && !prefixes.contains(&prefix);
        assert(recoverable == rec.recoverable(shape, *lease, now));
        if !recoverable {
            self.metrics.recovered_dropped = count(self.metrics.recovered_dropped, 1);
            proof {
                before.lemma_counts(self@, shape);
                lemma_covers_same(rec, rec.step(shape, *lease, now));
            }
            return false;
        }
        sessions.insert(key);
        hosts.insert(host);
        prefixes.insert(prefix);
        proof {
            assert(before.pair_of(key) is None);
            assert(!before.blocks_v4(pair.v4())) by {
                assert forall|k: u128|
                    (#[trigger] before.pair_of(k)) matches Some(p) implies before.pair_of(
                    k,
                )->0.v4() != pair.v4() by {
                    assert(before.pair_of(k) is Some);
                }
                assert forall|k: u128|
                    (#[trigger] before.stuck_pair(k)) matches Some(p) implies before.stuck_pair(
                    k,
                )->0.v4() != pair.v4() by {
                    assert(before.stuck_pair(k) is Some);
                }
            }
            assert(!before.blocks_v6(pair.v6())) by {
                assert forall|k: u128|
                    (#[trigger] before.pair_of(k)) matches Some(p) implies before.pair_of(
                    k,
                )->0.v6() != pair.v6() by {
                    assert(before.pair_of(k) is Some);
                }
                assert forall|k: u128|
                    (#[trigger] before.stuck_pair(k)) matches Some(p) implies before.stuck_pair(
                    k,
                )->0.v6() != pair.v6() by {
                    assert(before.stuck_pair(k) is Some);
                }
            }
        }
        let held = Lease {
            device_id: lease.device_id,
            addresses: pair,
            expires_at_ms: monotonic_expiry_from_wall(
                lease.expires_at_ms,
                now.wall_ms,
                now.monotonic_ms,
            ),
        };
        let has_room: bool = match lease.state {
            LeaseState::Reserved | LeaseState::Active => {
                self.active.len().saturating_add(self.pending.len()) < self.config.maximum_leases()
            },
            LeaseState::ReleasePending => {
                self.quarantine.len() < self.config.maximum_pending_releases()
            },
        };
        assert(has_room == rec.has_room(shape, *lease));
        if !has_room {
            self.metrics.recovered_dropped = count(self.metrics.recovered_dropped, 1);
            proof {
                before.lemma_counts(self@, shape);
                lemma_covers_same(rec, rec.step(shape, *lease, now));
            }
            return false;
        }
        match lease.state {
            LeaseState::Reserved => {
                self.pending.insert(key, held);
                self.metrics.recovered = count(self.metrics.recovered, 1);
                proof {
                    before.lemma_adds(shape, key, held, self@);
                }
            },
            LeaseState::Active => {
                self.active.insert(key, held);
                self.metrics.recovered = count(self.metrics.recovered, 1);
                proof {
                    before.lemma_adds(shape, key, held, self@);
                }
            },
            LeaseState::ReleasePending => {
                let _fits = self.enqueue_release(key, held, now.monotonic_ms);
                let ghost queued = self@;
                self.metrics.recovered = count(self.metrics.recovered, 1);
                proof {
                    queued.lemma_counts(self@, shape);
                }
            },
        }
        proof {
            let next = rec.step(shape, *lease, now);
            assert(self@ =~= next.pool);
            assert forall|k: u128| k != key implies #[trigger] self@.pair_of(k) == before.pair_of(
                k,
            ) by {}
            assert(self@.pair_of(key) == Some(pair));
            assert(covers(next)) by {
                assert forall|k: u128| (#[trigger] next.pool.pair_of(k)) is Some implies next.seen.contains(
                    k,
                ) && next.seen_v4.contains(next.pool.pair_of(k)->0.v4()) && next.seen_v6.contains(next.pool.pair_of(k)->0.v6()) by {
                    if k != key {
                        assert(rec.pool.pair_of(k) is Some);
                    }
                }
                assert forall|k: u128| (#[trigger] next.pool.stuck_pair(k)) is Some implies next.seen.contains(
                    k,
                ) && next.seen_v4.contains(next.pool.stuck_pair(k)->0.v4())
                    && next.seen_v6.contains(next.pool.stuck_pair(k)->0.v6()) by {
                    if k != key {
                        assert(rec.pool.stuck_pair(k) is Some);
                    }
                }
            }
        }
        true
    }

    /// Rebuilds a pool from persisted records, in order. Expired, unleasable,
    /// repeated, colliding and supernumerary records are discarded and handed
    /// back, so that their store entries can be deleted.
    pub fn recover(config: AddressPoolConfig, leases: &Vec<PersistedLease>, now: PoolTime) -> (result:
        (PoolState, Vec<PersistedLease>))
        requires
            config.wf(),
        ensures
            result.0.wf(),
            result.0.shape() == config@,
            result.0@ == model::recovery(config@, leases@, now).pool,
            result.1@ == model::recovery(config@, leases@, now).stale,
            result.0@.parked == Map::<u128, Option<AssignedAddresses>>::empty(),
    {
        let ghost shape = config@;
        let mut state = PoolState::new(config);
        let sum: usize = state.config.maximum_leases().saturating_add(
            state.config.maximum_pending_releases(),
        );
        let bound: usize = if sum > MAX_LEASES_HARD_CAP {
            MAX_LEASES_HARD_CAP
        } else {
            sum
        };
        let mut stale: Vec<PersistedLease> = Vec::new();
        let mut i: usize = bound;
        let mut rec: Ghost<RecoveryModel> = Ghost(
            RecoveryModel {
                pool: PoolModel::empty(),
                seen: Set::empty(),
                seen_v4: Set::empty(),
                seen_v6: Set::empty(),
                stale: Seq::empty(),
            },
        );
        let mut end: usize = leases.len();
        if leases.len() > bound {
            while i < leases.len()
                invariant
                    bound <= i <= leases@.len(),
                    stale@ == leases@.subrange(bound as int, i as int),
                decreases leases@.len() - i,
            {
                stale.push(leases[i]);
                i = i + 1;
                assert(stale@ =~= leases@.subrange(bound as int, i as int));
            }
            let dropped: u64 = (leases.len() - bound) as u64;
            let ghost fresh = state@;
            state.metrics.recovered_dropped = count(state.metrics.recovered_dropped, dropped);
            end = bound;
            proof {
                fresh.lemma_counts(state@, shape);
                assert(stale@ =~= leases@.skip(bound as int));
                rec@ = RecoveryModel {
                    pool: PoolModel::empty().drop_counted(leases@.len() - bound),
                    seen: Set::empty(),
                    seen_v4: Set::empty(),
                    seen_v6: Set::empty(),
                    stale: leases@.skip(bound as int),
                };
                assert(state@ =~= rec@.pool);
            }
        }
        let ghost start = rec@;
        let ghost cut = leases@.take(end as int);
        proof {
            if leases@.len() <= bound {
                assert(cut =~= leases@);
            }
            assert(start.steps(shape, cut, now) == model::recovery(shape, leases@, now));
            assert(cut.take(0) =~= Seq::empty());
        }
        broadcast use vstd::std_specs::hash::group_hash_axioms;

        let mut sessions: HashSet<u128> = HashSet::new();
        let mut hosts: HashSet<u32> = HashSet::new();
        let mut prefixes: HashSet<u128> = HashSet::new();
        let mut at: usize = 0;
        while at < end
            invariant
                at <= end <= leases@.len(),
                cut == leases@.take(end as int),
                state.wf(),
                state.shape() == shape,
                state@ == rec@.pool,
                rec@ == start.steps(shape, cut.take(at as int), now),
                state@.parked == Map::<u128, Option<AssignedAddresses>>::empty(),
                stale@ == rec@.stale,
                sessions@ == rec@.seen,
                matches_seen(hosts@, rec@.seen_v4),
                matches_seen_wide(prefixes@, rec@.seen_v6),
                covers(rec@),
            decreases end - at,
        {
            let lease = leases[at];
            proof {
                assert(cut.take(at + 1).drop_last() =~= cut.take(at as int));
                assert(cut.take(at + 1).last() == lease);
            }
            let ghost next = rec@.step(shape, lease, now);
            let restored = state.recover_one(
                &lease,
                now,
                &mut sessions,
                &mut hosts,
                &mut prefixes,
                rec,
            );
            if !restored {
                stale.push(lease);
            }
            proof {
                rec@ = next;
            }
            at = at + 1;
        }
        assert(cut.take(at as int) =~= cut);
        (state, stale)
    }

    /// Quarantines discarded records whose durable delete failed, so that
    /// their addresses are never leased again meanwhile. Returns whether the
    /// quarantine had room for all.
    pub fn quarantine_discarded(&mut self, failed: &Vec<PersistedLease>, now_ms: u64) -> (fits: bool)
        requires
            old(self).wf(),
            old(self)@.parked == Map::<u128, Option<AssignedAddresses>>::empty(),
        ensures
            final(self).wf(),
            final(self).shape() == old(self).shape(),
            fits == old(self)@.discarded(old(self).shape(), failed@, now_ms).0,
            fits ==> final(self)@ == old(self)@.discarded(old(self).shape(), failed@, now_ms).1,
    {
        let ghost before = self@;
        let ghost shape = self.config@;
        let mut i: usize = 0;
        proof {
            assert(failed@.take(0) =~= Seq::empty());
        }
        while i < failed.len()
            invariant
                self.wf(),
                self.shape() == shape,
                shape == old(self).shape(),
                before == old(self)@,
                i <= failed@.len(),
                (true, self@) == before.discarded(shape, failed@.take(i as int), now_ms),
                self@.parked == Map::<u128, Option<AssignedAddresses>>::empty(),
            decreases failed@.len() - i,
        {
            let lease = failed[i];
            let held = Lease {
                device_id: lease.device_id,
                addresses: lease.addresses(),
                expires_at_ms: lease.expires_at_ms,
            };
            proof {
                let longer = failed@.take(i + 1);
                assert(longer.drop_last() =~= failed@.take(i as int));
                assert(longer.last() == lease);
            }
            if !self.enqueue_release(lease.session_id.key, held, now_ms) {
                proof {
                    before.lemma_discard_stops(shape, failed@, now_ms, i + 1);
                }
                return false;
            }
            let ghost queued = self@;
            self.metrics.store_failures = count(self.metrics.store_failures, 1);
            proof {
                queued.lemma_counts(self@, shape);
            }
            i = i + 1;
        }
        assert(failed@.take(i as int) =~= failed@);
        true
    }
}

/// A set of hosts stands for a set of numbers.
spec fn matches_seen(hosts: Set<u32>, seen: Set<nat>) -> bool {
    forall|host: u32| #[trigger] hosts.contains(host) == seen.contains(host as nat)
}

/// A set of prefixes stands for a set of numbers.
spec fn matches_seen_wide(prefixes: Set<u128>, seen: Set<nat>) -> bool {
    forall|prefix: u128| #[trigger] prefixes.contains(prefix) == seen.contains(prefix as nat)
}

/// Every session and address that is held has been met.
spec fn covers(rec: RecoveryModel) -> bool {
    &&& forall|k: u128| (#[trigger] rec.pool.pair_of(k)) is Some ==> rec.seen.contains(k)
        && rec.seen_v4.contains(rec.pool.pair_of(k)->0.v4()) && rec.seen_v6.contains(
        rec.pool.pair_of(k)->0.v6(),
    )
    &&& forall|k: u128| (#[trigger] rec.pool.stuck_pair(k)) is Some ==> rec.seen.contains(k)
        && rec.seen_v4.contains(rec.pool.stuck_pair(k)->0.v4()) && rec.seen_v6.contains(
        rec.pool.stuck_pair(k)->0.v6(),
    )
}

proof fn lemma_covers_same(rec: RecoveryModel, next: RecoveryModel)
    requires
        covers(rec),
        next.pool == (PoolModel { metrics: next.pool.metrics, ..rec.pool }),
        rec.seen.subset_of(next.seen),
        rec.seen_v4.subset_of(next.seen_v4),
        rec.seen_v6.subset_of(next.seen_v6),
    ensures
        covers(next),
        forall|k: u128| #[trigger] next.pool.pair_of(k) == rec.pool.pair_of(k),
{
    assert forall|k: u128| #[trigger] next.pool.pair_of(k) == rec.pool.pair_of(k) by {}
    assert forall|k: u128| (#[trigger] next.pool.pair_of(k)) is Some implies next.seen.contains(
        k,
    ) && next.seen_v4.contains(next.pool.pair_of(k)->0.v4()) && next.seen_v6.contains(next.pool.pair_of(k)->0.v6()) by {
        assert(rec.pool.pair_of(k) is Some);
    }
    assert forall|k: u128| (#[trigger] next.pool.stuck_pair(k)) is Some implies next.seen.contains(
        k,
    ) && next.seen_v4.contains(next.pool.stuck_pair(k)->0.v4()) && next.seen_v6.contains(
        next.pool.stuck_pair(k)->0.v6(),
    ) by {
        assert(rec.pool.stuck_pair(k) is Some);
    }
}

impl PoolState {
    /// How many failed deletes are waiting.
    pub fn pending_releases(&self) -> (left: usize)
        requires
            self.wf(),
        ensures
            left == self@.quarantine.len(),
    {
        self.quarantine.len()
    }

    /// Occupancy and counters.
    pub fn snapshot(&self) -> (snapshot: AddressPoolSnapshot)
        requires
            self.wf(),
        ensures
            snapshot == AddressPoolSnapshot::of(self.shape(), self@),
    {
        proof {
            self.active.lemma_finite();
            self.pending.lemma_finite();
            self.quarantine.lemma_finite();
        }
        AddressPoolSnapshot {
            active: self.active.len(),
            pending: self.pending.len(),
            pending_releases: self.quarantine.len(),
            maximum_leases: self.config.maximum_leases(),
            maximum_pending_releases: self.config.maximum_pending_releases(),
            allocations: self.metrics.allocations,
            commits: self.metrics.commits,
            releases: self.metrics.releases,
            renewals: self.metrics.renewals,
            exhausted: self.metrics.exhausted,
            owner_mismatch: self.metrics.owner_mismatch,
            pending_expired: self.metrics.pending_expired,
            active_expired: self.metrics.active_expired,
            store_failures: self.metrics.store_failures,
            recovered: self.metrics.recovered,
            recovered_dropped: self.metrics.recovered_dropped,
            release_retries: self.metrics.release_retries,
            release_retry_dropped: self.metrics.release_retry_dropped,
            quarantine_full: self.metrics.quarantine_full,
            release_retry_deferred: self.metrics.release_retry_deferred,
            inflight_conflicts: self.metrics.inflight_conflicts,
        }
    }

    pub fn config(&self) -> (config: &AddressPoolConfig)
        ensures
            config@ == self.shape(),
    {
        &self.config
    }
}

/// Deterministic exponential backoff for quarantined durable deletes:
/// `now + min(cap, base * 2^attempts)`, saturating.
pub fn next_retry_deadline(now_ms: u64, attempts: u64) -> (deadline: u64)
    ensures
        deadline == model::retry_deadline(now_ms, attempts),
{
    proof {
        power2::lemma2_to64();
    }
    let backoff: u64 = if attempts >= 6 {
        RETRY_CAP_MS
    } else {
        proof {
            if attempts < 5 {
                power2::lemma_pow2_strictly_increases(attempts as nat, 5);
            }
        }
        RETRY_BASE_MS * power_of_two(attempts as u32) as u64
    };
    now_ms.saturating_add(backoff)
}

/// Some session holds the pair, or could not give it up.
pub open spec fn held(m: PoolModel, pair: AssignedAddresses) -> bool {
    ||| exists|k: u128| #[trigger] m.pair_of(k) == Some(pair)
    ||| exists|k: u128| #[trigger] m.stuck_pair(k) == Some(pair)
}

proof fn lemma_pushed<T>(s: Seq<T>, x: T)
    ensures
        s.push(x).contains(x),
        forall|y: T| s.contains(y) ==> #[trigger] s.push(x).contains(y),
{
    assert(s.push(x)[s.len() as int] == x);
    assert forall|y: T| s.contains(y) implies #[trigger] s.push(x).contains(y) by {
        let i = s.index_of(y);
        assert(s.push(x)[i] == y);
    }
}

} // verus!
