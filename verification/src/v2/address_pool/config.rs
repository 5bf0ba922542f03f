//! What addresses a pool owns and how many of them it may lease.
use crate::arith::power_of_two;
use crate::encoding;
use crate::encoding::{be_bytes_16, be_bytes_4, be_u128, be_u32};
use super::subnet;
use super::subnet::{subnet_number, subnet_start, SUBNET_SPAN};
use vstd::arithmetic::power2;
use vstd::prelude::*;

verus! {

/// Maximum explicitly reserved IPv4 addresses (excluding gateway/network).
pub const MAX_RESERVED_IPV4: usize = 32;

/// IPv6 lease prefix length: one `/64` per session.
pub const IPV6_LEASE_PREFIX_LEN: u8 = 64;

/// Upper bound for lease counts so allocation scans stay deterministic.
pub const MAX_LEASES_HARD_CAP: usize = 65_536;

/// Why the pool refused.
#[derive(Debug, Clone, Copy, PartialEq, Eq, Structural)]
pub enum AddressPoolError {
    InvalidConfiguration,
    Unavailable,
    Exhausted,
    OwnerMismatch,
    UnknownLease,
    Expired,
    Store,
}

/// A pool configuration as numbers: the model that contracts speak of.
#[verifier::ext_equal]
pub struct PoolShape {
    pub network: nat,
    pub v4_len: nat,
    pub gateway: nat,
    pub reserved: Seq<nat>,
    pub base: nat,
    pub v6_len: nat,
    pub max_leases: nat,
    pub pending_ttl: nat,
    pub lease_ttl: nat,
    pub max_quarantine: nat,
}

impl PoolShape {
    /// How many addresses the IPv4 network holds.
    pub open spec fn v4_span(self) -> nat {
        power2::pow2((32 - self.v4_len) as nat)
    }

    /// The last address of the IPv4 network.
    pub open spec fn broadcast(self) -> int {
        self.network + self.v4_span() - 1
    }

    /// An IPv4 host that may be leased: inside the network, and none of
    /// network, broadcast, gateway and reserved.
    pub open spec fn v4_usable(self, host: nat) -> bool {
        &&& self.network < host < self.broadcast()
        &&& host != self.gateway
        &&& !self.reserved.contains(host)
    }

    /// How many addresses the IPv6 parent holds.
    pub open spec fn v6_span(self) -> nat {
        power2::pow2((128 - self.v6_len) as nat)
    }

    /// How many `/64` subnets the IPv6 parent holds, subnet zero included.
    pub open spec fn v6_subnets(self) -> nat {
        power2::pow2((64 - self.v6_len) as nat)
    }

    /// The `/64` prefix of a subnet of the IPv6 parent.
    pub open spec fn v6_subnet(self, subnet: nat) -> nat {
        self.base + subnet * power2::pow2(64)
    }

    /// A `/64` prefix that may be leased: inside the parent, aligned, and not
    /// the gateway's own subnet zero.
    pub open spec fn v6_usable(self, prefix: nat) -> bool {
        &&& self.base < prefix < self.base + self.v6_span()
        &&& prefix % power2::pow2(64) == 0
    }

    /// Which subnet a prefix is.
    pub open spec fn subnet_index(self, prefix: nat) -> nat {
        ((prefix - self.base) / power2::pow2(64) as int) as nat
    }

    /// Every leasable prefix is a subnet, counted from one.
    pub proof fn lemma_subnet_of(self, prefix: nat)
        requires
            self.valid(),
            self.v6_usable(prefix),
        ensures
            1 <= self.subnet_index(prefix) < self.v6_subnets(),
            prefix == self.v6_subnet(self.subnet_index(prefix)),
    {
        let unit = power2::pow2(64) as int;
        let d = prefix - self.base;
        power2::lemma_pow2_pos(64);
        power2::lemma_pow2_adds(64, (64 - self.v6_len) as nat);
        assert(self.v6_span() == unit * self.v6_subnets());
        self.lemma_base_aligned();
        vstd::arithmetic::div_mod::lemma_sub_mod_noop(prefix as int, self.base as int, unit);
        assert(0int % unit == 0) by (nonlinear_arith)
            requires
                unit > 0,
        ;
        assert(d % unit == 0);
        vstd::arithmetic::div_mod::lemma_fundamental_div_mod(d, unit);
        let t = d / unit;
        assert(d == t * unit) by (nonlinear_arith)
            requires
                d == unit * t + d % unit,
                d % unit == 0,
        ;
        let n = self.v6_subnets() as int;
        assert(t >= 1) by (nonlinear_arith)
            requires
                d == t * unit,
                d > 0,
                unit > 0,
        ;
        assert(t < n) by (nonlinear_arith)
            requires
                t * unit < unit * n,
                unit > 0,
        ;
    }

    /// The IPv4 network ends within the address space.
    pub proof fn lemma_network_fits(self)
        requires
            self.valid(),
            self.network < encoding::radix(4),
        ensures
            self.broadcast() < encoding::radix(4),
    {
        let span = self.v4_span() as int;
        power2::lemma_pow2_pos((32 - self.v4_len) as nat);
        power2::lemma_pow2_adds((32 - self.v4_len) as nat, self.v4_len);
        power2::lemma2_to64();
        encoding::lemma_radix_values();
        let whole = encoding::radix(4) as int;
        let m = power2::pow2(self.v4_len) as int;
        let q = self.network as int / span;
        vstd::arithmetic::div_mod::lemma_fundamental_div_mod(self.network as int, span);
        assert(self.network + span <= whole) by (nonlinear_arith)
            requires
                self.network == span * q,
                self.network < whole,
                whole == span * m,
                span > 0,
        ;
    }

    /// Subnets ascend with their number.
    pub proof fn lemma_subnet_order(self, s: nat, t: nat)
        ensures
            s < t ==> self.v6_subnet(s) < self.v6_subnet(t),
            s <= t ==> self.v6_subnet(s) <= self.v6_subnet(t),
            self.v6_subnet(s) < self.v6_subnet(t) ==> s < t,
    {
        let unit = power2::pow2(64);
        power2::lemma_pow2_pos(64);
        assert(s < t ==> s * unit < t * unit) by (nonlinear_arith)
            requires
                unit > 0,
        ;
        assert(t <= s ==> t * unit <= s * unit) by (nonlinear_arith)
            requires
                unit > 0,
        ;
    }

    /// The base is aligned to a `/64`.
    proof fn lemma_base_aligned(self)
        requires
            self.valid(),
        ensures
            self.base % power2::pow2(64) == 0,
    {
        let unit = power2::pow2(64) as int;
        let n = self.v6_subnets() as int;
        power2::lemma_pow2_pos(64);
        power2::lemma_pow2_pos((64 - self.v6_len) as nat);
        power2::lemma_pow2_adds(64, (64 - self.v6_len) as nat);
        power2::lemma_pow2_pos((128 - self.v6_len) as nat);
        let q = self.base as int / self.v6_span() as int;
        vstd::arithmetic::div_mod::lemma_fundamental_div_mod(self.base as int, self.v6_span() as int);
        assert(self.base == unit * (n * q)) by (nonlinear_arith)
            requires
                self.base == self.v6_span() * q,
                self.v6_span() == unit * n,
        ;
        vstd::arithmetic::div_mod::lemma_mod_multiples_basic(n * q, unit);
        assert(unit * (n * q) == (n * q) * unit) by (nonlinear_arith);
    }

    /// Each subnet of the parent but subnet zero is a leasable prefix.
    pub proof fn lemma_subnet_inside(self, subnet: nat)
        requires
            self.valid(),
            1 <= subnet < self.v6_subnets(),
        ensures
            self.v6_usable(self.v6_subnet(subnet)),
    {
        let unit = power2::pow2(64) as int;
        let n = self.v6_subnets() as int;
        let span = self.v6_span() as int;
        power2::lemma_pow2_pos(64);
        power2::lemma_pow2_adds(64, (64 - self.v6_len) as nat);
        assert(0 < subnet * unit < span) by (nonlinear_arith)
            requires
                1 <= subnet < n,
                span == unit * n,
                unit > 0,
        ;
        self.lemma_base_aligned();
        vstd::arithmetic::div_mod::lemma_mod_multiples_vanish(subnet as int, self.base as int, unit);
        assert(self.v6_subnet(subnet) == unit * subnet + self.base) by (nonlinear_arith)
            requires
                self.v6_subnet(subnet) == self.base + subnet * unit,
        ;
    }

    /// The parent ends within the address space, and each subnet inside it is
    /// a leasable prefix.
    pub proof fn lemma_subnet_usable(self, subnet: nat)
        requires
            self.valid(),
            self.base < encoding::radix(16),
            1 <= subnet < self.v6_subnets(),
        ensures
            self.v6_subnet(subnet) < encoding::radix(16),
            self.v6_usable(self.v6_subnet(subnet)),
            subnet * power2::pow2(64) < encoding::radix(16),
    {
        let unit = power2::pow2(64) as int;
        let n = self.v6_subnets() as int;
        let span = self.v6_span() as int;
        power2::lemma_pow2_pos(64);
        power2::lemma_pow2_pos((64 - self.v6_len) as nat);
        power2::lemma_pow2_adds(64, (64 - self.v6_len) as nat);
        power2::lemma_pow2_adds((128 - self.v6_len) as nat, self.v6_len);
        power2::lemma_pow2_adds(64, 64);
        power2::lemma2_to64_rest();
        encoding::lemma_radix_values();
        let whole = power2::pow2(128) as int;
        assert(whole == encoding::radix(16));
        let m = power2::pow2(self.v6_len) as int;
        let q = self.base as int / span;
        vstd::arithmetic::div_mod::lemma_fundamental_div_mod(self.base as int, span);
        assert(self.base + span <= whole) by (nonlinear_arith)
            requires
                self.base == span * q,
                self.base < whole,
                whole == span * m,
                span > 0,
        ;
        assert(0 < subnet * unit < span) by (nonlinear_arith)
            requires
                1 <= subnet < n,
                span == unit * n,
                unit > 0,
        ;
        self.lemma_base_aligned();
        vstd::arithmetic::div_mod::lemma_mod_multiples_vanish(subnet as int, self.base as int, unit);
        assert(self.v6_subnet(subnet) == unit * subnet + self.base) by (nonlinear_arith)
            requires
                self.v6_subnet(subnet) == self.base + subnet * unit,
        ;
    }

    /// The upper half of the base is a multiple of the number of subnets.
    proof fn lemma_base_upper(self, v6_len: u8) -> (q: nat)
        requires
            self.valid(),
            self.v6_len == v6_len,
        ensures
            self.v6_subnets() == subnet::subnets_of(v6_len),
            power2::pow2(64) == SUBNET_SPAN,
            self.v6_span() == SUBNET_SPAN * self.v6_subnets(),
            self.v6_subnets() >= 1,
            subnet::upper(self.base) == q * self.v6_subnets(),
            subnet::upper(self.base) / self.v6_subnets() == q,
            self.base == q * self.v6_subnets() * SUBNET_SPAN,
    {
        let unit = power2::pow2(64) as int;
        let n = self.v6_subnets() as int;
        power2::lemma2_to64_rest();
        power2::lemma_pow2_pos((64 - self.v6_len) as nat);
        power2::lemma_pow2_adds(64, (64 - self.v6_len) as nat);
        power2::lemma_pow2_pos((128 - self.v6_len) as nat);
        let q = self.base as int / self.v6_span() as int;
        vstd::arithmetic::div_mod::lemma_div_pos_is_pos(self.base as int, self.v6_span() as int);
        vstd::arithmetic::div_mod::lemma_fundamental_div_mod(
            self.base as int,
            self.v6_span() as int,
        );
        assert(self.base == (q * n) * unit) by (nonlinear_arith)
            requires
                self.base == self.v6_span() * q,
                self.v6_span() == unit * n,
        ;
        vstd::arithmetic::div_mod::lemma_div_multiples_vanish(q * n, unit);
        vstd::arithmetic::div_mod::lemma_div_multiples_vanish(q, n);
        assert(unit * (q * n) == (q * n) * unit) by (nonlinear_arith);
        assert(n * q == q * n) by (nonlinear_arith);
        q as nat
    }

    /// A subnet of the parent, as its number names it.
    proof fn lemma_subnet_by_number(self, v6_len: u8, number: nat)
        requires
            self.valid(),
            self.v6_len == v6_len,
            number < self.v6_subnets(),
        ensures
            self.v6_subnet(number) == subnet::nth_subnet(self.base, v6_len, number),
    {
        let q = self.lemma_base_upper(v6_len);
        let n = self.v6_subnets();
        vstd::arithmetic::div_mod::lemma_small_mod(number, n);
        assert(q * n * SUBNET_SPAN + number * SUBNET_SPAN == (q * n + number) * SUBNET_SPAN)
            by (nonlinear_arith);
    }

    /// A leasable prefix is an aligned one inside the parent whose number is
    /// not zero.
    proof fn lemma_usable_by_index(self, v6_len: u8, prefix: nat)
        requires
            self.valid(),
            self.v6_len == v6_len,
        ensures
            self.v6_usable(prefix) <==> prefix % SUBNET_SPAN as nat == 0 && (subnet::index_of(
                self.base,
                v6_len,
                prefix,
            ) matches Some(index) && index != 0),
    {
        let q = self.lemma_base_upper(v6_len);
        let n = self.v6_subnets();
        if self.v6_usable(prefix) {
            self.lemma_subnet_of(prefix);
            let index = self.subnet_index(prefix);
            self.lemma_subnet_by_number(v6_len, index);
            subnet::law_subnet_index_gives_the_subnet_back(self.base, v6_len, index);
        }
        if prefix % SUBNET_SPAN as nat == 0 {
            if let Some(index) = subnet::index_of(self.base, v6_len, prefix) {
                subnet::law_index_names_the_subnet(self.base, v6_len, prefix);
                if index != 0 {
                    self.lemma_subnet_by_number(v6_len, index);
                    assert(0 < index * SUBNET_SPAN < SUBNET_SPAN * n) by (nonlinear_arith)
                        requires
                            0 < index < n,
                    ;
                }
            }
        }
    }

    /// What a configuration must meet.
    pub open spec fn valid(self) -> bool {
        &&& 8 <= self.v4_len <= 30
        &&& 1 <= self.max_leases <= MAX_LEASES_HARD_CAP
        &&& 1 <= self.pending_ttl <= 3_600_000
        &&& 1_000 <= self.lease_ttl <= 86_400_000
        &&& 1 <= self.max_quarantine <= MAX_LEASES_HARD_CAP
        &&& self.reserved.len() <= MAX_RESERVED_IPV4
        &&& 16 <= self.v6_len <= 63
        &&& self.network % self.v4_span() == 0
        &&& self.network < self.gateway < self.broadcast()
        &&& forall|i: int|
            0 <= i < self.reserved.len() ==> self.network < #[trigger] self.reserved[i]
                < self.broadcast() && self.reserved[i] != self.gateway
        &&& self.reserved.no_duplicates()
        &&& self.base % self.v6_span() == 0
        &&& self.max_leases <= self.v6_subnets() - 1
        &&& self.max_leases <= self.v4_span() - 3 - self.reserved.len()
    }

    /// The configuration that a set of arguments describes.
    pub open spec fn described(
        ipv4_network: Seq<u8>,
        ipv4_prefix_len: u8,
        ipv4_gateway: Seq<u8>,
        reserved_ipv4: Seq<[u8; 4]>,
        ipv6_base: Seq<u8>,
        ipv6_parent_prefix_len: u8,
        maximum_leases: usize,
        pending_ttl_ms: u64,
        lease_ttl_ms: u64,
        maximum_pending_releases: usize,
    ) -> PoolShape {
        PoolShape {
            network: encoding::be(ipv4_network),
            v4_len: ipv4_prefix_len as nat,
            gateway: encoding::be(ipv4_gateway),
            reserved: reserved_ipv4.map_values(|a: [u8; 4]| encoding::be(a@)),
            base: encoding::be(ipv6_base),
            v6_len: ipv6_parent_prefix_len as nat,
            max_leases: maximum_leases as nat,
            pending_ttl: pending_ttl_ms as nat,
            lease_ttl: lease_ttl_ms as nat,
            max_quarantine: maximum_pending_releases as nat,
        }
    }
}

/// Configuration for the bounded address pool. Fields are private to force
/// validation by [`AddressPoolConfig::new`].
#[derive(Debug, Clone)]
pub struct AddressPoolConfig {
    network: u32,
    v4_len: u8,
    gateway: u32,
    reserved: Vec<u32>,
    base: u128,
    v6_len: u8,
    max_leases: usize,
    pending_ttl: u64,
    lease_ttl: u64,
    max_quarantine: usize,
}

impl View for AddressPoolConfig {
    type V = PoolShape;

    closed spec fn view(&self) -> PoolShape {
        PoolShape {
            network: self.network as nat,
            v4_len: self.v4_len as nat,
            gateway: self.gateway as nat,
            reserved: self.reserved@.map_values(|r: u32| r as nat),
            base: self.base as nat,
            v6_len: self.v6_len as nat,
            max_leases: self.max_leases as nat,
            pending_ttl: self.pending_ttl as nat,
            lease_ttl: self.lease_ttl as nat,
            max_quarantine: self.max_quarantine as nat,
        }
    }
}

impl AddressPoolConfig {
    /// A configuration that passed validation.
    pub open spec fn wf(&self) -> bool {
        self@.valid()
    }

    /// Validates and builds a pool config. Every refusal is
    /// `InvalidConfiguration`.
    ///
    /// - `ipv4_network`/`ipv4_prefix_len`: `8..=30`, masked base required.
    /// - `ipv4_gateway`: must lie inside the network and must not be the
    ///   network or broadcast address.
    /// - `reserved_ipv4`: at most 32 distinct entries, each inside the network
    ///   and distinct from gateway/network/broadcast.
    /// - `ipv6_base`/`ipv6_parent_prefix_len`: parent `16..=63`, base host
    ///   bits beyond the parent must be zero.
    /// - `maximum_leases`: `1..=65536` and no larger than either address
    ///   family can supply.
    /// - TTLs: `pending_ttl_ms` in `1..=3_600_000`, `lease_ttl_ms` in
    ///   `1_000..=86_400_000`.
    #[verifier::loop_isolation(false)]
    pub fn new(
        ipv4_network: [u8; 4],
        ipv4_prefix_len: u8,
        ipv4_gateway: [u8; 4],
        reserved_ipv4: Vec<[u8; 4]>,
        ipv6_base: [u8; 16],
        ipv6_parent_prefix_len: u8,
        maximum_leases: usize,
        pending_ttl_ms: u64,
        lease_ttl_ms: u64,
        maximum_pending_releases: usize,
    ) -> (result: Result<Self, AddressPoolError>)
        ensures
            ({
                let shape = PoolShape::described(
                    ipv4_network@,
                    ipv4_prefix_len,
                    ipv4_gateway@,
                    reserved_ipv4@,
                    ipv6_base@,
                    ipv6_parent_prefix_len,
                    maximum_leases,
                    pending_ttl_ms,
                    lease_ttl_ms,
                    maximum_pending_releases,
                );
                match result {
                    Ok(config) => config@ == shape && shape.valid(),
                    Err(e) => e == AddressPoolError::InvalidConfiguration && !shape.valid(),
                }
            }),
    {
        let ghost shape = PoolShape::described(
            ipv4_network@,
            ipv4_prefix_len,
            ipv4_gateway@,
            reserved_ipv4@,
            ipv6_base@,
            ipv6_parent_prefix_len,
            maximum_leases,
            pending_ttl_ms,
            lease_ttl_ms,
            maximum_pending_releases,
        );
        if ipv4_prefix_len < 8 || ipv4_prefix_len > 30 {
            return Err(AddressPoolError::InvalidConfiguration);
        }
        if maximum_leases == 0 || maximum_leases > MAX_LEASES_HARD_CAP {
            return Err(AddressPoolError::InvalidConfiguration);
        }
        if pending_ttl_ms < 1 || pending_ttl_ms > 3_600_000 {
            return Err(AddressPoolError::InvalidConfiguration);
        }
        if lease_ttl_ms < 1_000 || lease_ttl_ms > 86_400_000 {
            return Err(AddressPoolError::InvalidConfiguration);
        }
        if maximum_pending_releases == 0 || maximum_pending_releases > MAX_LEASES_HARD_CAP {
            return Err(AddressPoolError::InvalidConfiguration);
        }
        if reserved_ipv4.len() > MAX_RESERVED_IPV4 {
            return Err(AddressPoolError::InvalidConfiguration);
        }
        if ipv6_parent_prefix_len < 16 || ipv6_parent_prefix_len > 63 {
            return Err(AddressPoolError::InvalidConfiguration);
        }
        let span: u128 = power_of_two(32 - ipv4_prefix_len as u32);
        proof {
            power2::lemma2_to64();
            power2::lemma_pow2_strictly_increases((32 - ipv4_prefix_len) as nat, 25);
        }
        let network: u32 = be_u32(ipv4_network);
        if network as u128 % span != 0 {
            return Err(AddressPoolError::InvalidConfiguration);
        }
        let broadcast: u128 = network as u128 + span - 1;
        let gateway: u32 = be_u32(ipv4_gateway);
        if gateway <= network || gateway as u128 >= broadcast {
            return Err(AddressPoolError::InvalidConfiguration);
        }
        let mut reserved: Vec<u32> = Vec::new();
        let mut i: usize = 0;
        while i < reserved_ipv4.len()
            invariant
                i <= reserved_ipv4@.len() == shape.reserved.len(),
                reserved@.len() == i,
                shape.reserved == reserved_ipv4@.map_values(|a: [u8; 4]| encoding::be(a@)),
                shape.network == network,
                shape.gateway == gateway,
                shape.broadcast() == broadcast,
                forall|j: int| 0 <= j < i ==> #[trigger] reserved@[j] == shape.reserved[j],
                forall|j: int|
                    0 <= j < i ==> network < #[trigger] shape.reserved[j] < broadcast
                        && shape.reserved[j] != gateway,
                forall|j: int, k: int|
                    0 <= j < k < i ==> #[trigger] shape.reserved[j] != #[trigger] shape.reserved[k],
            decreases reserved_ipv4@.len() - i,
        {
            let value: u32 = be_u32(reserved_ipv4[i]);
            assert(shape.reserved[i as int] == value);
            if value <= network || value as u128 >= broadcast || value == gateway {
                return Err(AddressPoolError::InvalidConfiguration);
            }
            let mut j: usize = 0;
            while j < reserved.len()
                invariant
                    j <= reserved@.len() == i,
                    i < shape.reserved.len(),
                    shape.reserved[i as int] == value,
                    forall|k: int| 0 <= k < i ==> #[trigger] reserved@[k] == shape.reserved[k],
                    forall|k: int| 0 <= k < j ==> #[trigger] shape.reserved[k] != value,
                decreases reserved@.len() - j,
            {
                if reserved[j] == value {
                    assert(shape.reserved[j as int] == shape.reserved[i as int]);
                    assert(!shape.reserved.no_duplicates());
                    return Err(AddressPoolError::InvalidConfiguration);
                }
                j = j + 1;
            }
            reserved.push(value);
            i = i + 1;
        }
        let base: u128 = be_u128(ipv6_base);
        let v6_span: u128 = power_of_two(128 - ipv6_parent_prefix_len as u32);
        if base % v6_span != 0 {
            return Err(AddressPoolError::InvalidConfiguration);
        }
        let subnets: u128 = power_of_two(64 - ipv6_parent_prefix_len as u32);
        if maximum_leases as u128 > subnets - 1 {
            return Err(AddressPoolError::InvalidConfiguration);
        }
        if maximum_leases as u128 + 3 + reserved.len() as u128 > span {
            return Err(AddressPoolError::InvalidConfiguration);
        }
        let config = AddressPoolConfig {
            network,
            v4_len: ipv4_prefix_len,
            gateway,
            reserved,
            base,
            v6_len: ipv6_parent_prefix_len,
            max_leases: maximum_leases,
            pending_ttl: pending_ttl_ms,
            lease_ttl: lease_ttl_ms,
            max_quarantine: maximum_pending_releases,
        };
        assert(config@.reserved =~= shape.reserved);
        Ok(config)
    }

    pub(crate) fn network_number(&self) -> (value: u32)
        ensures
            value == self@.network,
    {
        self.network
    }

    pub(crate) fn gateway_number(&self) -> (value: u32)
        ensures
            value == self@.gateway,
    {
        self.gateway
    }

    /// The last address of the IPv4 network.
    pub(crate) fn broadcast_number(&self) -> (value: u32)
        requires
            self.wf(),
        ensures
            value == self@.broadcast(),
            value > self@.network + 1,
    {
        let span: u128 = power_of_two(32 - self.v4_len as u32);
        proof {
            encoding::lemma_radix_values();
            self@.lemma_network_fits();
        }
        (self.network as u128 + span - 1) as u32
    }

    pub(crate) fn is_reserved(&self, host: u32) -> (found: bool)
        ensures
            found == self@.reserved.contains(host as nat),
    {
        let ghost reserved = self@.reserved;
        let mut i: usize = 0;
        while i < self.reserved.len()
            invariant
                i <= self.reserved@.len() == reserved.len(),
                reserved == self.reserved@.map_values(|r: u32| r as nat),
                reserved == self@.reserved,
                forall|j: int| 0 <= j < i ==> #[trigger] reserved[j] != host,
            decreases self.reserved@.len() - i,
        {
            if self.reserved[i] == host {
                assert(reserved[i as int] == host as nat);
                return true;
            }
            i = i + 1;
        }
        false
    }

    /// Whether an IPv4 host may be leased.
    pub(crate) fn is_usable_v4(&self, host: u32) -> (usable: bool)
        requires
            self.wf(),
        ensures
            usable == self@.v4_usable(host as nat),
    {
        host > self.network && host < self.broadcast_number() && host != self.gateway
            && !self.is_reserved(host)
    }

    /// Whether an IPv6 prefix may be leased.
    pub(crate) fn is_usable_v6(&self, prefix: u128) -> (usable: bool)
        requires
            self.wf(),
        ensures
            usable == self@.v6_usable(prefix as nat),
    {
        proof {
            self@.lemma_usable_by_index(self.v6_len, prefix as nat);
        }
        match subnet_number(self.base, self.v6_len, prefix) {
            Some(number) => number != 0 && prefix % SUBNET_SPAN == 0,
            None => false,
        }
    }

    /// How many `/64` subnets the parent holds.
    pub(crate) fn subnet_count(&self) -> (value: u128)
        requires
            self.wf(),
        ensures
            value == self@.v6_subnets(),
    {
        power_of_two(64 - self.v6_len as u32)
    }

    /// The prefix of a subnet.
    pub(crate) fn subnet_prefix(&self, subnet: u128) -> (prefix: u128)
        requires
            self.wf(),
            1 <= subnet < self@.v6_subnets(),
        ensures
            prefix == self@.v6_subnet(subnet as nat),
            self@.v6_usable(prefix as nat),
    {
        proof {
            encoding::lemma_radix_values();
            self@.lemma_subnet_usable(subnet as nat);
            self@.lemma_subnet_by_number(self.v6_len, subnet as nat);
            power2::lemma2_to64_rest();
            power2::lemma_pow2_strictly_increases((64 - self.v6_len) as nat, 64);
        }
        subnet_start(self.base, self.v6_len, subnet as u64)
    }

    pub fn maximum_leases(&self) -> (value: usize)
        ensures
            value == self@.max_leases,
    {
        self.max_leases
    }

    /// How many failed durable deletes may wait in quarantine.
    pub fn maximum_pending_releases(&self) -> (value: usize)
        ensures
            value == self@.max_quarantine,
    {
        self.max_quarantine
    }

    pub fn pending_ttl_ms(&self) -> (value: u64)
        ensures
            value == self@.pending_ttl,
    {
        self.pending_ttl
    }

    pub fn lease_ttl_ms(&self) -> (value: u64)
        ensures
            value == self@.lease_ttl,
    {
        self.lease_ttl
    }

    pub fn ipv4_gateway(&self) -> (bytes: [u8; 4])
        ensures
            bytes@ == encoding::to_be(self@.gateway, 4),
            encoding::be(bytes@) == self@.gateway,
    {
        proof {
            encoding::lemma_radix_values();
            encoding::lemma_be_of_to_be(self.gateway as nat, 4);
        }
        be_bytes_4(self.gateway)
    }

    pub fn ipv4_prefix_len(&self) -> (value: u8)
        ensures
            value == self@.v4_len,
    {
        self.v4_len
    }

    pub fn ipv6_base(&self) -> (bytes: [u8; 16])
        ensures
            bytes@ == encoding::to_be(self@.base, 16),
    {
        be_bytes_16(self.base)
    }

    pub fn ipv6_parent_prefix_len(&self) -> (value: u8)
        ensures
            value == self@.v6_len,
    {
        self.v6_len
    }
}

/// What a pool may be configured with: an IPv4 network of 8 to 30 bits and an IPv6
/// parent of 16 to 63, both with nothing behind their prefix; a gateway and up to 32
/// more hosts kept out, all different and strictly inside the network; no more
/// leases than 65,536, than there are other hosts, or than there are `/64` subnets
/// but the first; and the two TTLs and the quarantine within their ranges.
pub proof fn law_valid_shapes(shape: PoolShape)
    ensures
        shape.valid() <==> {
            let hosts = power2::pow2((32 - shape.v4_len) as nat);
            let subnets = power2::pow2((64 - shape.v6_len) as nat);
            &&& 8 <= shape.v4_len <= 30
            &&& 16 <= shape.v6_len <= 63
            &&& shape.network % hosts == 0
            &&& shape.base % power2::pow2((128 - shape.v6_len) as nat) == 0
            &&& shape.network < shape.gateway < shape.network + hosts - 1
            &&& shape.reserved.len() <= 32
            &&& forall|i: int|
                0 <= i < shape.reserved.len() ==> shape.network < #[trigger] shape.reserved[i]
                    < shape.network + hosts - 1
            &&& forall|i: int|
                0 <= i < shape.reserved.len() ==> #[trigger] shape.reserved[i] != shape.gateway
            &&& forall|i: int, j: int|
                0 <= i < j < shape.reserved.len() ==> #[trigger] shape.reserved[i]
                    != #[trigger] shape.reserved[j]
            &&& 1 <= shape.max_leases <= 65_536
            &&& shape.max_leases <= subnets - 1
            &&& shape.max_leases + shape.reserved.len() + 3 <= hosts
            &&& 1 <= shape.pending_ttl <= 3_600_000
            &&& 1_000 <= shape.lease_ttl <= 86_400_000
            &&& 1 <= shape.max_quarantine <= 65_536
        },
{
    if forall|i: int, j: int|
        0 <= i < j < shape.reserved.len() ==> #[trigger] shape.reserved[i]
            != #[trigger] shape.reserved[j] {
        assert(shape.reserved.no_duplicates()) by {
            assert forall|i: int, j: int|
                0 <= i < shape.reserved.len() && 0 <= j < shape.reserved.len() && i
                    != j implies shape.reserved[i] != shape.reserved[j] by {
                if i < j {
                    assert(shape.reserved[i] != shape.reserved[j]);
                } else {
                    assert(shape.reserved[j] != shape.reserved[i]);
                }
            }
        }
    }
}

} // verus!
