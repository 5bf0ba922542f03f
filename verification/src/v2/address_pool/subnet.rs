//! The `/64` subnets of an IPv6 parent prefix.
//!
//! A subnet is the upper half of an address: the bits of the parent, and behind
//! them the subnet's number.
use crate::arith::power_of_two;
use crate::encoding;
use crate::encoding::{be_bytes_16, be_u128};
use vstd::arithmetic::div_mod;
use vstd::arithmetic::power2;
use vstd::prelude::*;

verus! {

/// How many addresses a `/64` holds.
pub const SUBNET_SPAN: u128 = 0x1_0000_0000_0000_0000;

/// How many `/64` subnets a parent holds. One that is no shorter holds one.
pub open spec fn subnets_of(parent_len: u8) -> nat {
    if parent_len < 64 {
        power2::pow2((64 - parent_len) as nat)
    } else {
        1
    }
}

/// The upper half of an address.
pub open spec fn upper(address: nat) -> nat {
    address / SUBNET_SPAN as nat
}

/// Two addresses agree in the bits of the parent.
pub open spec fn same_parent(a: nat, b: nat, parent_len: u8) -> bool {
    upper(a) / subnets_of(parent_len) == upper(b) / subnets_of(parent_len)
}

/// The first address of a subnet.
pub open spec fn nth_subnet(base: nat, parent_len: u8, subnet: nat) -> nat {
    let n = subnets_of(parent_len);
    (upper(base) / n * n + subnet % n) * SUBNET_SPAN as nat
}

/// Which subnet of the parent an address lies in.
pub open spec fn index_of(base: nat, parent_len: u8, address: nat) -> Option<nat> {
    if same_parent(address, base, parent_len) {
        Some(upper(address) % subnets_of(parent_len))
    } else {
        None
    }
}

fn subnet_count(parent_len: u8) -> (count: u128)
    ensures
        count == subnets_of(parent_len),
        1 <= count <= SUBNET_SPAN,
{
    proof {
        power2::lemma2_to64();
        power2::lemma2_to64_rest();
        if 0 < parent_len < 64 {
            power2::lemma_pow2_strictly_increases((64 - parent_len) as nat, 64);
        }
    }
    if parent_len < 64 {
        power_of_two(64 - parent_len as u32)
    } else {
        1
    }
}

/// See [`same_parent`].
pub(crate) fn shares_parent(address: u128, base: u128, parent_len: u8) -> (shared: bool)
    ensures
        shared == same_parent(address as nat, base as nat, parent_len),
{
    let n: u128 = subnet_count(parent_len);
    address / SUBNET_SPAN / n == base / SUBNET_SPAN / n
}

/// See [`nth_subnet`].
pub(crate) fn subnet_start(base: u128, parent_len: u8, subnet: u64) -> (start: u128)
    ensures
        start == nth_subnet(base as nat, parent_len, subnet as nat),
{
    let n: u128 = subnet_count(parent_len);
    proof {
        encoding::lemma_radix_values();
        lemma_nth_fits(base as nat, parent_len, subnet as nat);
        let q = upper(base as nat) / subnets_of(parent_len);
        assert(q * n >= 0) by (nonlinear_arith)
            requires
                q >= 0,
                n >= 0,
        ;
    }
    let upper: u128 = base / SUBNET_SPAN / n * n + subnet as u128 % n;
    upper * SUBNET_SPAN
}

/// See [`index_of`].
pub(crate) fn subnet_number(base: u128, parent_len: u8, address: u128) -> (number: Option<u64>)
    ensures
        match number {
            Some(number) => index_of(base as nat, parent_len, address as nat) == Some(
                number as nat,
            ),
            None => index_of(base as nat, parent_len, address as nat) is None,
        },
{
    if !shares_parent(address, base, parent_len) {
        return None;
    }
    let n: u128 = subnet_count(parent_len);
    Some((address / SUBNET_SPAN % n) as u64)
}

/// The `/64` prefix of a subnet. Bits of the number that the parent has no room
/// for are dropped, as are the bits of the base behind the parent.
pub fn ipv6_subnet_prefix(base: &[u8; 16], parent_len: u8, subnet: u64) -> (prefix: [u8; 16])
    ensures
        prefix@ == encoding::to_be(
            nth_subnet(encoding::be(base@), parent_len, subnet as nat),
            16,
        ),
        encoding::be(prefix@) == nth_subnet(encoding::be(base@), parent_len, subnet as nat),
{
    let start: u128 = subnet_start(be_u128(*base), parent_len, subnet);
    proof {
        encoding::lemma_radix_values();
        encoding::lemma_be_of_to_be(start as nat, 16);
    }
    be_bytes_16(start)
}

/// Whether a prefix lies inside the parent.
pub fn ipv6_prefix_matches_parent(prefix: &[u8; 16], base: &[u8; 16], parent_len: u8) -> (matches:
    bool)
    ensures
        matches == same_parent(encoding::be(prefix@), encoding::be(base@), parent_len),
{
    shares_parent(be_u128(*prefix), be_u128(*base), parent_len)
}

/// Whether the lower half of a prefix is zero.
pub fn ipv6_is_64_aligned(prefix: &[u8; 16]) -> (aligned: bool)
    ensures
        aligned == (encoding::be(prefix@) % SUBNET_SPAN as nat == 0),
{
    be_u128(*prefix) % SUBNET_SPAN == 0
}

/// Which subnet of the parent a prefix is, where it lies inside.
pub fn ipv6_subnet_index(base: &[u8; 16], parent_len: u8, prefix: &[u8; 16]) -> (index: Option<u64>)
    ensures
        match index {
            Some(index) => index_of(encoding::be(base@), parent_len, encoding::be(prefix@))
                == Some(index as nat),
            None => index_of(encoding::be(base@), parent_len, encoding::be(prefix@)) is None,
        },
{
    subnet_number(be_u128(*base), parent_len, be_u128(*prefix))
}

/// A parent has a subnet, and no more than there are upper halves.
proof fn lemma_subnets_bound(parent_len: u8)
    ensures
        1 <= subnets_of(parent_len) <= SUBNET_SPAN,
{
    power2::lemma2_to64();
    power2::lemma2_to64_rest();
    if parent_len < 64 {
        power2::lemma_pow2_pos((64 - parent_len) as nat);
        if 0 < parent_len {
            power2::lemma_pow2_strictly_increases((64 - parent_len) as nat, 64);
        }
    }
}

/// A subnet ends within the address space.
proof fn lemma_nth_fits(base: nat, parent_len: u8, subnet: nat)
    requires
        base < encoding::radix(16),
    ensures
        ({
            let n = subnets_of(parent_len);
            &&& upper(base) / n * n + subnet % n < SUBNET_SPAN
            &&& nth_subnet(base, parent_len, subnet) < encoding::radix(16)
        }),
{
    encoding::lemma_radix_values();
    lemma_subnets_bound(parent_len);
    let n = subnets_of(parent_len) as int;
    let top = upper(base) as int;
    assert(top < SUBNET_SPAN);
    // The span is a multiple of the number of subnets.
    let m: int = if parent_len < 64 {
        power2::pow2(parent_len as nat) as int
    } else {
        SUBNET_SPAN as int
    };
    assert(SUBNET_SPAN as int == n * m) by {
        power2::lemma2_to64_rest();
        if parent_len < 64 {
            power2::lemma_pow2_adds((64 - parent_len) as nat, parent_len as nat);
        }
    }
    let q = top / n;
    let r = subnet as int % n;
    div_mod::lemma_fundamental_div_mod(top, n);
    div_mod::lemma_mod_bound(top, n);
    div_mod::lemma_mod_bound(subnet as int, n);
    assert(q < m) by (nonlinear_arith)
        requires
            top == n * q + top % n,
            0 <= top % n,
            top < n * m,
            n > 0,
    ;
    assert(q * n + r < n * m) by (nonlinear_arith)
        requires
            q < m,
            r < n,
            n > 0,
    ;
    assert((q * n + r) * SUBNET_SPAN < encoding::radix(16)) by (nonlinear_arith)
        requires
            q * n + r < SUBNET_SPAN,
            encoding::radix(16) == SUBNET_SPAN * SUBNET_SPAN,
    ;
}

/// The number of a subnet gives the subnet back: for every parent and every
/// subnet that it has room for, zero included, the subnet's prefix is aligned,
/// lies inside the parent, and has that number as its index.
pub proof fn law_subnet_index_gives_the_subnet_back(base: nat, parent_len: u8, subnet: nat)
    requires
        subnet < subnets_of(parent_len),
    ensures
        index_of(base, parent_len, nth_subnet(base, parent_len, subnet)) == Some(subnet),
        nth_subnet(base, parent_len, subnet) % SUBNET_SPAN as nat == 0,
        same_parent(nth_subnet(base, parent_len, subnet), base, parent_len),
{
    lemma_subnets_bound(parent_len);
    let n = subnets_of(parent_len) as int;
    let unit = SUBNET_SPAN as int;
    let q = upper(base) as int / n;
    let top = q * n + subnet;
    div_mod::lemma_small_mod(subnet, n as nat);
    assert(q >= 0) by {
        div_mod::lemma_div_pos_is_pos(upper(base) as int, n);
    }
    assert(top >= 0) by (nonlinear_arith)
        requires
            q >= 0,
            n > 0,
            top == q * n + subnet,
            subnet >= 0,
    ;
    let p = nth_subnet(base, parent_len, subnet);
    assert(p == top * unit);
    div_mod::lemma_div_multiples_vanish(top, unit);
    div_mod::lemma_mod_multiples_basic(top, unit);
    assert(unit * top == top * unit) by (nonlinear_arith);
    assert(upper(p) == top);
    div_mod::lemma_fundamental_div_mod_converse(top, n, q, subnet as int);
}

/// A prefix has no index exactly where it lies outside the parent; and an
/// aligned one inside is the subnet that its index names.
pub proof fn law_index_names_the_subnet(base: nat, parent_len: u8, prefix: nat)
    ensures
        index_of(base, parent_len, prefix) is None <==> !same_parent(prefix, base, parent_len),
        index_of(base, parent_len, prefix) matches Some(index) ==> index < subnets_of(parent_len)
            && (prefix % SUBNET_SPAN as nat == 0 ==> prefix == nth_subnet(
            base,
            parent_len,
            index,
        )),
{
    lemma_subnets_bound(parent_len);
    let n = subnets_of(parent_len) as int;
    let unit = SUBNET_SPAN as int;
    let top = upper(prefix) as int;
    div_mod::lemma_fundamental_div_mod(top, n);
    div_mod::lemma_mod_bound(top, n);
    div_mod::lemma_fundamental_div_mod(prefix as int, unit);
    if index_of(base, parent_len, prefix) is Some {
        let q = upper(base) as int / n;
        let index = (top % n) as nat;
        div_mod::lemma_small_mod(index, n as nat);
        assert(top == q * n + index) by (nonlinear_arith)
            requires
                top == n * q + index,
        ;
        if prefix % SUBNET_SPAN as nat == 0 {
            assert(prefix == top * unit) by (nonlinear_arith)
                requires
                    prefix == unit * top,
            ;
        }
    }
}

/// Different subnets of a parent have different prefixes.
pub proof fn law_subnets_are_distinct(base: nat, parent_len: u8, a: nat, b: nat)
    requires
        a < subnets_of(parent_len),
        b < subnets_of(parent_len),
        a != b,
    ensures
        nth_subnet(base, parent_len, a) != nth_subnet(base, parent_len, b),
{
    law_subnet_index_gives_the_subnet_back(base, parent_len, a);
    law_subnet_index_gives_the_subnet_back(base, parent_len, b);
}

/// Two addresses have one parent exactly where they agree in as many leading bits
/// as the parent has.
pub proof fn law_parents_are_leading_bits(a: nat, b: nat, parent_len: u8)
    requires
        parent_len <= 64,
    ensures
        same_parent(a, b, parent_len) <==> a / power2::pow2((128 - parent_len) as nat) == b
            / power2::pow2((128 - parent_len) as nat),
{
    let n = subnets_of(parent_len);
    power2::lemma2_to64();
    power2::lemma2_to64_rest();
    power2::lemma_pow2_pos((64 - parent_len) as nat);
    power2::lemma_pow2_adds(64, (64 - parent_len) as nat);
    div_mod::lemma_div_denominator(a as int, SUBNET_SPAN as int, n as int);
    div_mod::lemma_div_denominator(b as int, SUBNET_SPAN as int, n as int);
}

/// The subnets of a parent follow one another from its base, a `/64` apart, and the
/// number of a subnet that there is room for is kept whole.
pub proof fn law_subnets_follow_the_base(base: nat, parent_len: u8, subnet: nat)
    requires
        parent_len < 64,
        base % power2::pow2((128 - parent_len) as nat) == 0,
        subnet < power2::pow2((64 - parent_len) as nat),
    ensures
        nth_subnet(base, parent_len, subnet) == base + subnet * 0x1_0000_0000_0000_0000,
        index_of(base, parent_len, nth_subnet(base, parent_len, subnet)) == Some(subnet),
{
    let n = subnets_of(parent_len) as int;
    let unit = SUBNET_SPAN as int;
    power2::lemma2_to64();
    power2::lemma2_to64_rest();
    power2::lemma_pow2_pos((64 - parent_len) as nat);
    power2::lemma_pow2_adds(64, (64 - parent_len) as nat);
    let q = base as int / (unit * n);
    div_mod::lemma_fundamental_div_mod(base as int, unit * n);
    assert(unit * n > 0) by (nonlinear_arith)
        requires
            unit > 0,
            n > 0,
    ;
    div_mod::lemma_div_pos_is_pos(base as int, unit * n);
    assert(base == (q * n) * unit) by (nonlinear_arith)
        requires
            base == (unit * n) * q,
    ;
    div_mod::lemma_div_multiples_vanish(q * n, unit);
    assert(unit * (q * n) == (q * n) * unit) by (nonlinear_arith);
    div_mod::lemma_div_multiples_vanish(q, n);
    assert(n * q == q * n) by (nonlinear_arith);
    div_mod::lemma_small_mod(subnet, n as nat);
    assert((q * n + subnet) * unit == (q * n) * unit + subnet * unit) by (nonlinear_arith);
    law_subnet_index_gives_the_subnet_back(base, parent_len, subnet);
}

} // verus!
