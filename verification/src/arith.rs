//! Powers of two, wrapping counters and counted flags.
use vstd::arithmetic::power2;
use vstd::prelude::*;

verus! {

/// `2^bits`.
pub fn power_of_two(bits: u32) -> (value: u128)
    requires
        bits < 128,
    ensures
        value == power2::pow2(bits as nat),
        value > 0,
{
    proof {
        power2::lemma2_to64();
    }
    let mut value: u128 = 1;
    let mut i: u32 = 0;
    while i < bits
        invariant
            i <= bits < 128,
            value == power2::pow2(i as nat),
            value > 0,
        decreases bits - i,
    {
        proof {
            power2::lemma_pow2_unfold((i + 1) as nat);
            if i + 1 < 127 {
                power2::lemma_pow2_strictly_increases((i + 1) as nat, 127);
            }
            lemma_pow2_127();
        }
        value = value * 2;
        i = i + 1;
    }
    value
}

proof fn lemma_pow2_127()
    ensures
        power2::pow2(127) == 0x8000_0000_0000_0000_0000_0000_0000_0000,
{
    power2::lemma2_to64();
    power2::lemma2_to64_rest();
    power2::lemma_pow2_adds(64, 63);
}

/// A counter after `n` more events. Counters wrap like the hardware does.
pub open spec fn counted(counter: u64, n: int) -> u64 {
    if counter + n > u64::MAX {
        (counter + n - 0x1_0000_0000_0000_0000) as u64
    } else {
        (counter + n) as u64
    }
}

/// Adds to a wrapping counter.
pub fn count(counter: u64, n: u64) -> (next: u64)
    ensures
        next == counted(counter, n as int),
{
    counter.wrapping_add(n)
}

/// How many of a list of flags are set.
pub open spec fn flagged(flags: Seq<bool>) -> nat
    decreases flags.len(),
{
    if flags.len() == 0 {
        0
    } else {
        flagged(flags.drop_last()) + if flags.last() {
            1nat
        } else {
            0
        }
    }
}

/// Counts the flags that are set.
pub fn count_flags(flags: &Vec<bool>) -> (total: u64)
    ensures
        total == flagged(flags@),
{
    let mut total: u64 = 0;
    let mut i: usize = 0;
    while i < flags.len()
        invariant
            i <= flags@.len(),
            total == flagged(flags@.take(i as int)),
            total <= i,
        decreases flags@.len() - i,
    {
        assert(flags@.take(i + 1).drop_last() =~= flags@.take(i as int));
        if flags[i] {
            total = total + 1;
        }
        i = i + 1;
    }
    assert(flags@.take(i as int) =~= flags@);
    total
}

/// A counter goes up by as many events as there were, and starts again from zero
/// past its end.
pub proof fn law_counters_count(counter: u64, n: int)
    requires
        0 <= n <= u64::MAX,
    ensures
        counter + n <= u64::MAX ==> counted(counter, n) == counter + n,
        counter + n > u64::MAX ==> counted(counter, n) == counter + n - u64::MAX - 1,
{
}

/// As many flags are set in a list as in its parts.
pub proof fn law_flags_add_up(a: Seq<bool>, b: Seq<bool>)
    ensures
        flagged(Seq::empty()) == 0,
        flagged(seq![true]) == 1,
        flagged(seq![false]) == 0,
        flagged(a + b) == flagged(a) + flagged(b),
    decreases b.len(),
{
    reveal_with_fuel(flagged, 2);
    if b.len() == 0 {
        assert(a + b =~= a);
    } else {
        law_flags_add_up(a, b.drop_last());
        assert((a + b).drop_last() =~= a + b.drop_last());
    }
}

} // verus!
