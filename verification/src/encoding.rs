//! Big-endian integers, as every wire and journal format here writes them.
use vstd::prelude::*;

verus! {

/// `256^n`: how many values `n` bytes can hold.
pub open spec fn radix(n: nat) -> nat
    decreases n,
{
    if n == 0 {
        1
    } else {
        256 * radix((n - 1) as nat)
    }
}

/// The number that a byte string spells, most significant byte first.
pub open spec fn be(s: Seq<u8>) -> nat
    decreases s.len(),
{
    if s.len() == 0 {
        0
    } else {
        be(s.drop_last()) * 256 + s.last() as nat
    }
}

/// The `n` low bytes of a number, most significant byte first.
pub open spec fn to_be(v: nat, n: nat) -> Seq<u8>
    decreases n,
{
    if n == 0 {
        Seq::empty()
    } else {
        to_be(v / 256, (n - 1) as nat).push((v % 256) as u8)
    }
}

/// The sizes that the fixed-width integer types need.
pub proof fn lemma_radix_values()
    ensures
        radix(1) == 0x100,
        radix(2) == 0x1_0000,
        radix(4) == 0x1_0000_0000,
        radix(8) == 0x1_0000_0000_0000_0000,
        radix(16) == 0x1_0000_0000_0000_0000_0000_0000_0000_0000,
{
    reveal_with_fuel(radix, 17);
}

/// More bytes hold more values.
pub proof fn lemma_radix_monotone(m: nat, n: nat)
    requires
        m <= n,
    ensures
        1 <= radix(m) <= radix(n),
    decreases n,
{
    if n > 0 {
        if m == n {
            lemma_radix_monotone((m - 1) as nat, (n - 1) as nat);
        } else {
            lemma_radix_monotone(m, (n - 1) as nat);
        }
    }
}

/// A byte string of length `n` spells a number below `256^n`.
pub proof fn lemma_be_bound(s: Seq<u8>)
    ensures
        be(s) < radix(s.len()),
    decreases s.len(),
{
    if s.len() > 0 {
        lemma_be_bound(s.drop_last());
        assert(s.drop_last().len() == s.len() - 1);
    }
}

/// Writing yields as many bytes as were asked for.
pub proof fn lemma_to_be_len(v: nat, n: nat)
    ensures
        to_be(v, n).len() == n,
    decreases n,
{
    if n > 0 {
        lemma_to_be_len(v / 256, (n - 1) as nat);
    }
}

/// Reading gives back what was written, for every number that fits.
pub proof fn lemma_be_of_to_be(v: nat, n: nat)
    requires
        v < radix(n),
    ensures
        be(to_be(v, n)) == v,
    decreases n,
{
    if n > 0 {
        lemma_be_of_to_be(v / 256, (n - 1) as nat);
        assert(to_be(v, n).drop_last() =~= to_be(v / 256, (n - 1) as nat));
    }
}

/// Writing gives back the bytes that were read.
pub proof fn lemma_to_be_of_be(s: Seq<u8>)
    ensures
        to_be(be(s), s.len()) == s,
    decreases s.len(),
{
    if s.len() > 0 {
        lemma_to_be_of_be(s.drop_last());
        let v = be(s);
        assert(v / 256 == be(s.drop_last()));
        assert(v % 256 == s.last() as nat);
        assert(to_be(v, s.len()) =~= s.drop_last().push(s.last()));
        assert(s.drop_last().push(s.last()) =~= s);
    } else {
        assert(to_be(be(s), 0) =~= s);
    }
}

/// Two byte strings of one length that spell the same number are equal.
pub proof fn lemma_be_injective(a: Seq<u8>, b: Seq<u8>)
    requires
        a.len() == b.len(),
        be(a) == be(b),
    ensures
        a == b,
{
    lemma_to_be_of_be(a);
    lemma_to_be_of_be(b);
}

/// A byte string in two parts.
pub proof fn lemma_be_concat(a: Seq<u8>, b: Seq<u8>)
    ensures
        be(a + b) == be(a) * radix(b.len()) + be(b),
    decreases b.len(),
{
    if b.len() == 0 {
        assert(a + b =~= a);
        assert(be(a) * radix(0) == be(a)) by (nonlinear_arith)
            requires
                radix(0) == 1,
        ;
    } else {
        let front = b.drop_last();
        let last = b.last() as nat;
        assert((a + b).drop_last() =~= a + front);
        assert((a + b).last() == b.last());
        lemma_be_concat(a, front);
        assert(be(a + b) == be(a + front) * 256 + last);
        assert(be(b) == be(front) * 256 + last);
        let (x, r, f) = (be(a), radix(front.len()), be(front));
        assert(radix(b.len()) == 256 * r);
        assert((x * r + f) * 256 + last == x * (256 * r) + (f * 256 + last)) by (nonlinear_arith);
    }
}

/// A byte string spells zero only where every byte is zero.
pub proof fn lemma_be_zero(s: Seq<u8>)
    ensures
        be(s) == 0 <==> (forall|i: int| 0 <= i < s.len() ==> s[i] == 0),
    decreases s.len(),
{
    if s.len() > 0 {
        let front = s.drop_last();
        lemma_be_zero(front);
        if be(s) == 0 {
            assert forall|i: int| 0 <= i < s.len() implies s[i] == 0 by {
                if i < front.len() {
                    assert(front[i] == 0);
                }
            }
        } else if forall|i: int| 0 <= i < s.len() ==> s[i] == 0 {
            assert(s[s.len() - 1] == 0);
            assert forall|i: int| 0 <= i < front.len() implies front[i] == 0 by {
                assert(s[i] == 0);
            }
        }
    }
}

/// Four bytes, most significant first.
pub proof fn lemma_be_of_four(s: Seq<u8>)
    requires
        s.len() == 4,
    ensures
        be(s) == s[0] * 0x100_0000 + s[1] * 0x1_0000 + s[2] * 0x100 + s[3],
{
    reveal_with_fuel(be, 5);
}

/// Reads `len` bytes from `start` as a big-endian number.
pub fn read_be(bytes: &[u8], start: usize, len: usize) -> (value: u128)
    requires
        len <= 16,
        start + len <= bytes@.len(),
    ensures
        value == be(bytes@.subrange(start as int, start + len)),
        value < radix(len as nat),
{
    let total: usize = bytes.len();
    let mut value: u128 = 0;
    let mut i: usize = 0;
    while i < len
        invariant
            i <= len <= 16,
            start + len <= total == bytes@.len(),
            value == be(bytes@.subrange(start as int, start + i)),
            value < radix(i as nat),
        decreases len - i,
    {
        let ghost part = bytes@.subrange(start as int, start + i);
        let ghost longer = bytes@.subrange(start as int, start + i + 1);
        proof {
            assert(longer.drop_last() =~= part);
            lemma_be_bound(longer);
            lemma_radix_monotone((i + 1) as nat, 16);
            lemma_radix_values();
        }
        value = value * 256 + bytes[start + i] as u128;
        i = i + 1;
    }
    value
}

/// Appends the `len` low bytes of a number, most significant first.
pub fn append_be(out: &mut Vec<u8>, value: u128, len: usize)
    ensures
        final(out)@ == old(out)@ + to_be(value as nat, len as nat),
    decreases len,
{
    if len > 0 {
        append_be(out, value / 256, len - 1);
        out.push((value % 256) as u8);
    }
    assert(out@ =~= old(out)@ + to_be(value as nat, len as nat));
}

/// The sixteen bytes of a number.
pub fn be_bytes_16(value: u128) -> (bytes: [u8; 16])
    ensures
        bytes@ == to_be(value as nat, 16),
{
    let mut spelled: Vec<u8> = Vec::new();
    append_be(&mut spelled, value, 16);
    proof {
        lemma_to_be_len(value as nat, 16);
    }
    let mut bytes: [u8; 16] = [0u8; 16];
    let mut i: usize = 0;
    while i < 16
        invariant
            i <= 16,
            spelled@.len() == 16,
            forall|j: int| 0 <= j < i ==> bytes@[j] == spelled@[j],
        decreases 16 - i,
    {
        bytes[i] = spelled[i];
        i = i + 1;
    }
    assert(bytes@ =~= spelled@);
    bytes
}

/// The four bytes of a number.
pub fn be_bytes_4(value: u32) -> (bytes: [u8; 4])
    ensures
        bytes@ == to_be(value as nat, 4),
{
    let mut spelled: Vec<u8> = Vec::new();
    append_be(&mut spelled, value as u128, 4);
    proof {
        lemma_to_be_len(value as nat, 4);
    }
    let bytes: [u8; 4] = [spelled[0], spelled[1], spelled[2], spelled[3]];
    assert(bytes@ =~= spelled@);
    bytes
}

/// The number that four bytes spell.
pub fn be_u32(bytes: [u8; 4]) -> (value: u32)
    ensures
        value == be(bytes@),
{
    proof {
        assert(bytes@.subrange(0, 4) =~= bytes@);
        lemma_radix_values();
    }
    read_be(bytes.as_slice(), 0, 4) as u32
}

/// The number that sixteen bytes spell.
pub fn be_u128(bytes: [u8; 16]) -> (value: u128)
    ensures
        value == be(bytes@),
{
    proof {
        assert(bytes@.subrange(0, 16) =~= bytes@);
    }
    read_be(bytes.as_slice(), 0, 16)
}

/// Copies a run of a byte string.
pub fn copy_range(bytes: &[u8], start: usize, end: usize) -> (out: Vec<u8>)
    requires
        start <= end <= bytes@.len(),
    ensures
        out@ == bytes@.subrange(start as int, end as int),
{
    let mut out: Vec<u8> = Vec::new();
    let mut i: usize = start;
    while i < end
        invariant
            start <= i <= end <= bytes@.len(),
            out@ == bytes@.subrange(start as int, i as int),
        decreases end - i,
    {
        out.push(bytes[i]);
        i = i + 1;
        assert(out@ =~= bytes@.subrange(start as int, i as int));
    }
    out
}

/// Whether two byte strings are the same.
pub fn same_bytes(a: &[u8], b: &[u8]) -> (same: bool)
    ensures
        same == (a@ == b@),
{
    if a.len() != b.len() {
        return false;
    }
    let mut i: usize = 0;
    while i < a.len()
        invariant
            i <= a@.len() == b@.len(),
            a@.subrange(0, i as int) == b@.subrange(0, i as int),
        decreases a@.len() - i,
    {
        if a[i] != b[i] {
            return false;
        }
        assert(a@.subrange(0, i + 1) =~= a@.subrange(0, i as int).push(a@[i as int]));
        assert(b@.subrange(0, i + 1) =~= b@.subrange(0, i as int).push(b@[i as int]));
        i = i + 1;
    }
    assert(a@.subrange(0, i as int) =~= a@);
    assert(b@.subrange(0, i as int) =~= b@);
    true
}

} // verus!
