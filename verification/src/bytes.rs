//! Numbers in memory: little-endian bytes.

use vstd::prelude::*;

verus! {

/// The `count` bytes of the number, least significant first.
pub open spec fn le_bytes(n: nat, count: nat) -> Seq<u8>
    decreases count,
{
    if count == 0 {
        Seq::empty()
    } else {
        seq![(n % 256) as u8] + le_bytes(n / 256, (count - 1) as nat)
    }
}

/// The number in the bytes, least significant first.
pub open spec fn le_value(s: Seq<u8>) -> nat
    decreases s.len(),
{
    if s.len() == 0 {
        0
    } else {
        s[0] as nat + 256 * le_value(s.skip(1))
    }
}

/// Puts the `count` low bytes of the number behind those in `out`.
pub fn push_le(out: &mut Vec<u8>, n: u64, count: usize)
    ensures
        final(out)@ == old(out)@ + le_bytes(n as nat, count as nat),
{
    let ghost start = out@;
    let mut rest: u64 = n;
    let mut left: usize = count;
    assert(out@ + le_bytes(n as nat, count as nat) =~= start + le_bytes(n as nat, count as nat));
    while left > 0
        invariant
            left <= count,
            out@ + le_bytes(rest as nat, left as nat) == start + le_bytes(n as nat, count as nat),
        decreases left,
    {
        let ghost before = out@;
        let low: u64 = rest % 256;
        out.push(low as u8);
        proof {
            let tail = le_bytes((rest / 256) as nat, (left - 1) as nat);
            assert(le_bytes(rest as nat, left as nat) == seq![low as u8] + tail);
            assert(out@ + tail =~= before + le_bytes(rest as nat, left as nat));
        }
        rest = rest / 256;
        left = left - 1;
    }
    assert(out@ + le_bytes(rest as nat, 0) =~= out@);
}

/// Reads four bytes from position `at`.
pub fn read_le_u32(s: &[u8], at: usize) -> (r: u32)
    requires
        at + 4 <= s@.len(),
    ensures
        r == le_value(s@.subrange(at as int, at + 4)),
{
    proof {
        let w = s@.subrange(at as int, at + 4);
        reveal_with_fuel(le_value, 5);
        assert(w.skip(1).skip(1).skip(1).skip(1).len() == 0);
    }
    s[at] as u32 + 256 * (s[at + 1] as u32 + 256 * (s[at + 2] as u32 + 256 * (s[at + 3] as u32)))
}

/// Reading the bytes of a number that fits in them gives the number back.
pub proof fn law_le_read_back(n: nat, count: nat)
    requires
        n < vstd::arithmetic::power::pow(256, count),
    ensures
        le_bytes(n, count).len() == count,
        le_value(le_bytes(n, count)) == n,
    decreases count,
{
    vstd::arithmetic::power::lemma_pow0(256);
    if count > 0 {
        let less = (count - 1) as nat;
        vstd::arithmetic::power::lemma_pow_adds(256, 1, less);
        vstd::arithmetic::power::lemma_pow1(256);
        assert(n / 256 < vstd::arithmetic::power::pow(256, less)) by {
            let p = vstd::arithmetic::power::pow(256, less);
            assert(n < 256 * p);
        }
        law_le_read_back(n / 256, less);
        assert(le_bytes(n, count).skip(1) =~= le_bytes(n / 256, less));
    }
}

/// Each byte is the digit of its place in base 256, the least significant first.
pub proof fn law_le_digit(n: nat, count: nat, i: nat)
    requires
        i < count,
    ensures
        le_bytes(n, count).len() == count,
        le_bytes(n, count)[i as int] == n / (vstd::arithmetic::power::pow(256, i) as nat) % 256,
    decreases count,
{
    let rest = le_bytes(n / 256, (count - 1) as nat);
    lemma_le_len(n / 256, (count - 1) as nat);
    vstd::arithmetic::power::lemma_pow0(256);
    if i > 0 {
        let less = (i - 1) as nat;
        law_le_digit(n / 256, (count - 1) as nat, less);
        let p = vstd::arithmetic::power::pow(256, less);
        vstd::arithmetic::power::lemma_pow_adds(256, 1, less);
        vstd::arithmetic::power::lemma_pow1(256);
        vstd::arithmetic::power::lemma_pow_positive(256, less);
        vstd::arithmetic::div_mod::lemma_div_denominator(n as int, 256, p);
        assert(le_bytes(n, count)[i as int] == rest[less as int]);
    } else {
        assert(n / 1 == n);
    }
}

proof fn lemma_le_len(n: nat, count: nat)
    ensures
        le_bytes(n, count).len() == count,
    decreases count,
{
    if count > 0 {
        lemma_le_len(n / 256, (count - 1) as nat);
    }
}

/// The four bytes of a number of 32 bits.
pub proof fn law_le_four(n: nat)
    requires
        n <= u32::MAX,
    ensures
        le_bytes(n, 4) == seq![
            (n % 256) as u8,
            (n / 256 % 256) as u8,
            (n / 0x1_0000 % 256) as u8,
            (n / 0x100_0000) as u8,
        ],
{
    reveal_with_fuel(le_bytes, 5);
    assert(n / 256 / 256 == n / 0x1_0000);
    assert(n / 256 / 256 / 256 == n / 0x100_0000);
    assert(le_bytes(n, 4) =~= seq![
        (n % 256) as u8,
        (n / 256 % 256) as u8,
        (n / 0x1_0000 % 256) as u8,
        (n / 0x100_0000) as u8,
    ]);
}

/// The number in bytes is the sum of the bytes, each times the weight of its
/// place.
pub proof fn law_le_value_sums(s: Seq<u8>, b: u8)
    ensures
        le_value(s.push(b)) == le_value(s) + b * vstd::arithmetic::power::pow(256, s.len()),
        le_value(Seq::empty()) == 0,
    decreases s.len(),
{
    vstd::arithmetic::power::lemma_pow0(256);
    if s.len() == 0 {
        reveal_with_fuel(le_value, 2);
        assert(s.push(b).skip(1).len() == 0);
    } else {
        let less = (s.len() - 1) as nat;
        let p = vstd::arithmetic::power::pow(256, less);
        law_le_value_sums(s.skip(1), b);
        vstd::arithmetic::power::lemma_pow_adds(256, 1, less);
        vstd::arithmetic::power::lemma_pow1(256);
        assert(s.push(b).skip(1) =~= s.skip(1).push(b));
        assert(256 * (b * p) == b * (256 * p)) by (nonlinear_arith);
    }
}

} // verus!
