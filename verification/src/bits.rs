//! Bit-level helpers for the 25-bit board encoding.
//!
//! A square of the 5x5 board is a single set bit in the low 25 bits of a
//! `u32`.  This module gives the spec-level vocabulary for single bits and
//! bit tests together with the handful of bit-vector lemmas that the rest of
//! the crate builds on, and a verified population count.

use vstd::prelude::*;

verus! {

/// True when bit `k` of `m` is set.
pub open spec fn nth_bit(m: u32, k: u32) -> bool {
    (m >> k) & 1 == 1
}

/// The word with exactly bit `k` set.
pub open spec fn one_bit(k: u32) -> u32 {
    1u32 << k
}

/// Bit `k` of the all-zero word is clear.
pub proof fn lemma_zero_bit(k: u32)
    by (bit_vector)
    ensures
        !nth_bit(0u32, k),
{
}

/// A single-bit word is not zero and, below bit 25, stays under `1 << 25`.
pub proof fn lemma_one_bit_bounds(k: u32)
    by (bit_vector)
    requires
        k < 32,
    ensures
        one_bit(k) != 0,
        k < 25 ==> one_bit(k) < 0x2000000,
{
}

/// Two single-bit words are equal exactly when their bit indexes are.
pub proof fn lemma_one_bit_injective(j: u32, k: u32)
    by (bit_vector)
    requires
        j < 32,
        k < 32,
    ensures
        one_bit(j) == one_bit(k) <==> j == k,
{
}

/// Bit `j` of a single-bit word `one_bit(k)` is set exactly when `j == k`.
pub proof fn lemma_one_bit_test(j: u32, k: u32)
    by (bit_vector)
    requires
        j < 32,
        k < 32,
    ensures
        nth_bit(one_bit(k), j) <==> j == k,
{
}

/// Intersecting with a single-bit word keeps that bit or clears the word.
pub proof fn lemma_and_one_bit(m: u32, j: u32)
    by (bit_vector)
    requires
        j < 32,
    ensures
        m & one_bit(j) == if nth_bit(m, j) {
            one_bit(j)
        } else {
            0u32
        },
        one_bit(j) & m == m & one_bit(j),
{
}

/// Two single-bit words intersect exactly when they are the same bit.
pub proof fn lemma_one_bit_and_one_bit(j: u32, k: u32)
    by (bit_vector)
    requires
        j < 32,
        k < 32,
    ensures
        one_bit(j) & one_bit(k) == if j == k {
            one_bit(j)
        } else {
            0u32
        },
{
}

/// A bit of a union is set exactly when it is set on either side.
pub proof fn lemma_or_bit(a: u32, b: u32, j: u32)
    by (bit_vector)
    ensures
        nth_bit(a | b, j) <==> nth_bit(a, j) || nth_bit(b, j),
{
}

/// Left-shifting a single bit moves it up or drops it off the word.
pub proof fn lemma_shl_one_bit(k: u32, m: u32)
    by (bit_vector)
    requires
        k < 25,
        m <= 12,
    ensures
        one_bit(k) << m == if k + m < 32 {
            one_bit((k + m) as u32)
        } else {
            0u32
        },
{
}

/// Right-shifting a single bit moves it down or drops it off the word.
pub proof fn lemma_shr_one_bit(k: u32, m: u32)
    by (bit_vector)
    requires
        k < 25,
        m <= 12,
    ensures
        one_bit(k) >> m == if m <= k {
            one_bit((k - m) as u32)
        } else {
            0u32
        },
{
}

/// The number of set bits in the binary expansion of `n`.
pub open spec fn popcount(n: int) -> int
    decreases n,
{
    if n <= 0 {
        0
    } else {
        popcount(n / 2) + n % 2
    }
}

/// Halving a word drops its lowest bit from the count.
proof fn lemma_popcount_step(x: u32)
    requires
        x > 0,
    ensures
        popcount(x as int) == popcount((x >> 1u32) as int) + (x & 1) as int,
        (x >> 1u32) < x,
{
    assert(x >> 1u32 == x / 2 && (x & 1) == x % 2) by (bit_vector);
    assert(x / 2 < x);
}

/// Counts the set bits of `x`, one low bit at a time.
pub fn popcount32(x: u32) -> (count: u32)
    ensures
        count == popcount(x as int),
        count <= 32,
{
    let mut remaining: u32 = x;
    let mut count: u32 = 0;
    proof {
        lemma_popcount_u32(x);
    }
    while remaining > 0
        invariant
            count + popcount(remaining as int) == popcount(x as int),
            popcount(x as int) <= 32,
            count <= 32,
            popcount(remaining as int) >= 0,
        decreases remaining,
    {
        proof {
            lemma_popcount_step(remaining);
            lemma_popcount_u32(remaining >> 1u32);
        }
        count = count + (remaining & 1);
        remaining = remaining >> 1u32;
    }
    count
}

/// A value below `2^width` has at most `width` set bits.
pub proof fn lemma_popcount_bound(n: int, width: nat)
    requires
        0 <= n < pow2_int(width),
    ensures
        0 <= popcount(n) <= width,
    decreases width,
{
    if width == 0 {
    } else {
        lemma_popcount_bound(n / 2, (width - 1) as nat);
    }
}

/// Every `u32` has at most 32 set bits, and a 25-bit board word at most 25.
pub proof fn lemma_popcount_u32(x: u32)
    ensures
        0 <= popcount(x as int) <= 32,
        x < 0x2000000 ==> popcount(x as int) <= 25,
{
    assert(pow2_int(32) == 0x100000000 && pow2_int(25) == 0x2000000) by {
        reveal_with_fuel(pow2_int, 33);
    }
    lemma_popcount_bound(x as int, 32);
    if x < 0x2000000 {
        lemma_popcount_bound(x as int, 25);
    }
}

/// `2^k` over the mathematical integers.
pub open spec fn pow2_int(k: nat) -> int
    decreases k,
{
    if k == 0 {
        1
    } else {
        2 * pow2_int((k - 1) as nat)
    }
}

} // verus!
