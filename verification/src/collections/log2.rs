//! The number of bits that an index into a palette of a given size needs.

use vstd::prelude::*;
use vstd::arithmetic::power2::{lemma2_to64, lemma_pow2_strictly_increases, lemma_pow2_unfold, pow2};
use vstd::bits::{lemma_u64_pow2_no_overflow, lemma_u64_shl_is_mul};

verus! {

/// The base-2 logarithm of `n`, rounded up: the least `k` with `n <= 2^k`. Zero for `n <= 1`.
pub open spec fn ceil_log2(n: nat) -> nat
    decreases n,
{
    if n <= 1 {
        0
    } else {
        1 + ceil_log2((n + 1) / 2)
    }
}

/// `2^ceil_log2(n)` is at least `n`, and no smaller power of two is.
pub proof fn lemma_ceil_log2_bounds(n: nat)
    requires
        n >= 1,
    ensures
        n <= pow2(ceil_log2(n)),
        n >= 2 ==> ceil_log2(n) >= 1 && pow2((ceil_log2(n) - 1) as nat) < n,
    decreases n,
{
    lemma2_to64();
    if n >= 2 {
        let half = (n + 1) / 2;
        let c = ceil_log2(half);
        lemma_ceil_log2_bounds(half);
        lemma_pow2_unfold(c + 1);
        if half >= 2 {
            lemma_pow2_unfold(c);
        }
    }
}

/// The powers of two do not decrease.
pub proof fn lemma_pow2_ordered(a: nat, b: nat)
    requires
        a <= b,
    ensures
        pow2(a) <= pow2(b),
{
    if a < b {
        lemma_pow2_strictly_increases(a, b);
    }
}

/// It is the only `k` with `2^(k-1) < n <= 2^k`.
pub proof fn lemma_ceil_log2_unique(n: nat, k: nat)
    requires
        n >= 1,
        n <= pow2(k),
        k >= 1 ==> pow2((k - 1) as nat) < n,
    ensures
        ceil_log2(n) == k,
{
    let c = ceil_log2(n);
    lemma_ceil_log2_bounds(n);
    lemma2_to64();
    if c < k {
        lemma_pow2_ordered(c, (k - 1) as nat);
    } else if c > k {
        lemma_pow2_ordered(k, (c - 1) as nat);
    }
}

/// It does not decrease as `n` grows.
pub proof fn lemma_ceil_log2_ordered(m: nat, n: nat)
    requires
        m <= n,
    ensures
        ceil_log2(m) <= ceil_log2(n),
{
    if m >= 2 {
        lemma_ceil_log2_bounds(m);
        lemma_ceil_log2_bounds(n);
        if ceil_log2(n) < ceil_log2(m) {
            lemma_pow2_ordered(ceil_log2(n), (ceil_log2(m) - 1) as nat);
        }
    }
}

/// A power of two needs its exponent in bits: 16 values need 4 bits, 32 values need 5.
pub proof fn lemma_ceil_log2_pow2(k: nat)
    ensures
        ceil_log2(pow2(k)) == k,
        ceil_log2(16) == 4,
        ceil_log2(32) == 5,
{
    lemma2_to64();
    vstd::arithmetic::power2::lemma_pow2_pos(k);
    if k >= 1 {
        lemma_pow2_strictly_increases((k - 1) as nat, k);
    }
    lemma_ceil_log2_unique(pow2(k), k);
    lemma_ceil_log2_unique(16, 4);
    lemma_ceil_log2_unique(32, 5);
}

/// The number of bits needed to tell `n` things apart: `ceil(log2(n))`.
pub fn bits_for(n: usize) -> (bits: u32)
    ensures
        bits == ceil_log2(n as nat),
        bits <= 64,
{
    if n <= 1 {
        return 0;
    }
    let mut bits: u32 = 0;
    proof {
        lemma2_to64();
        lemma_u64_shl_is_mul(1, 0);
    }
    while bits < 64 && (1u64 << bits) < n as u64
        invariant
            n >= 2,
            bits <= 64,
            bits >= 1 ==> pow2((bits - 1) as nat) < n,
            bits < 64 ==> (1u64 << bits) == pow2(bits as nat),
        decreases 64 - bits,
    {
        bits += 1;
        proof {
            if bits < 64 {
                lemma_u64_pow2_no_overflow(bits as nat);
                lemma_u64_shl_is_mul(1, bits as u64);
            }
        }
    }
    proof {
        if bits == 64 {
            vstd::arithmetic::power2::lemma2_to64_rest();
        }
        lemma_ceil_log2_unique(n as nat, bits as nat);
    }
    bits
}

} // verus!
