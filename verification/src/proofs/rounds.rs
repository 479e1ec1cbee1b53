//! Round counts of the logarithmic reductions.

use vstd::arithmetic::power2::{lemma2_to64, lemma2_to64_rest, lemma_pow2_pos, lemma_pow2_unfold, pow2};
use vstd::prelude::*;

verus! {

/// The least `k` with `2^k >= n`: the number of halvings that bring a vector
/// of `n` elements, padded to a power of two, down to one element.
pub open spec fn ceil_log2(n: nat) -> nat
    decreases n,
{
    if n <= 1 {
        0
    } else {
        1 + ceil_log2((n + 1) / 2)
    }
}

/// `ceil_log2(n)` is the least exponent whose power of two reaches `n`.
pub proof fn lemma_ceil_log2_is_least(n: nat)
    ensures
        pow2(ceil_log2(n)) >= n,
        ceil_log2(n) > 0 ==> pow2((ceil_log2(n) - 1) as nat) < n,
    decreases n,
{
    lemma2_to64();
    if n > 1 {
        let m = (n + 1) / 2;
        lemma_ceil_log2_is_least(m);
        lemma_pow2_unfold(ceil_log2(n));
        if ceil_log2(m) > 0 {
            lemma_pow2_unfold(ceil_log2(m));
        }
    }
}

/// An exponent whose power of two reaches `n`, while the power before it
/// does not, is `ceil_log2(n)`.
pub proof fn lemma_ceil_log2_unique(n: nat, k: nat)
    requires
        pow2(k) >= n,
        k > 0 ==> pow2((k - 1) as nat) < n,
    ensures
        k == ceil_log2(n),
    decreases k,
{
    lemma2_to64();
    if n <= 1 {
        if k > 0 {
            lemma_pow2_pos((k - 1) as nat);
        }
    } else {
        assert(k > 0);
        lemma_pow2_unfold(k);
        if k > 1 {
            lemma_pow2_unfold((k - 1) as nat);
        }
        lemma_ceil_log2_unique((n + 1) / 2, (k - 1) as nat);
    }
}

/// Computes `ceil(log2(n))`.
pub fn ceil_log2_of(n: u64) -> (k: u32)
    ensures
        k == ceil_log2(n as nat),
        k <= 64,
{
    let mut k: u32 = 0;
    let mut power: u128 = 1;
    proof {
        lemma2_to64();
    }
    while power < n as u128
        invariant
            k <= 64,
            power == pow2(k as nat),
            k > 0 ==> pow2((k - 1) as nat) < n,
        decreases 64 - k,
    {
        proof {
            lemma2_to64_rest();
            lemma_pow2_unfold((k + 1) as nat);
            if k >= 64 {
                assert(pow2(64) == 0x10000000000000000);
                assert(false);
            }
        }
        power = power * 2;
        k = k + 1;
    }
    proof {
        lemma_ceil_log2_unique(n as nat, k as nat);
    }
    k
}

} // verus!
