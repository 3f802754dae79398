//! Base-two logarithms of natural numbers, rounded down and up, as they
//! bound the number of steps of a bisection.

use vstd::prelude::*;
use vstd::arithmetic::power2::{lemma2_to64, lemma_pow2_unfold, pow2};

verus! {

/// The base-two logarithm of `m`, rounded down. Zero for `m <= 1`.
pub open spec fn floor_log2(m: nat) -> nat
    decreases m,
{
    if m <= 1 {
        0
    } else {
        1 + floor_log2(m / 2)
    }
}

/// The base-two logarithm of `m`, rounded up. Zero for `m <= 1`.
pub open spec fn ceil_log2(m: nat) -> nat
    decreases m,
{
    if m <= 1 {
        0
    } else {
        1 + ceil_log2((m + 1) / 2)
    }
}

/// Whether `m` is one of 1, 2, 4, 8, ...
pub open spec fn is_power_of_two(m: nat) -> bool {
    m == pow2(floor_log2(m))
}

/// `floor_log2(m)` is the exponent of the largest power of two that is at
/// most `m`.
pub proof fn lemma_floor_log2_bounds(m: nat)
    requires
        m >= 1,
    ensures
        pow2(floor_log2(m)) <= m < pow2(floor_log2(m) + 1),
    decreases m,
{
    lemma2_to64();
    if m > 1 {
        lemma_floor_log2_bounds(m / 2);
        lemma_pow2_unfold(floor_log2(m));
        lemma_pow2_unfold(floor_log2(m) + 1);
    }
}

/// `ceil_log2(m)` is the exponent of the smallest power of two that is at
/// least `m`.
pub proof fn lemma_ceil_log2_bounds(m: nat)
    requires
        m >= 1,
    ensures
        m <= pow2(ceil_log2(m)),
        ceil_log2(m) >= 1 ==> pow2((ceil_log2(m) - 1) as nat) < m,
    decreases m,
{
    lemma2_to64();
    if m > 1 {
        let half = (m + 1) / 2;
        lemma_ceil_log2_bounds(half);
        lemma_pow2_unfold(ceil_log2(m));
        if ceil_log2(half) >= 1 {
            lemma_pow2_unfold(ceil_log2(half));
        }
    }
}

/// Rounding up the logarithm of a successor is rounding down and adding one.
pub proof fn lemma_ceil_log2_of_successor(k: nat)
    requires
        k >= 1,
    ensures
        ceil_log2(k + 1) == floor_log2(k) + 1,
    decreases k,
{
    if k >= 2 {
        lemma_ceil_log2_of_successor(k / 2);
        assert((k + 2) / 2 == k / 2 + 1);
    } else {
        assert(ceil_log2(2) == 1 + ceil_log2(1));
    }
}

/// The rounded-down logarithm grows by one exactly when a power of two is
/// reached.
pub proof fn lemma_floor_log2_of_successor(k: nat)
    requires
        k >= 1,
    ensures
        floor_log2(k + 1) == floor_log2(k) + if is_power_of_two(k + 1) {
            1nat
        } else {
            0nat
        },
    decreases k,
{
    lemma2_to64();
    if k == 1 {
        assert(floor_log2(2) == 1 + floor_log2(1));
    } else if k % 2 == 1 {
        let j = k / 2;
        lemma_floor_log2_of_successor(j);
        assert((k + 1) / 2 == j + 1);
        lemma_pow2_unfold(floor_log2(k + 1));
    } else {
        assert((k + 1) / 2 == k / 2);
        lemma_pow2_unfold(floor_log2(k + 1));
    }
}

/// Neither logarithm decreases when its argument grows.
pub proof fn lemma_log2_monotonic(a: nat, b: nat)
    requires
        a <= b,
    ensures
        floor_log2(a) <= floor_log2(b),
        ceil_log2(a) <= ceil_log2(b),
    decreases b,
{
    if a > 1 {
        lemma_log2_monotonic(a / 2, b / 2);
        lemma_log2_monotonic((a + 1) / 2, (b + 1) / 2);
    }
}

} // verus!
