//! Integer arithmetic on image dimensions: the fixed ten-percent step, the
//! clamp to maximum bounds, and the proactive shrink of oversized inputs.

use vstd::prelude::*;

verus! {

/// A dimension never drops below one pixel.
pub open spec fn at_least_one(d: int) -> int {
    if d < 1 {
        1
    } else {
        d
    }
}

/// `a / b` rounded to the nearest integer, halves upward.
pub open spec fn div_round(a: int, b: int) -> int
    recommends
        a >= 0,
        b > 0,
{
    (2 * a + b) / (2 * b)
}

/// A dimension after one downscale step: nine tenths of it, rounded down,
/// but at least one pixel.
pub open spec fn spec_shrink(d: u32) -> u32 {
    at_least_one(d * 9 / 10) as u32
}

/// A dimension after `rounds` downscale steps.
pub open spec fn spec_shrunk(d: u32, rounds: nat) -> u32
    decreases rounds,
{
    if rounds == 0 {
        d
    } else {
        spec_shrink(spec_shrunk(d, (rounds - 1) as nat))
    }
}

/// One downscale step on one dimension.
pub fn shrink(d: u32) -> (r: u32)
    ensures
        r == spec_shrink(d),
        1 <= r,
        d >= 1 ==> r <= d,
        d >= 2 ==> r < d,
{
    let scaled: u64 = (d as u64) * 9 / 10;
    if scaled < 1 {
        1
    } else {
        scaled as u32
    }
}

/// A step never enlarges a dimension and never takes it below one pixel.
pub proof fn lemma_shrunk_bounds(d: u32, rounds: nat)
    requires
        d >= 1,
    ensures
        1 <= spec_shrunk(d, rounds) <= d,
    decreases rounds,
{
    if rounds > 0 {
        lemma_shrunk_bounds(d, (rounds - 1) as nat);
    }
}

/// A maximum bound as it constrains a dimension of size `d`: an absent bound,
/// or one above `d`, leaves `d` as it is.
pub open spec fn effective_bound(max: Option<u32>, d: u32) -> u32 {
    match max {
        Some(m) => if m < d {
            m
        } else {
            d
        },
        None => d,
    }
}

/// The dimensions a `w` by `h` image takes under optional maximum bounds.
///
/// The image is scaled by the largest uniform factor, at most one, under
/// which both dimensions respect their bounds; scaled dimensions are rounded
/// to the nearest pixel and never drop below one.
pub open spec fn clamped_dims(w: u32, h: u32, max_w: Option<u32>, max_h: Option<u32>) -> (
    u32,
    u32,
) {
    let bw = effective_bound(max_w, w);
    let bh = effective_bound(max_h, h);
    if bw == w && bh == h {
        (w, h)
    } else if bw * h <= bh * w {
        (at_least_one(bw as int) as u32, at_least_one(div_round(h * bw, w as int)) as u32)
    } else {
        (at_least_one(div_round(w * bh, h as int)) as u32, at_least_one(bh as int) as u32)
    }
}

/// `d * num / den` rounded to the nearest pixel, at least one.
fn scale_dimension(d: u32, num: u32, den: u32) -> (r: u32)
    requires
        den >= 1,
        d >= 1,
        num <= den,
    ensures
        r == at_least_one(div_round(d * num, den as int)),
        1 <= r <= d,
{
    assert(d * num <= d * den) by (nonlinear_arith)
        requires
            num <= den,
            d >= 0,
    ;
    assert(d * num <= 0xffff_ffff * 0xffff_ffff) by (nonlinear_arith)
        requires
            0 <= d <= 0xffff_ffff,
            0 <= num <= 0xffff_ffff,
    ;
    let product: u128 = (d as u128) * (num as u128);
    let rounded: u128 = (2 * product + den as u128) / (2 * (den as u128));
    assert(rounded <= d) by (nonlinear_arith)
        requires
            rounded == (2 * product + den) / (2 * den),
            product <= d * den,
            den >= 1,
            d >= 1,
    ;
    if rounded < 1 {
        1
    } else {
        rounded as u32
    }
}

/// Computes the dimensions of a `w` by `h` image under optional maximum
/// bounds. The result never exceeds the input, respects every bound of at
/// least one pixel, and equals the input when the input is within both
/// bounds.
pub fn clamp_dimensions(w: u32, h: u32, max_w: Option<u32>, max_h: Option<u32>) -> (r: (u32, u32))
    requires
        w >= 1,
        h >= 1,
    ensures
        r == clamped_dims(w, h, max_w, max_h),
        1 <= r.0 <= w,
        1 <= r.1 <= h,
        max_w matches Some(m) ==> m >= 1 ==> r.0 <= m,
        max_h matches Some(m) ==> m >= 1 ==> r.1 <= m,
        effective_bound(max_w, w) == w && effective_bound(max_h, h) == h ==> r == (w, h),
{
    let bw: u32 = match max_w {
        Some(m) => if m < w {
            m
        } else {
            w
        },
        None => w,
    };
    let bh: u32 = match max_h {
        Some(m) => if m < h {
            m
        } else {
            h
        },
        None => h,
    };
    if bw == w && bh == h {
        return (w, h);
    }
    assert(bw * h <= 0xffff_ffff * 0xffff_ffff && bh * w <= 0xffff_ffff * 0xffff_ffff)
        by (nonlinear_arith)
        requires
            0 <= bw <= 0xffff_ffff,
            0 <= bh <= 0xffff_ffff,
            0 <= w <= 0xffff_ffff,
            0 <= h <= 0xffff_ffff,
    ;
    if (bw as u64) * (h as u64) <= (bh as u64) * (w as u64) {
        let new_w: u32 = if bw < 1 {
            1
        } else {
            bw
        };
        let new_h: u32 = scale_dimension(h, bw, w);
        proof {
            lemma_scaled_within(h as int, bw as int, w as int, bh as int);
        }
        (new_w, new_h)
    } else {
        let new_w: u32 = scale_dimension(w, bh, h);
        let new_h: u32 = if bh < 1 {
            1
        } else {
            bh
        };
        proof {
            lemma_scaled_within(w as int, bh as int, h as int, bw as int);
        }
        (new_w, new_h)
    }
}

/// Scaling `d` by `num / den` stays within `bound` when `num / den` is at
/// most `bound / d`.
proof fn lemma_scaled_within(d: int, num: int, den: int, bound: int)
    requires
        d >= 1,
        den >= 1,
        num >= 0,
        bound >= 0,
        num * d <= bound * den,
    ensures
        div_round(d * num, den) <= bound,
{
    assert((2 * (d * num) + den) / (2 * den) <= bound) by (nonlinear_arith)
        requires
            den >= 1,
            num * d <= bound * den,
            bound >= 0,
    ;
}

/// The integer square root of `n`: the largest `r` with `r * r <= n`.
pub open spec fn floor_sqrt(n: nat) -> nat
    decreases n,
{
    if n == 0 {
        0
    } else {
        let r = floor_sqrt((n - 1) as nat);
        if (r + 1) * (r + 1) <= n {
            r + 1
        } else {
            r
        }
    }
}

/// `floor_sqrt(n)` is the one number whose square is at most `n` while the
/// square of its successor is not.
pub proof fn lemma_floor_sqrt(n: nat)
    ensures
        floor_sqrt(n) * floor_sqrt(n) <= n < (floor_sqrt(n) + 1) * (floor_sqrt(n) + 1),
    decreases n,
{
    let s = floor_sqrt(n);
    if n > 0 {
        lemma_floor_sqrt((n - 1) as nat);
        let r = floor_sqrt((n - 1) as nat);
        if (r + 1) * (r + 1) <= n {
            assert(s * s <= n < (s + 1) * (s + 1)) by (nonlinear_arith)
                requires
                    s == r + 1,
                    r >= 0,
                    (r + 1) * (r + 1) <= n,
                    n - 1 < (r + 1) * (r + 1),
            ;
        } else {
            assert(s * s <= n < (s + 1) * (s + 1)) by (nonlinear_arith)
                requires
                    s == r,
                    r * r <= n - 1,
                    n < (r + 1) * (r + 1),
            ;
        }
    } else {
        assert(s * s <= n < (s + 1) * (s + 1)) by (nonlinear_arith)
            requires
                s == 0,
                n == 0,
        ;
    }
}

/// Any `r` squeezed around `n` like the integer square root is it.
pub proof fn lemma_floor_sqrt_unique(n: nat, r: nat)
    requires
        r * r <= n < (r + 1) * (r + 1),
    ensures
        r == floor_sqrt(n),
{
    lemma_floor_sqrt(n);
    let s = floor_sqrt(n);
    if r < s {
        assert((r + 1) * (r + 1) <= s * s) by (nonlinear_arith)
            requires
                0 <= r < s,
        ;
    } else if s < r {
        assert((s + 1) * (s + 1) <= r * r) by (nonlinear_arith)
            requires
                0 <= s < r,
        ;
    }
}

/// Computes the integer square root by bisection.
pub fn isqrt(n: u128) -> (r: u64)
    ensures
        r == floor_sqrt(n as nat),
        r * r <= n < (r + 1) * (r + 1),
{
    let mut lo: u128 = 0;
    let mut hi: u128 = 0x1_0000_0000_0000_0000;
    assert(n < hi * hi) by (nonlinear_arith)
        requires
            hi == 0x1_0000_0000_0000_0000,
            n <= 0xffff_ffff_ffff_ffff_ffff_ffff_ffff_ffff,
    ;
    while hi - lo > 1
        invariant
            lo < hi <= 0x1_0000_0000_0000_0000,
            lo * lo <= n < hi * hi,
        decreases hi - lo,
    {
        let mid: u128 = lo + (hi - lo) / 2;
        assert(mid * mid <= 0xffff_ffff_ffff_ffff * 0xffff_ffff_ffff_ffff) by (nonlinear_arith)
            requires
                0 <= mid <= 0xffff_ffff_ffff_ffff,
        ;
        if mid * mid <= n {
            lo = mid;
        } else {
            hi = mid;
        }
    }
    proof {
        lemma_floor_sqrt_unique(n as nat, lo as nat);
    }
    lo as u64
}

/// The square root of `num / den` rounded to the nearest integer, halves
/// upward.
pub open spec fn sqrt_ratio_round(num: nat, den: nat) -> nat
    recommends
        den >= 1,
{
    (floor_sqrt(4 * num / den) + 1) / 2
}

/// `sqrt_ratio_round(num, den)` is within one half of the true square root:
/// with `r` the result, `(r - 1/2)^2 <= num / den < (r + 1/2)^2`.
pub proof fn lemma_sqrt_ratio_round_is_nearest(num: nat, den: nat)
    requires
        den >= 1,
    ensures
        ({
            let r = sqrt_ratio_round(num, den);
            &&& 4 * num < (2 * r + 1) * (2 * r + 1) * den
            &&& r >= 1 ==> (2 * r - 1) * (2 * r - 1) * den <= 4 * num
        }),
{
    let y = 4 * num / den;
    let t = floor_sqrt(y);
    let r = sqrt_ratio_round(num, den);
    lemma_floor_sqrt(y);
    assert(y * den <= 4 * num < (y + 1) * den) by (nonlinear_arith)
        requires
            y == 4 * num / den,
            den >= 1,
            num >= 0,
    ;
    assert(2 * r - 1 <= t <= 2 * r);
    assert((2 * r + 1) * (2 * r + 1) >= y + 1) by (nonlinear_arith)
        requires
            y < (t + 1) * (t + 1),
            0 <= t <= 2 * r,
    ;
    assert((y + 1) * den <= (2 * r + 1) * (2 * r + 1) * den) by (nonlinear_arith)
        requires
            (2 * r + 1) * (2 * r + 1) >= y + 1,
            den >= 1,
    ;
    if r >= 1 {
        assert((2 * r - 1) * (2 * r - 1) <= y) by (nonlinear_arith)
            requires
                t * t <= y,
                1 <= 2 * r - 1 <= t,
        ;
        assert((2 * r - 1) * (2 * r - 1) * den <= y * den) by (nonlinear_arith)
            requires
                (2 * r - 1) * (2 * r - 1) <= y,
                den >= 1,
        ;
    }
}

/// Whether an image of `w` by `h` pixels is grossly oversized for a budget
/// of `target_bytes`: more than four times the pixels the budget pays for at
/// two bytes each.
pub open spec fn presize_needed(w: u32, h: u32, target_bytes: u64) -> bool {
    w * h > (target_bytes / 2) * 4
}

/// One dimension of an oversized image after the proactive shrink.
///
/// The image is scaled uniformly so that its pixel count becomes twice what
/// the budget pays for, that is by `sqrt(2 * (target_bytes / 2) / (d * other))`;
/// the scaled dimension is rounded to the nearest pixel and is at least one.
pub open spec fn presized_dimension(d: u32, other: u32, target_bytes: u64) -> u32 {
    let pixels_paid_for = (target_bytes / 2) as nat;
    at_least_one(sqrt_ratio_round(2 * pixels_paid_for * d as nat, other as nat) as int) as u32
}

/// The dimensions with which the quality search starts.
pub open spec fn presized_dims(w: u32, h: u32, target_bytes: u64) -> (u32, u32) {
    if presize_needed(w, h, target_bytes) {
        (presized_dimension(w, h, target_bytes), presized_dimension(h, w, target_bytes))
    } else {
        (w, h)
    }
}

/// The proactive shrink does shrink: neither dimension grows.
pub proof fn lemma_presized_within(d: u32, other: u32, target_bytes: u64)
    requires
        d >= 1,
        other >= 1,
        presize_needed(d, other, target_bytes) || presize_needed(other, d, target_bytes),
    ensures
        sqrt_ratio_round(2 * (target_bytes / 2) as nat * d as nat, other as nat) <= d,
        1 <= presized_dimension(d, other, target_bytes) <= d,
{
    let m = (target_bytes / 2) as nat;
    let num = 2 * m * d as nat;
    let r = sqrt_ratio_round(num, other as nat);
    lemma_sqrt_ratio_round_is_nearest(num, other as nat);
    assert(d * other == other * d) by (nonlinear_arith);
    if r > d {
        assert(false) by (nonlinear_arith)
            requires
                r > d,
                d >= 1,
                other >= 1,
                m >= 0,
                d * other > m * 4,
                (2 * r - 1) * (2 * r - 1) * other <= 4 * (2 * m * d),
        ;
    }
}

/// Computes one dimension of the proactive shrink.
fn presize_dimension(d: u32, other: u32, target_bytes: u64) -> (r: u32)
    requires
        d >= 1,
        other >= 1,
        presize_needed(d, other, target_bytes) || presize_needed(other, d, target_bytes),
    ensures
        r == presized_dimension(d, other, target_bytes),
        1 <= r <= d,
{
    let m: u128 = (target_bytes / 2) as u128;
    assert(8 * m * d <= 8 * 0x7fff_ffff_ffff_ffff * 0xffff_ffff) by (nonlinear_arith)
        requires
            0 <= m <= 0x7fff_ffff_ffff_ffff,
            0 <= d <= 0xffff_ffff,
    ;
    let scaled: u128 = 8 * m * (d as u128) / (other as u128);
    assert(8 * m * d == 4 * (2 * m * d)) by (nonlinear_arith);
    let root: u64 = isqrt(scaled);
    proof {
        lemma_presized_within(d, other, target_bytes);
    }
    let rounded: u64 = ((root as u128 + 1) / 2) as u64;
    if rounded < 1 {
        1
    } else {
        rounded as u32
    }
}

/// Decides whether the proactive shrink applies and computes the dimensions
/// with which the quality search starts.
pub fn presize_dimensions(w: u32, h: u32, target_bytes: u64) -> (r: (u32, u32))
    requires
        w >= 1,
        h >= 1,
    ensures
        r == presized_dims(w, h, target_bytes),
        1 <= r.0 <= w,
        1 <= r.1 <= h,
{
    assert(w * h <= 0xffff_ffff * 0xffff_ffff) by (nonlinear_arith)
        requires
            0 <= w <= 0xffff_ffff,
            0 <= h <= 0xffff_ffff,
    ;
    let current_pixels: u128 = (w as u128) * (h as u128);
    let max_reasonable_pixels: u128 = (target_bytes / 2) as u128;
    if current_pixels > max_reasonable_pixels * 4 {
        assert(h * w == w * h) by (nonlinear_arith);
        (presize_dimension(w, h, target_bytes), presize_dimension(h, w, target_bytes))
    } else {
        (w, h)
    }
}

} // verus!
