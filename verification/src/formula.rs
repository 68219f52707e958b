//! Integer arithmetic behind the battle formulas.
//!
//! Random factors are given in thousandths: a factor of 1000 leaves an
//! amount unchanged, 800 takes 80% of it and 1200 takes 120%. Amounts are
//! rounded to the nearest integer, halves away from zero, and then capped
//! to the range of `i32`.
use vstd::prelude::*;

verus! {

/// The unit of a random factor: a factor of `RANDOM_SCALE` is one.
pub const RANDOM_SCALE: u32 = 1000;

/// `n / d` rounded to the nearest integer, halves away from zero.
pub open spec fn round_half_away(n: int, d: int) -> int
    recommends
        d > 0,
{
    if n >= 0 {
        (2 * n + d) / (2 * d)
    } else {
        -((-2 * n + d) / (2 * d))
    }
}

/// An integer capped to the range of `i32`.
pub open spec fn saturate_i32(x: int) -> i32 {
    if x > i32::MAX {
        i32::MAX
    } else if x < i32::MIN {
        i32::MIN
    } else {
        x as i32
    }
}

/// An amount raised to at least one.
pub open spec fn at_least_one(x: i32) -> i32 {
    if x < 1 {
        1
    } else {
        x
    }
}

/// `base` scaled by a random factor, rounded, and at least one.
pub open spec fn scaled_amount(base: int, random: int) -> i32 {
    at_least_one(saturate_i32(round_half_away(base * random, RANDOM_SCALE as int)))
}

/// A small base scaled by a bounded random factor stays small.
pub proof fn lemma_scaled_amount_bound(base: int, random: int)
    requires
        0 <= base <= 100,
        0 <= random <= 10000,
    ensures
        1 <= scaled_amount(base, random) <= 1001,
{
    let n = base * random;
    assert(0 <= n <= 1_000_000) by (nonlinear_arith)
        requires
            0 <= base <= 100,
            0 <= random <= 10000,
            n == base * random,
    ;
    assert(0 <= (2 * n + 1000) / 2000 <= 1000) by (nonlinear_arith)
        requires
            0 <= n <= 1_000_000,
    ;
}

/// Bounds under which the products of the formulas fit in `i128`.
pub open spec fn fits_products(n: int, d: int) -> bool {
    &&& -0x10_0000_0000_0000_0000_0000_0000 <= n <= 0x10_0000_0000_0000_0000_0000_0000
    &&& 0 < d <= 0x1_0000_0000_0000_0000
}

/// `n / d` rounded, halves away from zero.
pub fn round_ratio(n: i128, d: i128) -> (r: i128)
    requires
        fits_products(n as int, d as int),
    ensures
        r == round_half_away(n as int, d as int),
{
    if n >= 0 {
        (2 * n + d) / (2 * d)
    } else {
        let m: i128 = 0 - n;
        let q: i128 = (2 * m + d) / (2 * d);
        assert(q <= 2 * m + d) by (nonlinear_arith)
            requires
                q == (2 * m + d) / (2 * d),
                m > 0,
                d > 0,
        ;
        0 - q
    }
}

/// Caps a wide integer to the range of `i32`.
pub fn saturating_i32(x: i128) -> (r: i32)
    ensures
        r == saturate_i32(x as int),
{
    if x > i32::MAX as i128 {
        i32::MAX
    } else if x < i32::MIN as i128 {
        i32::MIN
    } else {
        x as i32
    }
}

/// Scales `base` by a random factor in thousandths; the result is at least one.
pub fn scale_by_random(base: i32, random: u32) -> (r: i32)
    ensures
        r == scaled_amount(base as int, random as int),
        r >= 1,
{
    let b: i128 = base as i128;
    let m: i128 = random as i128;
    assert(-0x1_0000_0000_0000_0000 <= b * m <= 0x1_0000_0000_0000_0000) by (nonlinear_arith)
        requires
            i32::MIN <= b <= i32::MAX,
            0 <= m <= u32::MAX,
    ;
    let n: i128 = b * m;
    let rounded = round_ratio(n, RANDOM_SCALE as i128);
    let v = saturating_i32(rounded);
    if v < 1 {
        1
    } else {
        v
    }
}

} // verus!
