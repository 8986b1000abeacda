//! Integer scaling between raw device units and percentages.
//!
//! Every raw/percent conversion goes through `scale`, which computes
//! `round(numerator / denominator)` with halves rounded up (away from zero).

use vstd::arithmetic::div_mod::{
    lemma_div_is_ordered, lemma_div_pos_is_pos, lemma_fundamental_div_mod,
    lemma_mod_division_less_than_divisor,
};
use vstd::prelude::*;

verus! {

/// `round(numerator / denominator)` with halves rounded up, as an integer.
pub open spec fn spec_scale(numerator: int, denominator: int) -> int {
    (numerator + denominator / 2) / denominator
}

/// The raw device value that stands for `percent` of `max`.
pub open spec fn spec_raw_from_percent(percent: int, max: int) -> int {
    spec_scale(percent * max, 100)
}

/// The percentage that the raw value `raw` stands for on a device whose
/// range is `[0, max]`.
pub open spec fn spec_percent_from_raw(raw: int, max: int) -> int {
    spec_scale(raw * 100, max)
}

pub open spec fn min_int(a: int, b: int) -> int {
    if a < b {
        a
    } else {
        b
    }
}

pub open spec fn max_int(a: int, b: int) -> int {
    if a > b {
        a
    } else {
        b
    }
}

proof fn lemma_div_bounds(x: int, d: int)
    requires
        0 < d,
    ensures
        d * (x / d) <= x < d * (x / d) + d,
{
    lemma_fundamental_div_mod(x, d);
    lemma_mod_division_less_than_divisor(x, d);
}

/// A rounded quotient of non-negative operands is non-negative and never
/// exceeds the numerator.
pub proof fn lemma_scale_bounds(n: int, d: int)
    requires
        0 <= n,
        0 < d,
    ensures
        0 <= spec_scale(n, d) <= n,
{
    let h = d / 2;
    lemma_div_bounds(d, 2);
    lemma_div_bounds(n + h, d);
    let q = (n + h) / d;
    assert(0 <= q && q <= n) by (nonlinear_arith)
        requires
            d * q <= n + h,
            n + h < d * q + d,
            2 * h <= d,
            d < 2 * h + 2,
            0 <= n,
            0 < d,
    {}
}

/// Rounding is monotonic in the numerator.
pub proof fn lemma_scale_monotonic(n1: int, n2: int, d: int)
    requires
        n1 <= n2,
        0 < d,
    ensures
        spec_scale(n1, d) <= spec_scale(n2, d),
{
    lemma_div_is_ordered(n1 + d / 2, n2 + d / 2, d);
}

/// Any raw value within the device range maps to a percentage in `[0, 100]`.
pub proof fn lemma_percent_from_raw_in_range(raw: int, max: int)
    requires
        0 <= raw <= max,
        0 < max,
    ensures
        0 <= spec_percent_from_raw(raw, max) <= 100,
{
    let h = max / 2;
    lemma_div_bounds(max, 2);
    lemma_div_bounds(raw * 100 + h, max);
    let q = (raw * 100 + h) / max;
    assert(0 <= q && q <= 100) by (nonlinear_arith)
        requires
            max * q <= raw * 100 + h,
            raw * 100 + h < max * q + max,
            2 * h <= max,
            max < 2 * h + 2,
            0 <= raw <= max,
            0 < max,
    {}
}

/// Any percentage in `[0, 100]` maps to a raw value within the device range.
pub proof fn lemma_raw_from_percent_in_range(percent: int, max: int)
    requires
        0 <= percent <= 100,
        0 < max,
    ensures
        0 <= spec_raw_from_percent(percent, max) <= max,
{
    lemma_div_bounds(percent * max + 50, 100);
    let q = (percent * max + 50) / 100;
    assert(0 <= q && q <= max) by (nonlinear_arith)
        requires
            100 * q <= percent * max + 50,
            percent * max + 50 < 100 * q + 100,
            0 <= percent <= 100,
            0 < max,
    {}
}

/// Converting a raw value to a percentage and back lands within one raw
/// unit of where it started, on any device whose range is at most 300
/// units wide. (On wider ranges a percentage step is coarser than two raw
/// units and the bound no longer holds.)
pub proof fn lemma_raw_percent_round_trip(raw: int, max: int)
    requires
        0 <= raw <= max,
        0 < max <= 300,
    ensures
        spec_raw_from_percent(spec_percent_from_raw(raw, max), max) - raw <= 1,
        raw - spec_raw_from_percent(spec_percent_from_raw(raw, max), max) <= 1,
{
    let h = max / 2;
    lemma_div_bounds(max, 2);
    let p = spec_percent_from_raw(raw, max);
    lemma_div_bounds(raw * 100 + h, max);
    assert(max * p <= raw * 100 + h < max * p + max);
    let t = max * p;
    let back = spec_raw_from_percent(p, max);
    assert(p * max == t) by (nonlinear_arith)
        requires
            t == max * p,
    {}
    lemma_div_bounds(t + 50, 100);
    assert(100 * back <= t + 50 < 100 * back + 100);
    // Half of the range, rounded either way, is at most 150 units.
    assert(h <= 150);
    assert(max - h <= 150);
    // Lower bound: t > raw * 100 + h - max, so 100 * back > raw * 100 - 198.
    assert(raw - back <= 1);
    // Upper bound: 100 * back <= raw * 100 + h + 50 <= raw * 100 + 200,
    // with equality throughout only if max == 300 and t == raw * 100 + 150,
    // which no integer p allows.
    assert(back <= raw + 2);
    if back == raw + 2 {
        assert(t == raw * 100 + 150);
        assert(h == 150);
        assert(max == 300);
        assert(max * p == 300 * p);
        assert(300 * p == raw * 100 + 150);
        assert(false);
    }
}

/// The rounded quotient of `numerator` and `denominator`.
pub(crate) fn scale_u64(numerator: u64, denominator: u64) -> (r: u64)
    requires
        0 < denominator,
        numerator + denominator / 2 <= u64::MAX,
    ensures
        r == spec_scale(numerator as int, denominator as int),
{
    (numerator + denominator / 2) / denominator
}

/// `round(numerator / denominator)` with halves rounded up.
pub fn scale(numerator: u32, denominator: u32) -> (r: u32)
    requires
        0 < denominator,
    ensures
        r == spec_scale(numerator as int, denominator as int),
{
    proof {
        lemma_scale_bounds(numerator as int, denominator as int);
    }
    scale_u64(numerator as u64, denominator as u64) as u32
}

/// The raw device value that stands for `percent` of `max`.
pub fn raw_from_percent(percent: u32, max: u32) -> (r: u32)
    requires
        0 < max,
        percent <= 100,
    ensures
        r == spec_raw_from_percent(percent as int, max as int),
        r <= max,
{
    proof {
        assert((percent as int) * (max as int) <= 100 * (max as int)) by (nonlinear_arith)
            requires
                0 <= percent <= 100,
                0 <= max,
        {}
        lemma_raw_from_percent_in_range(percent as int, max as int);
    }
    scale_u64((percent as u64) * (max as u64), 100) as u32
}

/// The percentage that the raw value `raw` stands for on a device whose
/// range is `[0, max]`.
pub fn percent_from_raw(raw: u32, max: u32) -> (r: u32)
    requires
        0 < max,
        raw <= max,
    ensures
        r == spec_percent_from_raw(raw as int, max as int),
        r <= 100,
{
    proof {
        lemma_percent_from_raw_in_range(raw as int, max as int);
    }
    scale_u64((raw as u64) * 100, max as u64) as u32
}

} // verus!
