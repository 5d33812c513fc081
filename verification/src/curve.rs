//! The difficulty curve: pure functions of the elapsed round time.
//!
//! With `t` the elapsed round time in seconds, the curve is
//! `maxConcurrentExposed(t) = floor((1 - 1/(1 + 0.01 t)) * CELL_COUNT)` and
//! `timerScaleFactor(t) = 1/(0.01 t + 2) + 1/2`. Both are exact rationals,
//! so over a clock in milliseconds they reduce to integer arithmetic:
//! with `t` now in milliseconds,
//!
//! * `maxConcurrentExposed = floor(CELL_COUNT * t / (t + 100_000))`, and
//! * `timerScaleFactor = (t + 400_000) / (2 t + 400_000)` exactly.
//!
//! The scale factor equals 1 at `t = 0`, decreases strictly, and stays above
//! 1/2; it is applied by taking the floor of `base * num / den`.

use vstd::prelude::*;
use vstd::arithmetic::div_mod::{
    lemma_div_by_multiple, lemma_div_is_ordered, lemma_div_pos_is_pos, lemma_multiply_divide_lt,
};
use vstd::arithmetic::mul::{
    lemma_mul_inequality, lemma_mul_is_commutative, lemma_mul_strict_inequality,
    lemma_mul_upper_bound,
};

use crate::params::CELL_COUNT;
use crate::params::MAX_TIME_MS;
use crate::params::REARM_MAX_MS;

verus! {

/// Concurrency cap: how many cells may be exposed at once at round time
/// `t_ms`. Starts at 0 and climbs towards `CELL_COUNT` as the round ages.
pub open spec fn max_exposed_spec(t_ms: int) -> int {
    (CELL_COUNT * t_ms) / (t_ms + 100_000)
}

/// Numerator of the exact timer scale factor at round time `t_ms`.
pub open spec fn scale_num(t_ms: int) -> int {
    t_ms + 400_000
}

/// Denominator of the exact timer scale factor at round time `t_ms`.
pub open spec fn scale_den(t_ms: int) -> int {
    2 * t_ms + 400_000
}

/// A freshly sampled re-arm duration `base_ms`, scaled by the timer scale
/// factor at round time `t_ms` and rounded down to whole milliseconds.
pub open spec fn scaled_duration_spec(base_ms: int, t_ms: int) -> int {
    (base_ms * scale_num(t_ms)) / scale_den(t_ms)
}

/// The timer scale factor lies in the half-open interval (1/2, 1]: the
/// denominator is positive, twice the numerator exceeds the denominator,
/// and the numerator never exceeds the denominator (they are equal exactly
/// at `t_ms == 0`).
pub proof fn lemma_scale_factor_in_unit_interval(t_ms: int)
    requires
        0 <= t_ms,
    ensures
        0 < scale_den(t_ms),
        scale_den(t_ms) < 2 * scale_num(t_ms),
        scale_num(t_ms) <= scale_den(t_ms),
        t_ms == 0 ==> scale_num(t_ms) == scale_den(t_ms),
{
}

/// The timer scale factor is strictly decreasing in the round time: for
/// `t1 < t2`, the factor at `t1` exceeds the factor at `t2`, stated by
/// cross-multiplying the two exact fractions.
pub proof fn lemma_scale_factor_strictly_decreasing(t1_ms: int, t2_ms: int)
    requires
        0 <= t1_ms < t2_ms,
    ensures
        scale_num(t1_ms) * scale_den(t2_ms) > scale_num(t2_ms) * scale_den(t1_ms),
{
    assert((t1_ms + 400_000) * (2 * t2_ms + 400_000) > (t2_ms + 400_000) * (2 * t1_ms
        + 400_000)) by (nonlinear_arith)
        requires
            0 <= t1_ms < t2_ms,
    ;
}

/// The concurrency cap never reaches `CELL_COUNT` and never decreases as the
/// round ages.
pub proof fn lemma_cap_bounded_and_monotone(t1_ms: int, t2_ms: int)
    requires
        0 <= t1_ms <= t2_ms,
    ensures
        0 <= max_exposed_spec(t1_ms) < CELL_COUNT,
        max_exposed_spec(t1_ms) <= max_exposed_spec(t2_ms),
{
    let c = CELL_COUNT as int;
    let d1 = t1_ms + 100_000;
    let d2 = t2_ms + 100_000;
    lemma_div_pos_is_pos(c * t1_ms, d1);
    assert(c * t1_ms < d1 * c) by (nonlinear_arith)
        requires
            0 < c,
            0 <= t1_ms,
            d1 == t1_ms + 100_000,
    ;
    lemma_multiply_divide_lt(c * t1_ms, d1, c);
    let q1 = (c * t1_ms) / d1;
    assert(d1 * q1 <= c * t1_ms) by {
        vstd::arithmetic::div_mod::lemma_fundamental_div_mod(c * t1_ms, d1);
    }
    assert(q1 * d2 <= c * t2_ms) by (nonlinear_arith)
        requires
            d1 * q1 <= c * t1_ms,
            0 <= t1_ms <= t2_ms,
            0 <= c,
            0 <= q1,
            d1 == t1_ms + 100_000,
            d2 == t2_ms + 100_000,
    ;
    lemma_div_is_ordered(q1 * d2, c * t2_ms, d2);
    lemma_div_by_multiple(q1, d2);
}

/// Concurrency cap at round time `t_ms`.
pub fn max_concurrent_exposed(t_ms: u64) -> (r: u64)
    requires
        t_ms <= MAX_TIME_MS,
    ensures
        r == max_exposed_spec(t_ms as int),
        r < CELL_COUNT,
{
    proof {
        lemma_cap_bounded_and_monotone(t_ms as int, t_ms as int);
    }
    (CELL_COUNT * t_ms) / (t_ms + 100_000)
}

/// Applies the timer scale factor at round time `t_ms` to a freshly sampled
/// re-arm duration: the result is at most the sample and at least half of
/// it, so cycles speed up but never collapse to zero.
pub fn scale_duration(base_ms: u64, t_ms: u64) -> (r: u64)
    requires
        base_ms <= REARM_MAX_MS,
        t_ms <= MAX_TIME_MS,
    ensures
        r == scaled_duration_spec(base_ms as int, t_ms as int),
        r <= base_ms,
        base_ms / 2 <= r,
{
    let num = t_ms + 400_000;
    let den = 2 * t_ms + 400_000;
    proof {
        lemma_mul_upper_bound(base_ms as int, REARM_MAX_MS as int, num as int, MAX_TIME_MS
            + 400_000);
    }
    let r = (base_ms * num) / den;
    proof {
        let b = base_ms as int;
        let n = num as int;
        let d = den as int;
        // r <= base: b * n <= b * d, and (b * d) / d == b.
        lemma_mul_inequality(n, d, b);
        lemma_mul_is_commutative(n, b);
        lemma_mul_is_commutative(d, b);
        lemma_div_is_ordered(b * n, b * d, d);
        lemma_div_by_multiple(b, d);
        // base / 2 <= r: with h the integer half, h * d <= b * n.
        let h = b / 2;
        assert(0 <= h && 2 * h <= b) by {
            lemma_div_pos_is_pos(b, 2);
            vstd::arithmetic::div_mod::lemma_fundamental_div_mod(b, 2);
        }
        assert(h * d <= b * n) by (nonlinear_arith)
            requires
                0 <= h,
                2 * h <= b,
                d <= 2 * n,
                0 <= n,
        ;
        lemma_div_is_ordered(h * d, b * n, d);
        lemma_div_by_multiple(h, d);
    }
    r
}

} // verus!
