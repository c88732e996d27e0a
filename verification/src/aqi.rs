//! EPA piecewise-linear AQI estimation for PM2.5 concentrations.
//!
//! Concentrations are fixed-point [`Reading`]s in ten-thousandths of a
//! µg/m³.  The index for a concentration in a breakpoint band is the linear
//! interpolation between the band's AQI bounds, rounded half away from zero
//! once at the end.  The first two bands own their upper edge (`v <= 12.0`,
//! `v <= 35.4`); the later bands are exclusive on theirs.  Values at or past
//! the table's top are out of the table's design range.

use vstd::prelude::*;
use crate::decimal::Reading;
use vstd::arithmetic::div_mod::lemma_div_is_ordered;
use vstd::arithmetic::div_mod::lemma_div_pos_is_pos;
use vstd::arithmetic::div_mod::lemma_fundamental_div_mod_converse;

verus! {

// Breakpoint concentrations in ten-thousandths of a µg/m³.
pub const AQI_BP_0: i64 = 120000;  // 12.0
pub const AQI_BP_1: i64 = 354000;  // 35.4
pub const AQI_BP_2: i64 = 555000;  // 55.5
pub const AQI_BP_3: i64 = 1505000;  // 150.5
pub const AQI_BP_4: i64 = 2505000;  // 250.5
pub const AQI_BP_5: i64 = 3505000;  // 350.5
pub const AQI_BP_6: i64 = 5005000;  // 500.5
pub const AQI_BP_7: i64 = 999999000;  // 99999.9

/// `num / den` rounded half away from zero, for a positive denominator.
pub open spec fn round_div(num: int, den: int) -> int {
    if num >= 0 {
        (2 * num + den) / (2 * den)
    } else {
        -((2 * (-num) + den) / (2 * den))
    }
}

/// The interpolated index, before clamping to the `i32` range.
pub open spec fn aqi_interp(v: int) -> int {
    if v <= AQI_BP_0 as int {
        round_div(50 * v, AQI_BP_0 as int)
    } else if v <= AQI_BP_1 as int {
        51 + round_div((v - AQI_BP_0 as int) * 49, AQI_BP_1 - AQI_BP_0)
    } else if v < AQI_BP_2 as int {
        101 + round_div((v - AQI_BP_1 as int) * 49, AQI_BP_2 - AQI_BP_1)
    } else if v < AQI_BP_3 as int {
        151 + round_div((v - AQI_BP_2 as int) * 49, AQI_BP_3 - AQI_BP_2)
    } else if v < AQI_BP_4 as int {
        201 + round_div((v - AQI_BP_3 as int) * 99, AQI_BP_4 - AQI_BP_3)
    } else if v < AQI_BP_5 as int {
        301 + round_div((v - AQI_BP_4 as int) * 99, AQI_BP_5 - AQI_BP_4)
    } else if v < AQI_BP_6 as int {
        401 + round_div((v - AQI_BP_5 as int) * 99, AQI_BP_6 - AQI_BP_5)
    } else if v < AQI_BP_7 as int {
        501 + round_div((v - AQI_BP_6 as int) * 498, AQI_BP_7 - AQI_BP_6)
    } else {
        501
    }
}

/// The published index: the interpolation saturated to the `i32` range.
pub open spec fn aqi_value(v: int) -> int {
    let a = aqi_interp(v);
    if a < i32::MIN as int {
        i32::MIN as int
    } else if a > i32::MAX as int {
        i32::MAX as int
    } else {
        a
    }
}

/// A concentration at or past the top of the table's design range; such a
/// reading is published with a warning.
pub open spec fn aqi_exceeds_scale(v: int) -> bool {
    v >= AQI_BP_6 as int
}

/// Lower bound of the band `v` falls in.
pub open spec fn aqi_band_lo(v: int) -> int {
    if v <= AQI_BP_0 as int {
        0
    } else if v <= AQI_BP_1 as int {
        51
    } else if v < AQI_BP_2 as int {
        101
    } else if v < AQI_BP_3 as int {
        151
    } else if v < AQI_BP_4 as int {
        201
    } else if v < AQI_BP_5 as int {
        301
    } else if v < AQI_BP_6 as int {
        401
    } else {
        501
    }
}

/// Upper bound of the band `v` falls in.
pub open spec fn aqi_band_hi(v: int) -> int {
    if v <= AQI_BP_0 as int {
        50
    } else if v <= AQI_BP_1 as int {
        100
    } else if v < AQI_BP_2 as int {
        150
    } else if v < AQI_BP_3 as int {
        200
    } else if v < AQI_BP_4 as int {
        300
    } else if v < AQI_BP_5 as int {
        400
    } else if v < AQI_BP_6 as int {
        500
    } else {
        999
    }
}

/// A rounded division of a value that stays within `cap` denominators
/// stays within `[0, cap]`.
proof fn lemma_round_div_range(num: int, den: int, cap: int)
    requires
        0 < den,
        0 <= num,
        num <= cap * den,
        0 <= cap,
    ensures
        0 <= round_div(num, den) <= cap,
{
    lemma_div_pos_is_pos(2 * num + den, 2 * den);
    assert(2 * num + den <= 2 * cap * den + den) by (nonlinear_arith)
        requires
            num <= cap * den,
    ;
    lemma_div_is_ordered(2 * num + den, 2 * cap * den + den, 2 * den);
    assert(2 * cap * den + den == cap * (2 * den) + den) by (nonlinear_arith);
    lemma_fundamental_div_mod_converse(cap * (2 * den) + den, 2 * den, cap, den);
}

/// Rounded division is monotone in the numerator.
proof fn lemma_round_div_mono(n1: int, n2: int, den: int)
    requires
        0 < den,
        n1 <= n2,
    ensures
        round_div(n1, den) <= round_div(n2, den),
{
    if n1 >= 0 {
        lemma_div_is_ordered(2 * n1 + den, 2 * n2 + den, 2 * den);
    } else if n2 < 0 {
        lemma_div_is_ordered(2 * (-n2) + den, 2 * (-n1) + den, 2 * den);
    } else {
        lemma_div_pos_is_pos(2 * n2 + den, 2 * den);
        lemma_div_pos_is_pos(2 * (-n1) + den, 2 * den);
    }
}

/// In every band the interpolated index stays within the band's AQI bounds.
pub proof fn lemma_aqi_interp_bounds(v: int)
    requires
        v >= 0,
    ensures
        aqi_band_lo(v) <= aqi_interp(v) <= aqi_band_hi(v),
{
    if v <= AQI_BP_0 as int {
        lemma_round_div_range(50 * v, AQI_BP_0 as int, 50);
    } else if v <= AQI_BP_1 as int {
        lemma_round_div_range((v - AQI_BP_0 as int) * 49, AQI_BP_1 - AQI_BP_0, 49);
    } else if v < AQI_BP_2 as int {
        lemma_round_div_range((v - AQI_BP_1 as int) * 49, AQI_BP_2 - AQI_BP_1, 49);
    } else if v < AQI_BP_3 as int {
        lemma_round_div_range((v - AQI_BP_2 as int) * 49, AQI_BP_3 - AQI_BP_2, 49);
    } else if v < AQI_BP_4 as int {
        lemma_round_div_range((v - AQI_BP_3 as int) * 99, AQI_BP_4 - AQI_BP_3, 99);
    } else if v < AQI_BP_5 as int {
        lemma_round_div_range((v - AQI_BP_4 as int) * 99, AQI_BP_5 - AQI_BP_4, 99);
    } else if v < AQI_BP_6 as int {
        lemma_round_div_range((v - AQI_BP_5 as int) * 99, AQI_BP_6 - AQI_BP_5, 99);
    } else if v < AQI_BP_7 as int {
        lemma_round_div_range((v - AQI_BP_6 as int) * 498, AQI_BP_7 - AQI_BP_6, 498);
    } else {
    }
}

/// `num / den` rounded half away from zero.
fn round_div_i128(num: i128, den: i128) -> (r: i128)
    requires
        0 < den <= 1_000_000_000_000i128,
        -5_000_000_000_000_000_000_000i128 <= num <= 5_000_000_000_000_000_000_000i128,
    ensures
        r as int == round_div(num as int, den as int),
{
    if num >= 0 {
        (2 * num + den) / (2 * den)
    } else {
        let q: i128 = (2 * (-num) + den) / (2 * den);
        -q
    }
}

/// Estimate the AQI for a PM2.5 concentration, per the EPA breakpoint
/// table: linear interpolation within the band `v` falls in, rounded half
/// away from zero, saturated to the `i32` range.
pub fn estimate(v: Reading) -> (r: i32)
    ensures
        r as int == aqi_value(v.units as int),
{
    let u: i128 = v.units as i128;
    let raw: i128 = if u <= AQI_BP_0 as i128 {
        round_div_i128(50 * u, AQI_BP_0 as i128)
    } else if u <= AQI_BP_1 as i128 {
        51 + round_div_i128((u - AQI_BP_0 as i128) * 49, (AQI_BP_1 - AQI_BP_0) as i128)
    } else if u < AQI_BP_2 as i128 {
        101 + round_div_i128((u - AQI_BP_1 as i128) * 49, (AQI_BP_2 - AQI_BP_1) as i128)
    } else if u < AQI_BP_3 as i128 {
        151 + round_div_i128((u - AQI_BP_2 as i128) * 49, (AQI_BP_3 - AQI_BP_2) as i128)
    } else if u < AQI_BP_4 as i128 {
        201 + round_div_i128((u - AQI_BP_3 as i128) * 99, (AQI_BP_4 - AQI_BP_3) as i128)
    } else if u < AQI_BP_5 as i128 {
        301 + round_div_i128((u - AQI_BP_4 as i128) * 99, (AQI_BP_5 - AQI_BP_4) as i128)
    } else if u < AQI_BP_6 as i128 {
        401 + round_div_i128((u - AQI_BP_5 as i128) * 99, (AQI_BP_6 - AQI_BP_5) as i128)
    } else if u < AQI_BP_7 as i128 {
        501 + round_div_i128((u - AQI_BP_6 as i128) * 498, (AQI_BP_7 - AQI_BP_6) as i128)
    } else {
        501
    };
    if raw < i32::MIN as i128 {
        i32::MIN
    } else if raw > i32::MAX as i128 {
        i32::MAX
    } else {
        raw as i32
    }
}

/// Whether a concentration lies at or past the top of the breakpoint
/// table's design range, the condition the pipeline reports as a warning.
pub fn exceeds_aqi_scale(v: Reading) -> (b: bool)
    ensures
        b == aqi_exceeds_scale(v.units as int),
{
    v.units >= AQI_BP_6
}

/// Law: in the lowest band the index is the plain rounded ramp to 50.
/// For every concentration `v` with `0 <= v <= 12.0` (in ten-thousandths
/// of a µg/m³), the published index is `v * 50 / 12.0` rounded half away
/// from zero — here `round_div(50 * v, 120000)` — with no clamping.
pub proof fn lemma_low_band_formula(v: int)
    requires
        0 <= v <= AQI_BP_0 as int,
    ensures
        aqi_value(v) == round_div(50 * v, AQI_BP_0 as int),
{
    lemma_aqi_interp_bounds(v);
}

/// Law: the estimate is monotonically non-decreasing over non-negative
/// concentrations below the top of the table (`v < 99999.9`).  At the top
/// the table wraps to its clamp value, so the requirement stops there.
pub proof fn lemma_estimate_monotone(a: int, b: int)
    requires
        0 <= a <= b,
        b < AQI_BP_7 as int,
    ensures
        aqi_value(a) <= aqi_value(b),
{
    lemma_aqi_interp_bounds(a);
    lemma_aqi_interp_bounds(b);
    if b <= AQI_BP_0 as int {
        lemma_round_div_mono(50 * a, 50 * b, AQI_BP_0 as int);
    } else if b <= AQI_BP_1 as int {
        if a > AQI_BP_0 as int {
            lemma_round_div_mono(
                (a - AQI_BP_0 as int) * 49,
                (b - AQI_BP_0 as int) * 49,
                AQI_BP_1 - AQI_BP_0,
            );
        }
    } else if b < AQI_BP_2 as int {
        if a > AQI_BP_1 as int {
            lemma_round_div_mono(
                (a - AQI_BP_1 as int) * 49,
                (b - AQI_BP_1 as int) * 49,
                AQI_BP_2 - AQI_BP_1,
            );
        }
    } else if b < AQI_BP_3 as int {
        if a >= AQI_BP_2 as int {
            lemma_round_div_mono(
                (a - AQI_BP_2 as int) * 49,
                (b - AQI_BP_2 as int) * 49,
                AQI_BP_3 - AQI_BP_2,
            );
        }
    } else if b < AQI_BP_4 as int {
        if a >= AQI_BP_3 as int {
            lemma_round_div_mono(
                (a - AQI_BP_3 as int) * 99,
                (b - AQI_BP_3 as int) * 99,
                AQI_BP_4 - AQI_BP_3,
            );
        }
    } else if b < AQI_BP_5 as int {
        if a >= AQI_BP_4 as int {
            lemma_round_div_mono(
                (a - AQI_BP_4 as int) * 99,
                (b - AQI_BP_4 as int) * 99,
                AQI_BP_5 - AQI_BP_4,
            );
        }
    } else if b < AQI_BP_6 as int {
        if a >= AQI_BP_5 as int {
            lemma_round_div_mono(
                (a - AQI_BP_5 as int) * 99,
                (b - AQI_BP_5 as int) * 99,
                AQI_BP_6 - AQI_BP_5,
            );
        }
    } else {
        if a >= AQI_BP_6 as int {
            lemma_round_div_mono(
                (a - AQI_BP_6 as int) * 498,
                (b - AQI_BP_6 as int) * 498,
                AQI_BP_7 - AQI_BP_6,
            );
        }
    }
}

/// Law: every concentration at or past the top of the table (`v >= 500.5`)
/// raises the out-of-scale warning condition, and its index never leaves
/// `[501, 999]`.  Past the table's end (`v >= 99999.9`) the index is pinned
/// to 501 exactly; within the last band it still interpolates upward.
pub proof fn lemma_out_of_scale(v: int)
    requires
        v >= AQI_BP_6 as int,
    ensures
        aqi_exceeds_scale(v),
        501 <= aqi_value(v) <= 999,
        v >= AQI_BP_7 as int ==> aqi_value(v) == 501,
{
    lemma_aqi_interp_bounds(v);
}

/// Law: the estimate is a function of the concentration alone.  [`estimate`]
/// returns exactly `aqi_value` of its input, so any two computations from
/// equal readings yield equal indices.
pub proof fn lemma_estimate_deterministic(v: int, r1: int, r2: int)
    requires
        r1 == aqi_value(v),
        r2 == aqi_value(v),
    ensures
        r1 == r2,
{
}

} // verus!
