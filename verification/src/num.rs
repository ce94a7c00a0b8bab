//! Fixed-point arithmetic for the geometry engine.
//!
//! A coordinate, length or angle is an `i64` counting micro-units: one source
//! unit equals [`MICRO`]. Angles handed to the trigonometric kernel use a
//! binary scale of 2^32 per radian (`Q32.32`). Every rounding step is pinned by
//! [`spec_round_div`], which rounds to nearest with ties away from zero.

use vstd::prelude::*;

verus! {

/// Micro-units per source unit.
pub const MICRO: i64 = 1_000_000;

/// Largest magnitude (in micro-units) the engine accepts for a coordinate,
/// length or angle: one billion source units.
pub const MAX_COORD: i64 = 1_000_000_000_000_000;

/// Bound on the operands of [`round_div_i128`]; wide enough for every product
/// formed in this crate.
pub const DIV_OPERAND_MAX: i128 = 85_070_591_730_234_615_865_843_651_857_942_052_864;

/// A value the engine will do arithmetic on.
pub open spec fn in_range(c: int) -> bool {
    -(MAX_COORD as int) <= c <= MAX_COORD as int
}

/// Division rounded to nearest, ties away from zero; the one rounding rule of
/// this crate. Meaningful for `b > 0`.
pub open spec fn spec_round_div(a: int, b: int) -> int {
    if a >= 0 {
        (a + b / 2) / b
    } else {
        -((-a + b / 2) / b)
    }
}

/// Rounded division on machine integers.
pub fn round_div_i128(a: i128, b: i128) -> (r: i128)
    requires
        0 < b <= DIV_OPERAND_MAX,
        -DIV_OPERAND_MAX <= a <= DIV_OPERAND_MAX,
    ensures
        r == spec_round_div(a as int, b as int),
{
    let bu: u128 = b as u128;
    let half: u128 = bu / 2;
    proof {
        assert((bu as int) / 2 <= bu as int) by (nonlinear_arith)
            requires
                bu as int >= 0,
        ;
    }
    if a >= 0 {
        let q: u128 = (a as u128 + half) / bu;
        proof {
            let top: int = a as int + half as int;
            assert(top / (b as int) <= top) by (nonlinear_arith)
                requires
                    top >= 0,
                    b as int >= 1,
            ;
        }
        q as i128
    } else {
        let m: u128 = (-a) as u128;
        let q: u128 = (m + half) / bu;
        proof {
            let top: int = m as int + half as int;
            assert(top / (b as int) <= top) by (nonlinear_arith)
                requires
                    top >= 0,
                    b as int >= 1,
            ;
        }
        -(q as i128)
    }
}

/// Scale of the trigonometric kernel: 2^32 per unit.
pub const Q32_ONE: i64 = 4_294_967_296;

/// The product of a micro-unit value and a `Q32.32` factor, brought back to
/// micro-units with the crate's rounding rule.
pub open spec fn spec_mul_q32(v: int, t: int) -> int {
    spec_round_div(v * t, Q32_ONE as int)
}

/// Multiplies a micro-unit value by a `Q32.32` factor; `None` when the result
/// leaves the coordinate range.
pub fn mul_q32(v: i64, t: i64) -> (r: Option<i64>)
    ensures
        in_range(spec_mul_q32(v as int, t as int)) ==> r == Some(
            spec_mul_q32(v as int, t as int) as i64,
        ),
        !in_range(spec_mul_q32(v as int, t as int)) ==> r is None,
{
    proof {
        let lo: int = -170_141_183_460_469_231_731_687_303_715_884_105_728;
        let hi: int = 170_141_183_460_469_231_731_687_303_715_884_105_727;
        assert(lo <= v as int * t as int && v as int * t as int <= hi && -DIV_OPERAND_MAX
            <= v as int * t as int && v as int * t as int <= DIV_OPERAND_MAX) by (nonlinear_arith)
            requires
                -9_223_372_036_854_775_808 <= v as int <= 9_223_372_036_854_775_807,
                -9_223_372_036_854_775_808 <= t as int <= 9_223_372_036_854_775_807,
                lo == -170_141_183_460_469_231_731_687_303_715_884_105_728,
                hi == 170_141_183_460_469_231_731_687_303_715_884_105_727,
        ;
    }
    let wide: i128 = (v as i128) * (t as i128);
    let scaled: i128 = round_div_i128(wide, Q32_ONE as i128);
    narrow_coord(scaled)
}

/// Narrows a wide intermediate back to a coordinate; `None` when the value is
/// outside the range the engine works in.
pub fn narrow_coord(v: i128) -> (r: Option<i64>)
    ensures
        in_range(v as int) ==> r == Some(v as i64),
        !in_range(v as int) ==> r is None,
{
    if -(MAX_COORD as i128) <= v && v <= MAX_COORD as i128 {
        Some(v as i64)
    } else {
        None
    }
}

} // verus!
