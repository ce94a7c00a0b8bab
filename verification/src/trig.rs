//! The trigonometric kernel behind arc reconstruction.
//!
//! Sine and cosine are computed by the `cordic` crate on `Q32.32` fixed-point
//! numbers (the `fixed` crate's `I32F32`, carried here as raw `i64` bits, 2^32
//! per unit). What the kernel returns is a deterministic function of the angle
//! bits alone; the engine names those functions and builds its contracts on
//! the names.

use vstd::prelude::*;

verus! {

/// Upper bound on pi in `Q32.32` bits; wrapped angles stay within it.
pub const PI_BITS_UB: i64 = 13_493_037_705;

pub uninterp spec fn cordic_sin(angle_bits: i64) -> i64;

pub uninterp spec fn cordic_cos(angle_bits: i64) -> i64;

/// Relies on cordic::sin over fixed's I32F32: a pure function of the angle
/// bits; the range bound keeps its internal angle reduction to a step or two.
#[verifier::external_body]
pub fn sin_q32(angle_bits: i64) -> (r: i64)
    requires
        -PI_BITS_UB <= angle_bits <= PI_BITS_UB,
    ensures
        r == cordic_sin(angle_bits),
{
    cordic::sin(fixed::types::I32F32::from_bits(angle_bits)).to_bits()
}

/// Relies on cordic::cos over fixed's I32F32: a pure function of the angle
/// bits; the range bound keeps its internal angle reduction to a step or two.
#[verifier::external_body]
pub fn cos_q32(angle_bits: i64) -> (r: i64)
    requires
        -PI_BITS_UB <= angle_bits <= PI_BITS_UB,
    ensures
        r == cordic_cos(angle_bits),
{
    cordic::cos(fixed::types::I32F32::from_bits(angle_bits)).to_bits()
}

} // verus!
