//! The coordinate-space transform rules.
//!
//! The two domains normalize differently, and the difference is the point:
//! a symbol point flips its vertical axis (`origin_y - raw_y`), a pin then
//! flips once more (net `raw_y - origin_y`), and a footprint point never flips.
//! Arcs stored as center and swept angles become three boundary points, the
//! middle one at the arithmetic mean of the two angles — exact only for sweeps
//! up to a half turn, kept as-is for fidelity with the source convention.

use vstd::prelude::*;
use vstd::arithmetic::div_mod::lemma_fundamental_div_mod;
use vstd::arithmetic::div_mod::lemma_fundamental_div_mod_converse;
use vstd::arithmetic::div_mod::lemma_div_is_ordered;
use crate::num::in_range;
use crate::num::spec_round_div;
use crate::num::spec_mul_q32;
use crate::num::round_div_i128;
use crate::num::mul_q32;
use crate::num::DIV_OPERAND_MAX;
use crate::geom::Point;
use crate::geom::BBox;
use crate::geom::ArcShape;
use crate::geom::bbox_wf;
use crate::geom::arc_wf;
use crate::trig::PI_BITS_UB;
use crate::trig::cordic_sin;
use crate::trig::cordic_cos;
use crate::trig::sin_q32;
use crate::trig::cos_q32;

verus! {

/// Micro-degrees in a full turn.
pub const FULL_TURN: i64 = 360_000_000;

/// Micro-degrees in a half turn.
pub const HALF_TURN: i64 = 180_000_000;

/// Pi at scale 2^32, rounded to the nearest integer.
pub const PI_Q32: i64 = 13_493_037_704;

pub open spec fn spec_norm_sym_x(x: int, b: BBox) -> int {
    x - b.x
}

pub open spec fn spec_norm_sym_y(y: int, b: BBox) -> int {
    b.y - y
}

pub open spec fn spec_norm_pin_y(y: int, b: BBox) -> int {
    y - b.y
}

pub open spec fn spec_norm_fp_x(x: int, b: BBox) -> int {
    x - b.x
}

pub open spec fn spec_norm_fp_y(y: int, b: BBox) -> int {
    y - b.y
}

/// Normalizes a symbol shape point: shift in x, flip in y.
pub fn normalize_symbol_point(x: i64, y: i64, b: BBox) -> (r: Point)
    requires
        in_range(x as int),
        in_range(y as int),
        bbox_wf(b),
    ensures
        r.x == spec_norm_sym_x(x as int, b),
        r.y == spec_norm_sym_y(y as int, b),
{
    Point { x: x - b.x, y: b.y - y }
}

/// Normalizes a pin position: the flip of the shape rule is flipped once more,
/// the one asymmetry of the symbol domain.
pub fn normalize_pin_point(x: i64, y: i64, b: BBox) -> (r: Point)
    requires
        in_range(x as int),
        in_range(y as int),
        bbox_wf(b),
    ensures
        r.x == spec_norm_sym_x(x as int, b),
        r.y == spec_norm_pin_y(y as int, b),
{
    Point { x: x - b.x, y: y - b.y }
}

/// Normalizes a footprint point: shift only, never a flip.
pub fn normalize_footprint_point(x: i64, y: i64, b: BBox) -> (r: Point)
    requires
        in_range(x as int),
        in_range(y as int),
        bbox_wf(b),
    ensures
        r.x == spec_norm_fp_x(x as int, b),
        r.y == spec_norm_fp_y(y as int, b),
{
    Point { x: x - b.x, y: y - b.y }
}

/// Maps a normalized symbol shape point back to raw source coordinates.
pub fn denormalize_symbol_point(p: Point, b: BBox) -> (r: Point)
    requires
        -3_000_000_000_000_000 <= p.x <= 3_000_000_000_000_000,
        -3_000_000_000_000_000 <= p.y <= 3_000_000_000_000_000,
        bbox_wf(b),
    ensures
        r.x == p.x + b.x,
        r.y == b.y - p.y,
{
    Point { x: p.x + b.x, y: b.y - p.y }
}

/// Maps a normalized pin position back to raw source coordinates.
pub fn denormalize_pin_point(p: Point, b: BBox) -> (r: Point)
    requires
        -3_000_000_000_000_000 <= p.x <= 3_000_000_000_000_000,
        -3_000_000_000_000_000 <= p.y <= 3_000_000_000_000_000,
        bbox_wf(b),
    ensures
        r.x == p.x + b.x,
        r.y == p.y + b.y,
{
    Point { x: p.x + b.x, y: p.y + b.y }
}

/// The symbol normalization rules and their inverses cancel exactly: every raw
/// coordinate is recovered, for shapes (flip) and for pins (no net flip) alike.
pub proof fn lemma_symbol_norm_round_trip(x: int, y: int, b: BBox)
    ensures
        spec_norm_sym_x(x, b) + b.x == x,
        b.y - spec_norm_sym_y(y, b) == y,
        spec_norm_pin_y(y, b) + b.y == y,
{
}

/// The footprint normalization shifts back exactly as well.
pub proof fn lemma_footprint_norm_round_trip(x: int, y: int, b: BBox)
    ensures
        spec_norm_fp_x(x, b) + b.x == x,
        spec_norm_fp_y(y, b) + b.y == y,
{
}

/// The angle congruent to `deg` in the half-open half turn around zero.
pub open spec fn spec_wrap_deg(deg: int) -> int {
    let m = deg % (FULL_TURN as int);
    if m > HALF_TURN as int {
        m - FULL_TURN as int
    } else {
        m
    }
}

/// Wraps an angle into `(-180, 180]` degrees.
pub fn wrap_deg(deg: i64) -> (r: i64)
    requires
        in_range(deg as int),
    ensures
        r == spec_wrap_deg(deg as int),
        -(HALF_TURN as int) < r <= HALF_TURN as int,
{
    let b: u64 = FULL_TURN as u64;
    let m: u64 = if deg >= 0 {
        (deg as u64) % b
    } else {
        let me: u64 = ((-deg) as u64) % b;
        proof {
            let mag = -(deg as int);
            lemma_fundamental_div_mod(mag, FULL_TURN as int);
            let q = mag / (FULL_TURN as int);
            if me == 0 {
                lemma_fundamental_div_mod_converse(deg as int, FULL_TURN as int, -q, 0);
            } else {
                lemma_fundamental_div_mod_converse(
                    deg as int,
                    FULL_TURN as int,
                    -q - 1,
                    FULL_TURN as int - me as int,
                );
            }
        }
        if me == 0 {
            0
        } else {
            b - me
        }
    };
    if m > HALF_TURN as u64 {
        (m as i64) - FULL_TURN
    } else {
        m as i64
    }
}

/// A wrapped angle in micro-degrees, as `Q32.32` radians.
pub open spec fn spec_to_rad_bits(deg: int) -> int {
    spec_round_div(deg * (PI_Q32 as int), HALF_TURN as int)
}

/// Converts micro-degrees in the wrapped range to `Q32.32` radian bits.
pub fn to_rad_bits(deg: i64) -> (r: i64)
    requires
        -(HALF_TURN as int) <= deg <= HALF_TURN as int,
    ensures
        r == spec_to_rad_bits(deg as int),
        -PI_BITS_UB <= r <= PI_BITS_UB,
{
    proof {
        assert(-DIV_OPERAND_MAX <= (deg as int) * (PI_Q32 as int) <= DIV_OPERAND_MAX)
            by (nonlinear_arith)
            requires
                -180_000_000 <= deg as int <= 180_000_000,
                PI_Q32 == 13_493_037_704i64,
                DIV_OPERAND_MAX == 85_070_591_730_234_615_865_843_651_857_942_052_864i128,
        ;
    }
    let prod: i128 = (deg as i128) * (PI_Q32 as i128);
    let r128: i128 = round_div_i128(prod, HALF_TURN as i128);
    proof {
        let c = PI_Q32 as int;
        let h = HALF_TURN as int;
        let top = h * c + h / 2;
        lemma_fundamental_div_mod_converse(top, h, c, h / 2);
        assert(top / h == c);
        if deg >= 0 {
            lemma_div_is_ordered(prod as int + h / 2, top, h);
            lemma_div_is_ordered(0 + h / 2, prod as int + h / 2, h);
            lemma_fundamental_div_mod_converse(h / 2, h, 0, h / 2);
        } else {
            lemma_div_is_ordered(-(prod as int) + h / 2, top, h);
            lemma_div_is_ordered(0 + h / 2, -(prod as int) + h / 2, h);
            lemma_fundamental_div_mod_converse(h / 2, h, 0, h / 2);
        }
    }
    r128 as i64
}

/// One boundary point of an arc: the center plus the radius turned by the
/// angle, through the named trigonometric kernel; `None` when the offset
/// leaves the coordinate range.
pub open spec fn spec_arc_point(cx: int, cy: int, radius: int, deg: int) -> Option<Point> {
    let bits = spec_to_rad_bits(spec_wrap_deg(deg)) as i64;
    let dx = spec_mul_q32(radius, cordic_cos(bits) as int);
    let dy = spec_mul_q32(radius, cordic_sin(bits) as int);
    if in_range(dx) && in_range(dy) {
        Some(Point { x: (cx + dx) as i64, y: (cy + dy) as i64 })
    } else {
        None
    }
}

/// Computes one boundary point of an arc in raw source coordinates.
pub fn arc_point(cx: i64, cy: i64, radius: i64, deg: i64) -> (r: Option<Point>)
    requires
        in_range(cx as int),
        in_range(cy as int),
        in_range(radius as int),
        in_range(deg as int),
    ensures
        r == spec_arc_point(cx as int, cy as int, radius as int, deg as int),
{
    let w = wrap_deg(deg);
    let bits = to_rad_bits(w);
    let c = cos_q32(bits);
    let s = sin_q32(bits);
    match (mul_q32(radius, c), mul_q32(radius, s)) {
        (Some(dx), Some(dy)) => Some(Point { x: cx + dx, y: cy + dy }),
        _ => None,
    }
}

/// The arithmetic mean of the two swept angles; the documented midpoint rule.
pub open spec fn spec_mean_deg(s: int, e: int) -> int {
    spec_round_div(s + e, 2)
}

/// The three boundary points (start, mid, end) of an arc, still in raw source
/// coordinates; `None` when any offset leaves the coordinate range.
pub open spec fn spec_arc_points(a: ArcShape) -> Option<(Point, Point, Point)> {
    let st = spec_arc_point(a.cx as int, a.cy as int, a.radius as int, a.start_deg as int);
    let md = spec_arc_point(
        a.cx as int,
        a.cy as int,
        a.radius as int,
        spec_mean_deg(a.start_deg as int, a.end_deg as int),
    );
    let en = spec_arc_point(a.cx as int, a.cy as int, a.radius as int, a.end_deg as int);
    if st is Some && md is Some && en is Some {
        Some((st->0, md->0, en->0))
    } else {
        None
    }
}

/// Reconstructs an arc's three boundary points from center, radius and angles.
pub fn arc_points(a: &ArcShape) -> (r: Option<(Point, Point, Point)>)
    requires
        arc_wf(*a),
    ensures
        r == spec_arc_points(*a),
{
    let mean128: i128 = round_div_i128((a.start_deg as i128) + (a.end_deg as i128), 2);
    proof {
        let x = a.start_deg as int + a.end_deg as int;
        let mx = 2 * (crate::num::MAX_COORD as int) + 1;
        lemma_fundamental_div_mod_converse(mx, 2, crate::num::MAX_COORD as int, 1);
        lemma_fundamental_div_mod_converse(0, 2, 0, 0);
        if x >= 0 {
            lemma_div_is_ordered(x + 1, mx, 2);
            lemma_div_is_ordered(0, x + 1, 2);
        } else {
            lemma_div_is_ordered(-x + 1, mx, 2);
            lemma_div_is_ordered(0, -x + 1, 2);
        }
    }
    let mean: i64 = mean128 as i64;
    let st = arc_point(a.cx, a.cy, a.radius, a.start_deg);
    let md = arc_point(a.cx, a.cy, a.radius, mean);
    let en = arc_point(a.cx, a.cy, a.radius, a.end_deg);
    match (st, md, en) {
        (Some(p1), Some(p2), Some(p3)) => Some((p1, p2, p3)),
        _ => None,
    }
}

} // verus!
