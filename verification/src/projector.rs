//! The projector: one mapped value, the current zoom scale and the viewport
//! side give an integer screen coordinate — or no coordinate at all where
//! the mapping was undefined.
//!
//! For a defined value `(re, im)` and scale `s` the screen point is
//! `((re + s) * p / (2*s), (im + s) * p / (2*s))`, each coordinate divided
//! with truncation toward zero and then clamped to the `i32` range. The
//! quotient is exact rational arithmetic throughout: evaluating the same
//! formula in binary floating point can round a coordinate across an
//! integer boundary and so land one pixel away; the exact value is the one
//! this contract fixes.

use vstd::prelude::*;
use crate::complex::{MappingResult, cpx_wf};
use crate::scale::{MICROS_PER_UNIT, SCALE_MAX_MICROS, Scale, scale_wf};

verus! {

/// A pixel position on the drawing surface.
#[derive(Clone, Copy, Debug, PartialEq, Eq, Structural)]
pub struct ScreenPoint {
    pub x: i32,
    pub y: i32,
}

/// Integer division truncating toward zero, for a positive divisor.
pub open spec fn trunc_div(num: int, den: int) -> int {
    if num >= 0 {
        num / den
    } else {
        -((-num) / den)
    }
}

/// Clamp an unbounded integer into the `i32` range.
pub open spec fn clamp_i32(v: int) -> int {
    if v < i32::MIN as int {
        i32::MIN as int
    } else if v > i32::MAX as int {
        i32::MAX as int
    } else {
        v
    }
}

/// The screen coordinate of the rational `a / d` under a scale of `m`
/// millionths and a viewport side of `p` pixels: exactly
/// `(a/d + m/1000000) * p / (2 * m/1000000)`, truncated toward zero and
/// clamped.
pub open spec fn project_coord(a: int, d: int, m: int, p: int) -> int {
    clamp_i32(trunc_div((a * (MICROS_PER_UNIT as int) + m * d) * p, 2 * (m * d)))
}

/// What projecting a mapped value yields: nothing for `Undefined`, and the
/// two clamped screen coordinates for a defined point.
pub open spec fn project_val(r: MappingResult, m: int, p: int) -> Option<ScreenPoint> {
    match r {
        MappingResult::Undefined => None,
        MappingResult::Defined(z) => Some(
            ScreenPoint {
                x: project_coord(z@.re, z@.den, m, p) as i32,
                y: project_coord(z@.im, z@.den, m, p) as i32,
            },
        ),
    }
}

/// One clamped, truncated screen coordinate.
fn coord(a: i64, d: i64, m: u64, p: u32) -> (c: i32)
    requires
        1 <= d,
        1 <= m <= SCALE_MAX_MICROS,
        1 <= p,
    ensures
        c == project_coord(a as int, d as int, m as int, p as int),
{
    let a_: i128 = a as i128;
    let d_: i128 = d as i128;
    let m_: i128 = m as i128;
    let p_: i128 = p as i128;
    proof {
        let aa = a as int;
        let dd = d as int;
        let mm = m as int;
        let pp = p as int;
        assert(1 <= mm * dd <= 120_000_000_000_000_000_000_000_000) by (nonlinear_arith)
            requires
                1 <= mm <= 12_000_000,
                1 <= dd <= 10_000_000_000_000_000_000,
        ;
        let s2 = aa * 1_000_000 + mm * dd;
        assert(-700_000_000_000_000_000_000_000_000_000_000_000 <= s2 * pp
            <= 700_000_000_000_000_000_000_000_000_000_000_000) by (nonlinear_arith)
            requires
                -130_000_000_000_000_000_000_000_000 <= s2 <= 130_000_000_000_000_000_000_000_000,
                1 <= pp <= 5_000_000_000,
        ;
    }
    let md: i128 = m_ * d_;
    let den: i128 = 2 * md;
    let num: i128 = (a_ * 1_000_000 + md) * p_;
    let q: i128 = if num >= 0 {
        ((num as u128) / (den as u128)) as i128
    } else {
        -((((-num) as u128) / (den as u128)) as i128)
    };
    if q < i32::MIN as i128 {
        i32::MIN
    } else if q > i32::MAX as i128 {
        i32::MAX
    } else {
        q as i32
    }
}

/// Project one mapped value onto the viewport at the current scale.
pub fn project(r: &MappingResult, scale: &Scale, viewport: u32) -> (p: Option<ScreenPoint>)
    requires
        scale_wf(*scale),
        1 <= viewport,
        r matches MappingResult::Defined(z) ==> cpx_wf(z@),
    ensures
        p == project_val(*r, scale.micros as int, viewport as int),
{
    match r {
        MappingResult::Undefined => None,
        MappingResult::Defined(z) => {
            let x = coord(z.re_num, z.den, scale.micros, viewport);
            let y = coord(z.im_num, z.den, scale.micros, viewport);
            Some(ScreenPoint { x, y })
        },
    }
}

} // verus!
