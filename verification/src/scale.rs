//! The zoom scale: a positive factor held in exact millionths of a unit.
//!
//! Zooming in multiplies the scale by 9/10 (rounded down to a millionth)
//! only while the scale still sits above the 0.1 floor; zooming out
//! multiplies by 10/9 only while it sits below the 10.0 ceiling. Starting
//! from 1.0 the scale therefore always stays within
//! `[SCALE_MIN_MICROS, SCALE_MAX_MICROS]`.

use vstd::prelude::*;

verus! {

/// Millionths in one unit of scale: the starting scale `1.0`.
pub const MICROS_PER_UNIT: u64 = 1_000_000;

/// The `0.1` floor: zooming in is ignored at or under it.
pub const ZOOM_IN_FLOOR_MICROS: u64 = 100_000;

/// The `10.0` ceiling: zooming out is ignored at or over it.
pub const ZOOM_OUT_CEIL_MICROS: u64 = 10_000_000;

/// Least scale any zoom can reach: one step of 9/10 from just above the
/// floor, `0.1 * 0.9`.
pub const SCALE_MIN_MICROS: u64 = 90_000;

/// Greatest scale any zoom can reach: one step of 10/9 from just under the
/// ceiling.
pub const SCALE_MAX_MICROS: u64 = 11_111_110;

/// The current zoom scale, in millionths of a unit.
#[derive(Clone, Copy, Debug, PartialEq, Eq, Structural)]
pub struct Scale {
    pub micros: u64,
}

/// A scale a run of zoom steps can actually hold.
pub open spec fn scale_wf(s: Scale) -> bool {
    SCALE_MIN_MICROS <= s.micros <= SCALE_MAX_MICROS
}

/// The scale after one "zoom in" request.
pub open spec fn zoom_in_micros(m: int) -> int {
    if m > ZOOM_IN_FLOOR_MICROS { m * 9 / 10 } else { m }
}

/// The scale after one "zoom out" request.
pub open spec fn zoom_out_micros(m: int) -> int {
    if m < ZOOM_OUT_CEIL_MICROS { m * 10 / 9 } else { m }
}

impl Scale {
    /// The startup scale of `1.0`.
    pub fn start() -> (s: Self)
        ensures
            s.micros == MICROS_PER_UNIT,
            scale_wf(s),
    {
        Scale { micros: MICROS_PER_UNIT }
    }

    /// Shrink the scale by 9/10, unless it already sits at or under the
    /// `0.1` floor.
    pub fn zoom_in(&mut self)
        requires
            scale_wf(*old(self)),
        ensures
            final(self).micros == zoom_in_micros(old(self).micros as int),
            scale_wf(*final(self)),
    {
        if self.micros > ZOOM_IN_FLOOR_MICROS {
            self.micros = self.micros * 9 / 10;
        }
    }

    /// Grow the scale by 10/9, unless it already sits at or over the
    /// `10.0` ceiling.
    pub fn zoom_out(&mut self)
        requires
            scale_wf(*old(self)),
        ensures
            final(self).micros == zoom_out_micros(old(self).micros as int),
            scale_wf(*final(self)),
    {
        if self.micros < ZOOM_OUT_CEIL_MICROS {
            self.micros = self.micros * 10 / 9;
        }
    }
}

/// The zoom clamp, one step: within the reachable band, zooming in never
/// shrinks the scale below `0.1 * 0.9` — in particular one step from any
/// admissible scale stays at or above `SCALE_MIN_MICROS` — and zooming out
/// never grows it beyond `SCALE_MAX_MICROS`.
pub proof fn lemma_zoom_step_clamped(m: int)
    requires
        SCALE_MIN_MICROS <= m <= SCALE_MAX_MICROS,
    ensures
        SCALE_MIN_MICROS <= zoom_in_micros(m) <= m,
        m <= zoom_out_micros(m) <= SCALE_MAX_MICROS,
{
}

} // verus!
