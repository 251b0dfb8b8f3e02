//! The ball data model: fixed-point coordinates and the well-formedness
//! invariant that the physics preserves.

use vstd::prelude::*;

verus! {

/// One unit (one pixel, one intensity unit) expressed in milli-units.
pub const SCALE: i64 = 1000;

/// Radius of every ball's outline, in milli-pixels (10 pixels).
pub const METABALL_RADIUS: i64 = 10000;

/// One metaball: center position and per-tick velocity in milli-pixels,
/// plus the outline radius, fixed at creation.
#[derive(Clone, Copy, PartialEq, Eq, Structural, Debug)]
pub struct MetaBall {
    pub x: i64,
    pub y: i64,
    pub vx: i64,
    pub vy: i64,
    pub r: i64,
}

/// Well-formedness of one axis of a ball's motion: the velocity is at most
/// one pixel per tick in magnitude, and a position more than a pixel past an
/// edge can only have been reached by a move that started within a pixel of
/// the canvas — so positions stay inside `[-2 * SCALE, bound + SCALE]` and
/// the soft bounce never drifts outward.
pub open spec fn axis_wf(p: int, v: int, bound: int) -> bool {
    &&& -SCALE <= v <= SCALE
    &&& (p < -SCALE ==> p - v >= -SCALE)
    &&& (p > bound ==> p - v <= bound)
}

impl MetaBall {
    /// A velocity component never exceeds one pixel per tick in magnitude.
    pub open spec fn vel_bounded(self) -> bool {
        -SCALE <= self.vx <= SCALE && -SCALE <= self.vy <= SCALE
    }

    /// Well-formed with respect to a canvas of `w` by `h` pixels.
    pub open spec fn wf(self, w: u32, h: u32) -> bool {
        &&& axis_wf(self.x as int, self.vx as int, w as int * SCALE)
        &&& axis_wf(self.y as int, self.vy as int, h as int * SCALE)
        &&& self.r >= 0
    }
}

/// A well-formed axis keeps its position within one pixel of the canvas:
/// overshoot past an edge is bounded by the velocity cap.
pub proof fn lemma_axis_position_bounded(p: int, v: int, bound: int)
    requires
        axis_wf(p, v, bound),
        bound >= 0,
    ensures
        -2 * SCALE <= p <= bound + SCALE,
{
}

} // verus!
