//! Integer 2D geometry: points, axis-aligned rectangles, clamping, and the
//! circle-versus-rectangle overlap test used by collision resolution.
//!
//! Coordinates are in milli-pixels. All tests keep every intermediate value
//! well inside `i64`, given the coordinate bound `COORD_BOUND` that the
//! simulation maintains for every live entity.
use vstd::prelude::*;

verus! {

/// Magnitude bound on every coordinate that enters a geometric test.
/// Squares of differences of such values stay far below `i64::MAX`.
pub const COORD_BOUND: i64 = 100_000_000;

/// A 2D point or vector in milli-pixel coordinates.
#[derive(Clone, Copy, Debug, PartialEq, Eq, Structural)]
pub struct Vec2i {
    pub x: i64,
    pub y: i64,
}

/// An axis-aligned rectangle: top-left corner plus extents.
#[derive(Clone, Copy, Debug, PartialEq, Eq, Structural)]
pub struct Recti {
    pub x: i64,
    pub y: i64,
    pub w: i64,
    pub h: i64,
}

/// `v` forced into `[lo, hi]`.
pub open spec fn spec_clamp_i64(v: int, lo: int, hi: int) -> int {
    if v < lo {
        lo
    } else if v > hi {
        hi
    } else {
        v
    }
}

/// Clamp `v` into the closed interval `[lo, hi]`.
pub fn clamp_i64(v: i64, lo: i64, hi: i64) -> (r: i64)
    requires
        lo <= hi,
    ensures
        r == spec_clamp_i64(v as int, lo as int, hi as int),
{
    if v < lo {
        lo
    } else if v > hi {
        hi
    } else {
        v
    }
}

/// Whether the circle at `center` with radius `radius` touches `rect`:
/// the squared distance from the center to the closest point of the
/// rectangle is at most the squared radius.
pub open spec fn spec_circle_hits_rect(center: Vec2i, radius: i64, rect: Recti) -> bool {
    let cx = spec_clamp_i64(center.x as int, rect.x as int, rect.x + rect.w);
    let cy = spec_clamp_i64(center.y as int, rect.y as int, rect.y + rect.h);
    let dx = center.x - cx;
    let dy = center.y - cy;
    dx * dx + dy * dy <= radius * radius
}

/// Circle-versus-rectangle overlap: clamp the circle's center into the
/// rectangle to find the closest point, then compare squared distances.
pub fn circle_hits_rect(center: Vec2i, radius: i64, rect: Recti) -> (r: bool)
    requires
        -COORD_BOUND <= center.x <= COORD_BOUND,
        -COORD_BOUND <= center.y <= COORD_BOUND,
        -COORD_BOUND <= rect.x <= COORD_BOUND,
        -COORD_BOUND <= rect.y <= COORD_BOUND,
        0 <= rect.w <= COORD_BOUND,
        0 <= rect.h <= COORD_BOUND,
        rect.x + rect.w <= COORD_BOUND,
        rect.y + rect.h <= COORD_BOUND,
        0 <= radius <= COORD_BOUND,
    ensures
        r == spec_circle_hits_rect(center, radius, rect),
{
    let cx = clamp_i64(center.x, rect.x, rect.x + rect.w);
    let cy = clamp_i64(center.y, rect.y, rect.y + rect.h);
    let dx = center.x - cx;
    let dy = center.y - cy;
    proof {
        assert(-2 * COORD_BOUND <= dx <= 2 * COORD_BOUND);
        assert(-2 * COORD_BOUND <= dy <= 2 * COORD_BOUND);
        assert(dx * dx <= 4 * COORD_BOUND * COORD_BOUND) by (nonlinear_arith)
            requires
                -2 * COORD_BOUND <= dx <= 2 * COORD_BOUND,
        ;
        assert(dy * dy <= 4 * COORD_BOUND * COORD_BOUND) by (nonlinear_arith)
            requires
                -2 * COORD_BOUND <= dy <= 2 * COORD_BOUND,
        ;
        assert(0 <= dx * dx) by (nonlinear_arith);
        assert(0 <= dy * dy) by (nonlinear_arith);
        assert(radius * radius <= COORD_BOUND * COORD_BOUND) by (nonlinear_arith)
            requires
                0 <= radius <= COORD_BOUND,
        ;
        assert(0 <= radius * radius) by (nonlinear_arith);
    }
    dx * dx + dy * dy <= radius * radius
}

/// Whether two rectangles overlap (strictly, on both axes).
pub open spec fn spec_rects_overlap(a: Recti, b: Recti) -> bool {
    a.x < b.x + b.w && b.x < a.x + a.w && a.y < b.y + b.h && b.y < a.y + a.h
}

/// Rectangle-versus-rectangle overlap test.
pub fn rects_overlap(a: Recti, b: Recti) -> (r: bool)
    requires
        -COORD_BOUND <= a.x <= COORD_BOUND,
        -COORD_BOUND <= a.y <= COORD_BOUND,
        0 <= a.w <= COORD_BOUND,
        0 <= a.h <= COORD_BOUND,
        -COORD_BOUND <= b.x <= COORD_BOUND,
        -COORD_BOUND <= b.y <= COORD_BOUND,
        0 <= b.w <= COORD_BOUND,
        0 <= b.h <= COORD_BOUND,
    ensures
        r == spec_rects_overlap(a, b),
{
    a.x < b.x + b.w && b.x < a.x + a.w && a.y < b.y + b.h && b.y < a.y + a.h
}

} // verus!
