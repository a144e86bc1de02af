//! Shared geometry and color value types.

use vstd::math::max;
use vstd::math::min;
use vstd::prelude::*;

verus! {

/// A pixel-space axis-aligned box. `x`/`y` may be negative (off screen);
/// `w`/`h` are non-negative sizes. Used both as a source sub-image frame
/// and as a world-space bounding box.
#[derive(PartialEq, Eq, Clone, Copy, Hash, Debug, Structural)]
pub struct Rect {
    pub x: i32,
    pub y: i32,
    pub w: u16,
    pub h: u16,
}

/// An integer 2D point or offset.
#[derive(PartialEq, Eq, Clone, Copy, Hash, Debug, Structural)]
pub struct Vec2i(pub i32, pub i32);

/// A non-premultiplied RGBA color, used only at the drawing API boundary.
#[derive(PartialEq, Eq, Clone, Copy, Hash, Debug, Structural)]
pub struct Rgba(pub u8, pub u8, pub u8, pub u8);

/// The closed set of gameplay consequences a collision can report upward.
#[derive(PartialEq, Eq, Clone, Copy, Hash, Debug, Structural)]
pub enum Effect {
    Speedup(usize),
    Hurt(usize),
    Fight,
    Win,
    Nothing,
}

/// Whether two rectangles touch (overlap or share an edge or corner) on
/// both axes.
pub open spec fn spec_touching(r1: Rect, r2: Rect) -> bool {
    &&& r1.x <= r2.x + r2.w
    &&& r2.x <= r1.x + r1.w
    &&& r1.y <= r2.y + r2.h
    &&& r2.y <= r1.y + r1.h
}

/// The (possibly negative) extent of overlap of two rectangles along x.
pub open spec fn spec_overlap_x(r1: Rect, r2: Rect) -> int {
    min(r1.x + r1.w, r2.x + r2.w) - max(r1.x as int, r2.x as int)
}

/// The (possibly negative) extent of overlap of two rectangles along y.
pub open spec fn spec_overlap_y(r1: Rect, r2: Rect) -> int {
    min(r1.y + r1.h, r2.y + r2.h) - max(r1.y as int, r2.y as int)
}

impl Rect {
    /// True iff the two rectangles touch on both axes (closed comparison:
    /// sharing an edge counts as touching).
    pub fn rect_touching(r1: Rect, r2: Rect) -> (r: bool)
        ensures
            r == spec_touching(r1, r2),
    {
        r1.x as i64 <= r2.x as i64 + r2.w as i64 && r2.x as i64 <= r1.x as i64 + r1.w as i64
            && r1.y as i64 <= r2.y as i64 + r2.h as i64 && r2.y as i64 <= r1.y as i64 + r1.h as i64
    }

    /// The per-axis overlap extents of two rectangles, or `None` when the
    /// rectangles do not touch on some axis.
    pub fn rect_displacement(r1: Rect, r2: Rect) -> (r: Option<(i32, i32)>)
        ensures
            r is Some <==> spec_overlap_x(r1, r2) >= 0 && spec_overlap_y(r1, r2) >= 0,
            r is Some ==> (r->0).0 == spec_overlap_x(r1, r2) && (r->0).1 == spec_overlap_y(r1, r2),
    {
        let r1x1 = r1.x as i64 + r1.w as i64;
        let r2x1 = r2.x as i64 + r2.w as i64;
        let r1y1 = r1.y as i64 + r1.h as i64;
        let r2y1 = r2.y as i64 + r2.h as i64;
        let x_overlap = if r1x1 <= r2x1 {
            r1x1
        } else {
            r2x1
        } - if r1.x >= r2.x {
            r1.x as i64
        } else {
            r2.x as i64
        };
        let y_overlap = if r1y1 <= r2y1 {
            r1y1
        } else {
            r2y1
        } - if r1.y >= r2.y {
            r1.y as i64
        } else {
            r2.y as i64
        };
        if x_overlap >= 0 && y_overlap >= 0 {
            Some((x_overlap as i32, y_overlap as i32))
        } else {
            None
        }
    }
}

} // verus!
