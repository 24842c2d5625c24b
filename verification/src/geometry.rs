//! Geometric value types: points, sizes and rectangles.
//!
//! A `Point` is a position in pixels relative to the screen origin; it may be
//! negative (a component may be positioned partly or wholly off screen).
//! A `Size` is a component extent in pixels.

use vstd::prelude::*;

verus! {

/// A position `{x, y}` in 2D pixel space. Coordinates may be negative.
#[derive(Debug, Clone, Copy, PartialEq, Eq, Structural)]
pub struct Point {
    pub x: i64,
    pub y: i64,
}

/// An extent `{width, height}` in pixels.
#[derive(Debug, Clone, Copy, PartialEq, Eq, Structural)]
pub struct Size {
    pub width: u32,
    pub height: u32,
}

/// A rectangular region of 2D pixel space: an origin `Point` plus a `Size`.
#[derive(Debug, Clone, Copy, PartialEq, Eq, Structural)]
pub struct Rectangle {
    pub point: Point,
    pub size: Size,
}

/// Half-open box test: `(px, py)` lies in `[x, x + w) x [y, y + h)`.
pub open spec fn spec_contains(x: int, y: int, w: int, h: int, px: int, py: int) -> bool {
    &&& px >= x
    &&& px < x + w
    &&& py >= y
    &&& py < y + h
}

/// The sum of two coordinates, saturating at the `i64` range bounds.
pub open spec fn spec_sat_add_i64(a: int, b: int) -> int {
    if a + b > i64::MAX as int {
        i64::MAX as int
    } else if a + b < i64::MIN as int {
        i64::MIN as int
    } else {
        a + b
    }
}

/// Add two coordinates, saturating at the `i64` range bounds.
pub fn sat_add_i64(a: i64, b: i64) -> (r: i64)
    ensures
        r as int == spec_sat_add_i64(a as int, b as int),
{
    if a >= 0 && b > i64::MAX - a {
        i64::MAX
    } else if a < 0 && b < i64::MIN - a {
        i64::MIN
    } else {
        a + b
    }
}

/// The sum of two widths, saturating at the `u64` range bound.
pub open spec fn spec_sat_add_u64(a: int, b: int) -> int {
    if a + b > u64::MAX as int {
        u64::MAX as int
    } else {
        a + b
    }
}

/// Add two widths, saturating at the `u64` range bound.
pub fn sat_add_u64(a: u64, b: u64) -> (r: u64)
    ensures
        r as int == spec_sat_add_u64(a as int, b as int),
{
    if b > u64::MAX - a {
        u64::MAX
    } else {
        a + b
    }
}

impl Rectangle {
    /// Whether `(px, py)` lies inside this rectangle (half-open on the
    /// right and bottom edges).
    pub fn contains(&self, px: i64, py: i64) -> (r: bool)
        ensures
            r == spec_contains(
                self.point.x as int,
                self.point.y as int,
                self.size.width as int,
                self.size.height as int,
                px as int,
                py as int,
            ),
    {
        px >= self.point.x && (px as i128) < self.point.x as i128 + self.size.width as i128
            && py >= self.point.y && (py as i128) < self.point.y as i128
            + self.size.height as i128
    }
}

} // verus!
