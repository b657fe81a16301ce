//! Plain geometric values: points (also used as direction vectors) and
//! width/height pairs, with linear interpolation on each component.

use vstd::prelude::*;

use crate::units::{MAX_COORD, MAX_ENDPOINT, UNIT, lerp, spec_lerp};

verus! {

/// A position or displacement in scene units.
#[derive(Debug, Clone, Copy, PartialEq, Eq, Structural)]
pub struct Point {
    pub x: i64,
    pub y: i64,
}

/// A point also serves as a direction or displacement vector.
pub type Vector = Point;

/// The origin.
pub fn point() -> (r: Point)
    ensures
        r == (Point { x: 0, y: 0 }),
{
    Point { x: 0, y: 0 }
}

/// The point with the given coordinates.
pub fn point_at(x: i64, y: i64) -> (r: Point)
    ensures
        r == (Point { x, y }),
{
    Point { x, y }
}

/// Componentwise interpolation between two points.
pub open spec fn spec_point_interp(from: Point, to: Point, p: int) -> Point {
    Point { x: spec_lerp(from.x as int, to.x as int, p) as i64, y: spec_lerp(from.y as int, to.y as int, p) as i64 }
}

impl Point {
    /// Both coordinates lie within the given magnitude.
    pub open spec fn bounded(self, limit: int) -> bool {
        -limit <= self.x as int <= limit && -limit <= self.y as int <= limit
    }

    /// Interpolate each coordinate from `self` toward `other`.
    pub fn interp(&self, other: &Point, p: u64) -> (r: Point)
        requires
            p <= UNIT,
            self.bounded(MAX_ENDPOINT as int),
            other.bounded(MAX_ENDPOINT as int),
        ensures
            r == spec_point_interp(*self, *other, p as int),
            r.bounded(MAX_ENDPOINT as int),
            p == 0 ==> r == *self,
            p == UNIT ==> r == *other,
    {
        Point { x: lerp(self.x, other.x, p), y: lerp(self.y, other.y, p) }
    }
}

/// A width/height pair; both components are kept in `[0, MAX_COORD]`.
#[derive(Debug, Clone, Copy, PartialEq, Eq, Structural)]
pub struct Dimension {
    pub width: i64,
    pub height: i64,
}

/// A dimension with both components clamped into the storable range.
pub fn dimension(width: i64, height: i64) -> (r: Dimension)
    ensures
        r.width == crate::units::spec_clamp_size(width as int),
        r.height == crate::units::spec_clamp_size(height as int),
        r.inv(),
{
    Dimension { width: crate::units::clamp_size(width), height: crate::units::clamp_size(height) }
}

/// Componentwise interpolation between two dimensions.
pub open spec fn spec_dimension_interp(from: Dimension, to: Dimension, p: int) -> Dimension {
    Dimension {
        width: spec_lerp(from.width as int, to.width as int, p) as i64,
        height: spec_lerp(from.height as int, to.height as int, p) as i64,
    }
}

impl Dimension {
    /// Both components are non-negative and storable.
    pub open spec fn inv(self) -> bool {
        0 <= self.width as int <= MAX_COORD as int && 0 <= self.height as int <= MAX_COORD as int
    }

    /// Interpolate each component from `self` toward `other`.
    pub fn interp(&self, other: &Dimension, p: u64) -> (r: Dimension)
        requires
            p <= UNIT,
            self.inv(),
            other.inv(),
        ensures
            r == spec_dimension_interp(*self, *other, p as int),
            r.inv(),
            p == 0 ==> r == *self,
            p == UNIT ==> r == *other,
    {
        Dimension { width: lerp(self.width, other.width, p), height: lerp(self.height, other.height, p) }
    }
}

} // verus!
