//! Read-only scene boundary values consumed by edge-relative actions.

use vstd::prelude::*;

use crate::units::MAX_COORD;

verus! {

/// The four edges of the scene, set once from the host window geometry.
#[derive(Debug, Clone, Copy, PartialEq, Eq, Structural)]
pub struct Resource {
    pub left: i64,
    pub right: i64,
    pub lower: i64,
    pub upper: i64,
}

impl Resource {
    /// Every edge coordinate is storable.
    pub open spec fn inv(self) -> bool {
        &&& -MAX_COORD as int <= self.left as int <= MAX_COORD as int
        &&& -MAX_COORD as int <= self.right as int <= MAX_COORD as int
        &&& -MAX_COORD as int <= self.lower as int <= MAX_COORD as int
        &&& -MAX_COORD as int <= self.upper as int <= MAX_COORD as int
    }

    /// Scene boundaries from the four edge coordinates, clamped into the
    /// storable range.
    pub fn new(left: i64, right: i64, lower: i64, upper: i64) -> (r: Resource)
        ensures
            r.inv(),
            r.left == crate::units::spec_clamp_coord(left as int),
            r.right == crate::units::spec_clamp_coord(right as int),
            r.lower == crate::units::spec_clamp_coord(lower as int),
            r.upper == crate::units::spec_clamp_coord(upper as int),
    {
        Resource {
            left: crate::units::clamp_coord(left),
            right: crate::units::clamp_coord(right),
            lower: crate::units::clamp_coord(lower),
            upper: crate::units::clamp_coord(upper),
        }
    }

    /// The upper scene edge.
    pub fn edge_upper(&self) -> (r: i64)
        ensures
            r == self.upper,
    {
        self.upper
    }

    /// The lower scene edge.
    pub fn edge_lower(&self) -> (r: i64)
        ensures
            r == self.lower,
    {
        self.lower
    }

    /// The left scene edge.
    pub fn edge_left(&self) -> (r: i64)
        ensures
            r == self.left,
    {
        self.left
    }

    /// The right scene edge.
    pub fn edge_right(&self) -> (r: i64)
        ensures
            r == self.right,
    {
        self.right
    }
}

} // verus!
