//! Rational 2D and 3D vectors.
//!
//! The terrain's world frame is Y-up: X follows the heightfield's width,
//! Z its height, and Y carries elevation.

use crate::rat::Rat;
use vstd::prelude::*;

verus! {

/// A point or vector in the 3D world frame, with exact rational components.
#[derive(Clone, Copy, Debug, PartialEq, Eq, Structural)]
pub struct Vec3 {
    pub x: Rat,
    pub y: Rat,
    pub z: Rat,
}

/// A point or vector in a 2D plane, with exact rational components.
#[derive(Clone, Copy, Debug, PartialEq, Eq, Structural)]
pub struct Vec2 {
    pub x: Rat,
    pub y: Rat,
}

impl Vec3 {
    /// All components well formed.
    pub open spec fn wf(self) -> bool {
        self.x.wf() && self.y.wf() && self.z.wf()
    }

    /// All components bounded by `b` (see [`Rat::bounded`]).
    pub open spec fn bounded(self, b: int) -> bool {
        self.x.bounded(b) && self.y.bounded(b) && self.z.bounded(b)
    }

    /// Builds a vector from its components.
    pub fn new(x: Rat, y: Rat, z: Rat) -> (r: Vec3)
        ensures
            r == (Vec3 { x, y, z }),
    {
        Vec3 { x, y, z }
    }
}

impl Vec2 {
    /// All components well formed.
    pub open spec fn wf(self) -> bool {
        self.x.wf() && self.y.wf()
    }

    /// Builds a vector from its components.
    pub fn new(x: Rat, y: Rat) -> (r: Vec2)
        ensures
            r == (Vec2 { x, y }),
    {
        Vec2 { x, y }
    }
}

} // verus!
