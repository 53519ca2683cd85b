//! Rays and the record of where one struck the scene.

use vstd::prelude::*;
use crate::math::Vector3;

verus! {

/// A half-line: the points `start + t * direction` for `t > 0`. The
/// direction is of length one by convention; nothing here depends on it.
#[derive(Clone, Copy, Debug, PartialEq, Eq, Structural)]
pub struct Ray {
    pub start: Vector3,
    pub direction: Vector3,
}

/// Where a ray met an object of the scene.
#[derive(Clone, Copy, Debug, PartialEq, Eq, Structural)]
pub struct Hit {
    /// The ray's parameter at the intersection.
    pub distance: i32,
    pub position: Vector3,
    /// The surface normal at `position`, pointing outward.
    pub normal: Vector3,
    /// The index of the struck object among the scene's objects.
    pub object: usize,
}

impl Ray {
    /// The point at parameter `t`.
    pub open spec fn at_spec(self, t: i32) -> Vector3 {
        self.start.add_spec(self.direction.scale_spec(t))
    }

    /// The point at parameter `t`.
    pub fn at(&self, t: i32) -> (p: Vector3)
        ensures
            p == self.at_spec(t),
    {
        self.start.add(self.direction.scale(t))
    }
}

impl Hit {
    /// The direction in which a ray that came in along `incoming` leaves.
    pub open spec fn out_angle_spec(self, incoming: Vector3) -> Vector3 {
        incoming.reflect_spec(self.normal)
    }

    /// Mirrors `incoming` about the surface normal.
    pub fn out_angle(&self, incoming: Vector3) -> (out: Vector3)
        ensures
            out == self.out_angle_spec(incoming),
    {
        incoming.reflect(self.normal)
    }
}

} // verus!
