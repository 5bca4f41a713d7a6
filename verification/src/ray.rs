//! Rays: half-lines given by an origin and a direction.

use crate::scalar::Scalar;
use crate::vec3::Vec3;
use vstd::prelude::*;

verus! {

/// A ray `origin + t * direction`; the direction need not have unit length.
#[derive(Clone, Copy, Debug, PartialEq, Eq, Structural)]
pub struct Ray {
    pub origin: Vec3,
    pub direction: Vec3,
}

impl Ray {
    /// The point of the ray at parameter `t`.
    pub open spec fn at_spec(self, t: Scalar) -> Vec3 {
        self.origin.plus(self.direction.scaled(t))
    }

    /// The ray from `origin` along `direction`.
    pub fn new(origin: Vec3, direction: Vec3) -> (r: Ray)
        ensures
            r == (Ray { origin, direction }),
    {
        Ray { origin, direction }
    }

    /// The point of the ray at parameter `t`.
    pub fn at(&self, t: Scalar) -> (p: Vec3)
        ensures
            p == self.at_spec(t),
    {
        self.origin + self.direction * t
    }
}

} // verus!
