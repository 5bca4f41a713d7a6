//! The camera: a mapping from viewport coordinates to rays.

use crate::arith::ONE_RAW;
use crate::ray::Ray;
use crate::scalar::Scalar;
use crate::vec3::Vec3;
use vstd::prelude::*;

verus! {

/// A pinhole camera with a rectangular viewport.
#[derive(Clone, Copy, Debug, PartialEq, Eq, Structural)]
pub struct Camera {
    /// The eye.
    pub origin: Vec3,
    /// The viewport's horizontal edge, left to right.
    pub horizontal: Vec3,
    /// The viewport's vertical edge, bottom to top.
    pub vertical: Vec3,
    /// The viewport's lower left corner.
    pub lower_left_corner: Vec3,
}

impl Camera {
    /// The camera at the origin that looks down the negative z axis at a
    /// viewport of the given height, `aspect_ratio` times as wide, at
    /// distance `focal_length`.
    pub open spec fn new_spec(
        aspect_ratio: Scalar,
        viewport_height: Scalar,
        focal_length: Scalar,
    ) -> Camera {
        let zero = Scalar::of(0);
        let two = Scalar::of(2 * ONE_RAW);
        let origin = Vec3 { x: zero, y: zero, z: zero };
        let horizontal = Vec3 { x: viewport_height.times(aspect_ratio), y: zero, z: zero };
        let vertical = Vec3 { x: zero, y: viewport_height, z: zero };
        Camera {
            origin,
            horizontal,
            vertical,
            lower_left_corner: origin.minus(horizontal.divided(two)).minus(
                vertical.divided(two),
            ).minus(Vec3 { x: zero, y: zero, z: focal_length }),
        }
    }

    /// The ray through the viewport point at fraction `u` of the width and
    /// fraction `v` of the height: from the eye toward
    /// `lower_left_corner + u * horizontal + v * vertical - origin`.
    pub open spec fn get_ray_spec(&self, u: Scalar, v: Scalar) -> Ray {
        Ray {
            origin: self.origin,
            direction: self.lower_left_corner.plus(self.horizontal.scaled(u)).plus(
                self.vertical.scaled(v),
            ).minus(self.origin),
        }
    }

    /// The camera at the origin that looks down the negative z axis.
    pub fn new(aspect_ratio: Scalar, viewport_height: Scalar, focal_length: Scalar) -> (c: Camera)
        ensures
            c == Camera::new_spec(aspect_ratio, viewport_height, focal_length),
    {
        let viewport_width = viewport_height * aspect_ratio;
        let two = Scalar::from_int(2);

        let origin = Vec3::new(Scalar::zero(), Scalar::zero(), Scalar::zero());
        let horizontal = Vec3::new(viewport_width, Scalar::zero(), Scalar::zero());
        let vertical = Vec3::new(Scalar::zero(), viewport_height, Scalar::zero());
        let lower_left_corner = origin - horizontal / two - vertical / two - Vec3::new(
            Scalar::zero(),
            Scalar::zero(),
            focal_length,
        );
        Camera { origin, horizontal, vertical, lower_left_corner }
    }

    /// The ray through the viewport point `(u, v)`.
    pub fn get_ray(&self, u: Scalar, v: Scalar) -> (r: Ray)
        ensures
            r == self.get_ray_spec(u, v),
    {
        Ray::new(
            self.origin,
            self.lower_left_corner + self.horizontal * u + self.vertical * v - self.origin,
        )
    }
}

} // verus!
