//! Spheres.

use crate::hittable::{HitRecord, Hittable};
use crate::material::Surface;
use crate::ray::Ray;
use crate::scalar::Scalar;
use crate::vec3::Vec3;
use crate::vec3_laws::lemma_dot_negated;
use core::ops::Neg;
use vstd::prelude::*;

verus! {

/// A sphere with a material. A radius of zero describes no surface.
#[derive(Clone, Copy, Debug, PartialEq, Eq, Structural)]
pub struct Sphere {
    pub center: Vec3,
    pub radius: Scalar,
    pub material: Surface,
}

impl Sphere {
    /// The parameter at which `ray` meets the sphere: the smaller root of
    /// `a t^2 + 2 half_b t + c = 0` if it lies in `[t_min, t_max]`, otherwise
    /// the larger root if that one does. Here `oc = origin - center`,
    /// `a = |direction|^2`, `half_b = oc . direction` and
    /// `c = |oc|^2 - radius^2`. There is none where the discriminant
    /// `half_b^2 - a c` is negative, or where `a` is zero.
    pub open spec fn root_spec(&self, ray: Ray, t_min: Scalar, t_max: Scalar) -> Option<Scalar> {
        let oc = ray.origin.minus(self.center);
        let a = ray.direction.squared_length_spec();
        let half_b = oc.dot_spec(ray.direction);
        let c = oc.squared_length_spec().minus(self.radius.times(self.radius));
        let discriminant = Scalar::mul_sub_spec(half_b, half_b, a, c);
        if a@ == 0 || discriminant@ < 0 {
            None
        } else {
            let sqrtd = discriminant.sqrt_spec();
            let near = half_b.negated().minus(sqrtd).over(a);
            let far = half_b.negated().plus(sqrtd).over(a);
            if t_min@ <= near@ <= t_max@ {
                Some(near)
            } else if t_min@ <= far@ <= t_max@ {
                Some(far)
            } else {
                None
            }
        }
    }

    /// The record of the intersection at parameter `t` of `ray`: the point,
    /// the outward normal `(p - center) / radius` turned against the ray, and
    /// whether the ray arrives from outside.
    pub open spec fn record_spec(&self, ray: Ray, t: Scalar) -> HitRecord
        recommends
            self.radius@ != 0,
    {
        let p = ray.at_spec(t);
        let outward = p.minus(self.center).divided(self.radius);
        let front_face = ray.direction.dot_spec(outward)@ < 0;
        HitRecord {
            p,
            normal: if front_face {
                outward
            } else {
                outward.negated()
            },
            t,
            front_face,
            material: self.material,
        }
    }
}

impl Hittable for Sphere {
    open spec fn hit_spec(&self, ray: Ray, t_min: Scalar, t_max: Scalar) -> Option<HitRecord> {
        if self.radius@ == 0 {
            None
        } else {
            match self.root_spec(ray, t_min, t_max) {
                Some(t) => Some(self.record_spec(ray, t)),
                None => None,
            }
        }
    }

    fn hit(&self, ray: Ray, t_min: Scalar, t_max: Scalar) -> (r: Option<HitRecord>)
        ensures
            r matches Some(rec) ==> {
                &&& rec.p == ray.at_spec(rec.t)
                &&& rec.material == self.material
                &&& ray.direction.dot_spec(rec.normal)@ <= 0
            },
    {
        if self.radius.raw == 0 {
            return None;
        }
        let oc = ray.origin - self.center;
        let a = ray.direction.squared_length();
        let half_b = oc.dot(ray.direction);
        let c = oc.squared_length() - self.radius * self.radius;

        let discriminant = Scalar::mul_sub(half_b, half_b, a, c);
        if a.raw == 0 || discriminant.raw < 0 {
            return None;
        }
        let sqrtd = discriminant.sqrt();

        // Find the nearest root that lies in the acceptable range.
        let mut root = (half_b.neg() - sqrtd) / a;
        if root.raw < t_min.raw || t_max.raw < root.raw {
            root = (half_b.neg() + sqrtd) / a;
            if root.raw < t_min.raw || t_max.raw < root.raw {
                return None;
            }
        }

        let p = ray.at(root);
        let outward = (p - self.center) / self.radius;
        let front_face = ray.direction.dot(outward).raw < 0;
        proof {
            lemma_dot_negated(ray.direction, outward);
        }
        Some(
            HitRecord {
                p,
                normal: if front_face {
                    outward
                } else {
                    outward.neg()
                },
                t: root,
                front_face,
                material: self.material,
            },
        )
    }
}

} // verus!
