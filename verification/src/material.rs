//! Materials: how a surface scatters or absorbs an incoming ray.

use crate::hittable::HitRecord;
use crate::ray::Ray;
use crate::scalar::Scalar;
use crate::vec3::{
    normalized, normalized_spec, random_in_unit_sphere, reflect, reflect_spec, Vec3,
};
use vstd::prelude::*;

verus! {

/// A diffuse surface with reflectance `albedo`.
#[derive(Clone, Copy, Debug, PartialEq, Eq, Structural)]
pub struct Lambertian {
    pub albedo: Vec3,
}

/// A specular surface with reflectance `albedo` whose reflections are
/// blurred by the radius `fuzz`.
#[derive(Clone, Copy, Debug, PartialEq, Eq, Structural)]
pub struct Metal {
    pub albedo: Vec3,
    pub fuzz: Scalar,
}

/// The material of a surface, as stored with geometry and hit records.
#[derive(Clone, Copy, Debug, PartialEq, Eq, Structural)]
pub enum Surface {
    Lambertian(Lambertian),
    Metal(Metal),
}

/// An outgoing ray together with the colour by which radiance arriving along
/// it is attenuated.
#[derive(Clone, Copy, Debug, PartialEq, Eq, Structural)]
pub struct Scatter {
    pub ray: Ray,
    pub color: Vec3,
}

/// A surface's way of scattering light.
///
/// Scattering is random. Each decision consumes one random point of the unit
/// sphere, the `sample`; given the sample the outcome is fixed.
pub trait Material {
    /// What becomes of `ray_in`, which hit the surface at `rec`, for the given
    /// `sample`: the scattered ray and its attenuation, or nothing where the
    /// ray is absorbed.
    spec fn scatter_spec(&self, ray_in: Ray, rec: HitRecord, sample: Vec3) -> Option<Scatter>;

    /// Scatters `ray_in` using `sample` as the random point.
    fn scatter_with(&self, ray_in: Ray, rec: HitRecord, sample: Vec3) -> (r: Option<Scatter>)
        ensures
            r == self.scatter_spec(ray_in, rec, sample),
    ;

    /// Scatters `ray_in` using a fresh random point of the unit sphere.
    fn scatter(&self, ray_in: Ray, rec: HitRecord) -> (r: Option<Scatter>)
        ensures
            exists|sample: Vec3|
                sample.in_unit_sphere_spec() && r == #[trigger] self.scatter_spec(
                    ray_in,
                    rec,
                    sample,
                ),
    ;
}

impl Lambertian {
    /// The direction of diffuse scattering at `rec`: the normal plus the
    /// normalised `sample`, or the normal itself where that sum is near zero.
    pub open spec fn direction_spec(rec: HitRecord, sample: Vec3) -> Vec3 {
        let direction = rec.normal.plus(normalized_spec(sample));
        if direction.near_zero_spec() {
            rec.normal
        } else {
            direction
        }
    }

    /// What a diffuse surface scatters: a ray from the hit point along
    /// `direction_spec`, attenuated by the albedo.
    pub open spec fn scattered(&self, rec: HitRecord, sample: Vec3) -> Scatter {
        Scatter {
            ray: Ray { origin: rec.p, direction: Lambertian::direction_spec(rec, sample) },
            color: self.albedo,
        }
    }
}

impl Material for Lambertian {
    /// A diffuse surface always scatters.
    open spec fn scatter_spec(&self, ray_in: Ray, rec: HitRecord, sample: Vec3) -> Option<Scatter> {
        Some(self.scattered(rec, sample))
    }

    fn scatter_with(&self, _ray_in: Ray, rec: HitRecord, sample: Vec3) -> (r: Option<Scatter>)
        ensures
            r == Some(self.scattered(rec, sample)),
    {
        let mut scatter_direction = rec.normal + normalized(sample);

        if scatter_direction.near_zero() {
            scatter_direction = rec.normal;
        }
        Some(Scatter { ray: Ray::new(rec.p, scatter_direction), color: self.albedo })
    }

    fn scatter(&self, ray_in: Ray, rec: HitRecord) -> (r: Option<Scatter>)
        ensures
            r matches Some(s) && s.ray.origin == rec.p && s.color == self.albedo,
    {
        self.scatter_with(ray_in, rec, random_in_unit_sphere())
    }
}

impl Metal {
    /// The direction of a blurred reflection: the normalised direction of
    /// `ray_in` mirrored at the surface, plus `fuzz` times the `sample`.
    pub open spec fn direction_spec(&self, ray_in: Ray, rec: HitRecord, sample: Vec3) -> Vec3 {
        reflect_spec(normalized_spec(ray_in.direction), rec.normal).plus(sample.scaled(self.fuzz))
    }

    /// What a metal scatters: a ray from the hit point along `direction_spec`,
    /// attenuated by the albedo, where that direction leaves the surface, that
    /// is where its dot product with the normal is positive. Otherwise the ray
    /// is absorbed.
    pub open spec fn reflected(&self, ray_in: Ray, rec: HitRecord, sample: Vec3) -> Option<
        Scatter,
    > {
        let direction = self.direction_spec(ray_in, rec, sample);
        if direction.dot_spec(rec.normal)@ > 0 {
            Some(Scatter { ray: Ray { origin: rec.p, direction }, color: self.albedo })
        } else {
            None
        }
    }
}

impl Material for Metal {
    /// A metal reflects or absorbs.
    open spec fn scatter_spec(&self, ray_in: Ray, rec: HitRecord, sample: Vec3) -> Option<Scatter> {
        self.reflected(ray_in, rec, sample)
    }

    fn scatter_with(&self, ray_in: Ray, rec: HitRecord, sample: Vec3) -> (r: Option<Scatter>)
        ensures
            r == self.reflected(ray_in, rec, sample),
            r is None <==> self.direction_spec(ray_in, rec, sample).dot_spec(rec.normal)@ <= 0,
    {
        let reflected = reflect(normalized(ray_in.direction), rec.normal);
        let scattered = Ray::new(rec.p, reflected + sample * self.fuzz);

        if scattered.direction.dot(rec.normal).raw > 0 {
            Some(Scatter { ray: scattered, color: self.albedo })
        } else {
            None
        }
    }

    fn scatter(&self, ray_in: Ray, rec: HitRecord) -> (r: Option<Scatter>)
        ensures
            r matches Some(s) ==> {
                &&& s.ray.direction.dot_spec(rec.normal)@ > 0
                &&& s.ray.origin == rec.p
                &&& s.color == self.albedo
            },
    {
        self.scatter_with(ray_in, rec, random_in_unit_sphere())
    }
}

impl Surface {
    /// What the material inside does with `ray_in` for the given `sample`.
    pub open spec fn scatter_spec(&self, ray_in: Ray, rec: HitRecord, sample: Vec3) -> Option<
        Scatter,
    > {
        match self {
            Surface::Lambertian(m) => Some(m.scattered(rec, sample)),
            Surface::Metal(m) => m.reflected(ray_in, rec, sample),
        }
    }

    /// Scatters `ray_in` using `sample` as the random point.
    pub fn scatter_with(&self, ray_in: Ray, rec: HitRecord, sample: Vec3) -> (r: Option<Scatter>)
        ensures
            r == self.scatter_spec(ray_in, rec, sample),
    {
        match self {
            Surface::Lambertian(m) => m.scatter_with(ray_in, rec, sample),
            Surface::Metal(m) => m.scatter_with(ray_in, rec, sample),
        }
    }

    /// Scatters `ray_in` using a fresh random point of the unit sphere.
    pub fn scatter(&self, ray_in: Ray, rec: HitRecord) -> (r: Option<Scatter>)
        ensures
            exists|sample: Vec3|
                sample.in_unit_sphere_spec() && r == #[trigger] self.scatter_spec(
                    ray_in,
                    rec,
                    sample,
                ),
    {
        self.scatter_with(ray_in, rec, random_in_unit_sphere())
    }
}

} // verus!
