use raytracer::hittable::{HitRecord, Hittable};
use raytracer::material::{Lambertian, Metal, Surface};
use raytracer::ray::Ray;
use raytracer::scalar::Scalar;
use raytracer::sphere::Sphere;
use raytracer::vec3::Vec3;

const T_MIN: Scalar = Scalar { raw: 4294968 };
const T_MAX: Scalar = Scalar { raw: i64::MAX };

fn fx(x: f64) -> Scalar {
    Scalar { raw: (x * 4294967296.0).round() as i64 }
}

fn vec(x: f64, y: f64, z: f64) -> Vec3 {
    Vec3::new(fx(x), fx(y), fx(z))
}

fn diffuse() -> Surface {
    Surface::Lambertian(Lambertian { albedo: vec(0.5, 0.5, 0.5) })
}

fn mirror() -> Surface {
    Surface::Metal(Metal { albedo: vec(0.8, 0.8, 0.8), fuzz: fx(0.0) })
}

fn far_sphere() -> Sphere {
    Sphere { center: vec(0.0, 0.0, -2.0), radius: fx(1.0), material: diffuse() }
}

fn near_sphere() -> Sphere {
    Sphere { center: vec(0.0, 0.0, -1.5), radius: fx(1.0), material: mirror() }
}

fn world(spheres: Vec<Sphere>) -> Vec<Box<dyn Hittable>> {
    let mut w: Vec<Box<dyn Hittable>> = Vec::new();
    for s in spheres {
        w.push(Box::new(s));
    }
    w
}

fn down_z() -> Ray {
    Ray::new(vec(0.0, 0.0, 0.0), vec(0.0, 0.0, -1.0))
}

#[test]
fn empty_scene_is_never_hit() {
    let w = world(vec![]);
    assert_eq!(w.hit(down_z(), T_MIN, T_MAX), None);
}

#[test]
fn single_member_reports_its_own_hit() {
    let w = world(vec![far_sphere()]);
    assert_eq!(w.hit(down_z(), T_MIN, T_MAX), far_sphere().hit(down_z(), T_MIN, T_MAX));
    assert_eq!(w.hit(down_z(), T_MIN, T_MAX).unwrap().t, fx(1.0));
}

#[test]
fn nearest_hit_wins_though_its_sphere_was_inserted_later() {
    // The two spheres overlap; along the ray the second one is met first.
    let w = world(vec![far_sphere(), near_sphere()]);
    let hit = w.hit(down_z(), T_MIN, T_MAX);
    assert_eq!(
        hit,
        Some(HitRecord {
            p: vec(0.0, 0.0, -0.5),
            normal: vec(0.0, 0.0, 1.0),
            t: fx(0.5),
            front_face: true,
            material: mirror(),
        })
    );
}

#[test]
fn order_of_insertion_does_not_matter() {
    let a = world(vec![far_sphere(), near_sphere()]);
    let b = world(vec![near_sphere(), far_sphere()]);
    let rays = [
        down_z(),
        Ray::new(vec(0.0, 0.0, 0.0), vec(0.1, 0.2, -1.0)),
        Ray::new(vec(0.0, 0.0, -1.2), vec(0.3, 0.0, -1.0)),
        Ray::new(vec(0.0, 0.0, 0.0), vec(0.0, 1.0, 0.0)),
        Ray::new(vec(3.0, 0.0, -2.0), vec(-1.0, 0.0, 0.0)),
    ];
    for r in rays {
        assert_eq!(a.hit(r, T_MIN, T_MAX), b.hit(r, T_MIN, T_MAX));
    }
}

#[test]
fn members_that_are_missed_do_not_hide_a_hit() {
    let aside = Sphere { center: vec(5.0, 0.0, -1.0), radius: fx(0.5), material: diffuse() };
    let w = world(vec![aside, far_sphere(), aside]);
    assert_eq!(w.hit(down_z(), T_MIN, T_MAX).unwrap().t, fx(1.0));
    let none = world(vec![aside, aside]);
    assert_eq!(none.hit(down_z(), T_MIN, T_MAX), None);
}

#[test]
fn every_member_is_asked_within_the_same_range() {
    let w = world(vec![far_sphere(), near_sphere()]);
    // Below 0.6 only the near sphere's first root lies in range ...
    assert_eq!(w.hit(down_z(), T_MIN, fx(0.6)).unwrap().t, fx(0.5));
    // ... from 0.6 on the far sphere's first root is the nearest.
    let hit = w.hit(down_z(), fx(0.6), T_MAX).unwrap();
    assert_eq!(hit.t, fx(1.0));
    assert_eq!(hit.material, diffuse());
    assert_eq!(w.hit(down_z(), fx(3.1), T_MAX), None);
}

#[test]
fn of_equally_near_hits_the_first_member_wins() {
    let first = Sphere { center: vec(0.0, 0.0, -1.5), radius: fx(1.0), material: diffuse() };
    let second = Sphere { center: vec(0.0, 0.0, -1.5), radius: fx(1.0), material: mirror() };
    let w = world(vec![first, second]);
    assert_eq!(w.hit(down_z(), T_MIN, T_MAX).unwrap().material, diffuse());
    let w = world(vec![second, first]);
    assert_eq!(w.hit(down_z(), T_MIN, T_MAX).unwrap().material, mirror());
}

#[test]
fn scenes_nest() {
    let inner = world(vec![far_sphere()]);
    let mut outer: Vec<Box<dyn Hittable>> = Vec::new();
    outer.push(Box::new(inner));
    outer.push(Box::new(near_sphere()));
    assert_eq!(outer.hit(down_z(), T_MIN, T_MAX).unwrap().t, fx(0.5));
    assert_eq!(outer.hit(down_z(), fx(0.6), T_MAX).unwrap().t, fx(1.0));
}
