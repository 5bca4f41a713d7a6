use raytracer::hittable::Hittable;
use raytracer::material::{Lambertian, Material, Metal, Surface};
use raytracer::ray::Ray;
use raytracer::render::{background, channel};
use raytracer::scalar::Scalar;
use raytracer::sphere::Sphere;
use raytracer::vec3::{reflect, unit_vector, Vec3};

// The fixed-point results, read as real numbers, agree with the same
// formulas evaluated in double precision.

fn fx(x: f64) -> Scalar {
    Scalar { raw: (x * 4294967296.0).round() as i64 }
}

fn fl(s: Scalar) -> f64 {
    s.raw as f64 / 4294967296.0
}

fn vec(v: [f64; 3]) -> Vec3 {
    Vec3::new(fx(v[0]), fx(v[1]), fx(v[2]))
}

fn arr(v: Vec3) -> [f64; 3] {
    [fl(v.x), fl(v.y), fl(v.z)]
}

fn close(a: f64, b: f64, tolerance: f64) -> bool {
    (a - b).abs() <= tolerance
}

fn close3(a: [f64; 3], b: [f64; 3], tolerance: f64) -> bool {
    close(a[0], b[0], tolerance) && close(a[1], b[1], tolerance) && close(a[2], b[2], tolerance)
}

fn dot(a: [f64; 3], b: [f64; 3]) -> f64 {
    a[0] * b[0] + a[1] * b[1] + a[2] * b[2]
}

fn sub(a: [f64; 3], b: [f64; 3]) -> [f64; 3] {
    [a[0] - b[0], a[1] - b[1], a[2] - b[2]]
}

fn add(a: [f64; 3], b: [f64; 3]) -> [f64; 3] {
    [a[0] + b[0], a[1] + b[1], a[2] + b[2]]
}

fn scale(a: [f64; 3], t: f64) -> [f64; 3] {
    [a[0] * t, a[1] * t, a[2] * t]
}

fn unit(a: [f64; 3]) -> [f64; 3] {
    scale(a, 1.0 / dot(a, a).sqrt())
}

const VECTORS: [[f64; 3]; 8] = [
    [1.0, 2.0, 3.0],
    [0.3, -0.7, 0.11],
    [-4.25, 0.001, 17.5],
    [0.0, -1.0, 0.0],
    [100.5, -0.25, 3.0],
    [0.577, 0.577, -0.577],
    [-0.01, 0.02, 0.03],
    [12.0, -35.0, 0.5],
];

#[test]
fn vector_operations_agree_with_double_precision() {
    for a in VECTORS {
        for b in VECTORS {
            let (va, vb) = (vec(a), vec(b));
            assert!(close(fl(va.dot(vb)), dot(a, b), 1e-6));
            let cross = [
                a[1] * b[2] - a[2] * b[1],
                a[2] * b[0] - a[0] * b[2],
                a[0] * b[1] - a[1] * b[0],
            ];
            assert!(close3(arr(va.cross(vb)), cross, 1e-6));
            assert!(close3(arr(va + vb), add(a, b), 1e-9));
            assert!(close3(arr(va - vb), sub(a, b), 1e-9));
            assert!(close3(arr(va * fx(b[0])), scale(a, b[0]), 1e-6));
        }
        let va = vec(a);
        assert!(close(fl(va.length()), dot(a, a).sqrt(), 1e-8));
        assert!(close(fl(va.squared_length()), dot(a, a), 1e-6));
        assert!(close3(arr(unit_vector(va)), unit(a), 1e-8));
        assert!(close(fl(unit_vector(va).length()), 1.0, 1e-8));
    }
}

#[test]
fn reflection_agrees_with_double_precision() {
    for v in VECTORS {
        for n in VECTORS {
            let n = unit(n);
            let expected = sub(v, scale(n, 2.0 * dot(v, n)));
            assert!(close3(arr(reflect(vec(v), vec(n))), expected, 1e-6));
        }
    }
}

/// The nearest root in `[t_min, t_max]` of the ray-sphere quadratic.
fn real_hit(center: [f64; 3], radius: f64, o: [f64; 3], d: [f64; 3], range: (f64, f64)) -> Option<f64> {
    let oc = sub(o, center);
    let a = dot(d, d);
    let half_b = dot(oc, d);
    let c = dot(oc, oc) - radius * radius;
    let discriminant = half_b * half_b - a * c;
    if discriminant < 0.0 {
        return None;
    }
    let near = (-half_b - discriminant.sqrt()) / a;
    let far = (-half_b + discriminant.sqrt()) / a;
    if range.0 <= near && near <= range.1 {
        Some(near)
    } else if range.0 <= far && far <= range.1 {
        Some(far)
    } else {
        None
    }
}

#[test]
fn sphere_hits_agree_with_double_precision() {
    let center = [0.25, -0.5, -2.0];
    let radius = 0.75;
    let sphere = Sphere {
        center: vec(center),
        radius: fx(radius),
        material: Surface::Lambertian(Lambertian { albedo: vec([0.5, 0.5, 0.5]) }),
    };
    let origins = [[0.0, 0.0, 0.0], [0.3, -0.4, -1.9], [1.0, 1.0, 1.0], [0.25, -0.5, -4.0]];
    let mut hits = 0;
    let mut misses = 0;
    for o in origins {
        for i in -6..=6 {
            for j in -6..=6 {
                let d = [i as f64 * 0.08, j as f64 * 0.08 - 0.2, if o[2] < -3.0 { 1.0 } else { -1.0 }];
                let expected = real_hit(center, radius, o, d, (0.001, 1.0e9));
                let got = sphere.hit(Ray::new(vec(o), vec(d)), fx(0.001), fx(1.0e9));
                match (expected, got) {
                    (Some(t), Some(rec)) => {
                        hits += 1;
                        assert!(close(fl(rec.t), t, 1e-4));
                        assert!(close3(arr(rec.p), add(o, scale(d, t)), 1e-4));
                        let outward = scale(sub(add(o, scale(d, t)), center), 1.0 / radius);
                        let front = dot(d, outward) < 0.0;
                        assert_eq!(rec.front_face, front);
                        let normal = if front { outward } else { scale(outward, -1.0) };
                        assert!(close3(arr(rec.normal), normal, 1e-4));
                    }
                    (None, None) => misses += 1,
                    // A grazing ray may be decided either way by the last bit.
                    (Some(t), None) => {
                        let p = add(o, scale(d, t));
                        assert!(dot(d, sub(p, center)).abs() < 1e-3);
                    }
                    (None, Some(rec)) => {
                        let p = arr(rec.p);
                        assert!(dot(d, sub(p, center)).abs() < 1e-3);
                    }
                }
            }
        }
    }
    assert!(hits > 100);
    assert!(misses > 100);
}

#[test]
fn background_and_encoding_agree_with_double_precision() {
    for d in VECTORS {
        let t = 0.5 * (unit(d)[1] + 1.0);
        let expected = add(scale([1.0, 1.0, 1.0], 1.0 - t), scale([0.5, 0.7, 1.0], t));
        let got = background(Ray::new(Vec3::zero(), vec(d)));
        assert!(close3(arr(got), expected, 1e-8));
    }
    for k in 0..=1000 {
        let x = k as f64 / 1000.0 + 0.0003;
        let expected = (256.0 * x.sqrt().clamp(0.0, 0.999)).floor();
        let got = channel(fx(x)) as f64;
        // The byte may differ by one where the real value lies within
        // rounding of a whole number.
        assert!(got == expected || (256.0 * x.sqrt() - (256.0 * x.sqrt()).round()).abs() < 1e-6);
    }
}

#[test]
fn scattering_agrees_with_double_precision() {
    let p = [1.0, 0.5, -2.0];
    let rec = Sphere {
        center: vec([1.0, -0.5, -2.0]),
        radius: fx(1.0),
        material: Surface::Lambertian(Lambertian { albedo: vec([0.5, 0.5, 0.5]) }),
    }
    .hit(Ray::new(vec([1.0, 3.0, -2.0]), vec([0.0, -1.0, 0.0])), fx(0.001), fx(100.0))
    .unwrap();
    assert!(close3(arr(rec.p), p, 1e-8));
    let n = [0.0, 1.0, 0.0];
    let samples = [[0.3, -0.2, 0.1], [-0.5, 0.5, 0.5], [0.1, 0.9, 0.0], [0.0, -0.6, 0.3]];
    let incoming = [0.6, -0.8, 0.1];
    let ray_in = Ray::new(vec([0.0, 2.0, -2.0]), vec(incoming));
    for s in samples {
        let lambertian = Lambertian { albedo: vec([0.7, 0.3, 0.3]) };
        let got = lambertian.scatter_with(ray_in, rec, vec(s)).unwrap();
        let sum = add(n, unit(s));
        let near_zero = sum.iter().any(|c| c.abs() < 1e-8);
        let expected = if near_zero { n } else { sum };
        assert!(close3(arr(got.ray.direction), expected, 1e-8));
        assert!(close3(arr(got.ray.origin), p, 1e-8));

        let metal = Metal { albedo: vec([0.8, 0.8, 0.8]), fuzz: fx(0.5) };
        let unit_in = unit(incoming);
        let mirrored = sub(unit_in, scale(n, 2.0 * dot(unit_in, n)));
        let direction = add(mirrored, scale(s, 0.5));
        match metal.scatter_with(ray_in, rec, vec(s)) {
            Some(got) => {
                assert!(dot(direction, n) > -1e-8);
                assert!(close3(arr(got.ray.direction), direction, 1e-8));
            }
            None => assert!(dot(direction, n) < 1e-8),
        }
    }
}
