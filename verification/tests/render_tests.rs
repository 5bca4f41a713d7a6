use raytracer::camera::Camera;
use raytracer::hittable::Hittable;
use raytracer::material::{Lambertian, Metal, Surface};
use raytracer::ray::Ray;
use raytracer::render::{
    background, channel, clamp, coordinate, mean, pixel_color, ray_color, ray_color_with,
    sample_color, sample_color_with, scanline, write_color,
};
use raytracer::sampling::{fraction, lerp, random_double, random_fraction};
use raytracer::scalar::Scalar;
use raytracer::sphere::Sphere;
use raytracer::vec3::Vec3;

const ONE: i64 = 4294967296;

fn fx(x: f64) -> Scalar {
    Scalar { raw: (x * 4294967296.0).round() as i64 }
}

fn vec(x: f64, y: f64, z: f64) -> Vec3 {
    Vec3::new(fx(x), fx(y), fx(z))
}

fn raws(x: i64, y: i64, z: i64) -> Vec3 {
    Vec3::new(Scalar { raw: x }, Scalar { raw: y }, Scalar { raw: z })
}

fn world(spheres: Vec<Sphere>) -> Vec<Box<dyn Hittable>> {
    let mut w: Vec<Box<dyn Hittable>> = Vec::new();
    for s in spheres {
        w.push(Box::new(s));
    }
    w
}

fn red_sphere() -> Sphere {
    Sphere {
        center: vec(0.0, 0.0, -1.0),
        radius: fx(0.5),
        material: Surface::Lambertian(Lambertian { albedo: vec(0.7, 0.3, 0.3) }),
    }
}

fn rough_metal_sphere() -> Sphere {
    Sphere {
        center: vec(0.0, 0.0, -1.0),
        radius: fx(0.5),
        material: Surface::Metal(Metal { albedo: vec(0.8, 0.6, 0.2), fuzz: fx(1.0) }),
    }
}

fn ground() -> Sphere {
    Sphere {
        center: vec(0.0, -100.5, -1.0),
        radius: fx(100.0),
        material: Surface::Lambertian(Lambertian { albedo: vec(0.8, 0.8, 0.0) }),
    }
}

fn down_z() -> Ray {
    Ray::new(vec(0.0, 0.0, 0.0), vec(0.0, 0.0, -1.0))
}

fn wide_camera() -> Camera {
    Camera::new(fx(16.0) / fx(9.0), fx(2.0), fx(1.0))
}

#[test]
fn clamp_confines_to_the_interval() {
    assert_eq!(clamp(fx(0.5), fx(0.0), fx(0.999)), fx(0.5));
    assert_eq!(clamp(fx(-0.5), fx(0.0), fx(0.999)), fx(0.0));
    assert_eq!(clamp(fx(1.5), fx(0.0), fx(0.999)), fx(0.999));
    assert_eq!(clamp(fx(0.0), fx(0.0), fx(0.999)), fx(0.0));
    assert_eq!(clamp(fx(0.999), fx(0.0), fx(0.999)), fx(0.999));
    // The lower bound is tested first.
    assert_eq!(clamp(fx(0.0), fx(2.0), fx(1.0)), fx(2.0));
}

#[test]
fn channel_applies_gamma_two_and_scales_to_a_byte() {
    assert_eq!(channel(fx(0.0)), 0);
    assert_eq!(channel(fx(0.25)), 128);
    assert_eq!(channel(fx(0.5)), 181);
    assert_eq!(channel(fx(0.64)), 204);
    assert_eq!(channel(fx(0.998)), 255);
    assert_eq!(channel(fx(1.0)), 255);
    assert_eq!(channel(fx(2.0)), 255);
    assert_eq!(channel(Scalar { raw: i64::MAX }), 255);
    assert_eq!(channel(Scalar { raw: 1 }), 0);
}

#[test]
fn channel_of_a_negative_intensity_is_zero() {
    assert_eq!(channel(fx(-1.0)), 0);
    assert_eq!(channel(Scalar { raw: -1 }), 0);
    assert_eq!(channel(Scalar { raw: i64::MIN }), 0);
}

#[test]
fn write_color_encodes_each_channel() {
    assert_eq!(write_color(vec(0.25, 0.5, 1.0)), (128, 181, 255));
    assert_eq!(write_color(vec(0.0, -3.0, 0.64)), (0, 0, 204));
    assert_eq!(write_color(raws(2748559608, 3367122683, 4294967296)), (204, 226, 255));
}

#[test]
fn background_blends_white_and_blue_by_height() {
    let up = Ray::new(vec(0.0, 0.0, 0.0), vec(0.0, 1.0, 0.0));
    assert_eq!(background(up), raws(ONE / 2, 3006477107, ONE));
    assert_eq!(background(Ray::new(vec(0.0, 0.0, 0.0), vec(0.0, -3.0, 0.0))), vec(1.0, 1.0, 1.0));
    assert_eq!(background(down_z()), raws(3221225472, 3650722201, ONE));
    assert_eq!(
        background(Ray::new(vec(5.0, 5.0, 5.0), vec(4.0, 0.0, 1.0))),
        raws(3221225472, 3650722201, ONE)
    );
}

#[test]
fn background_of_a_ray_without_direction_is_the_horizon() {
    assert_eq!(
        background(Ray::new(vec(0.0, 0.0, 0.0), Vec3::zero())),
        raws(3221225472, 3650722201, ONE)
    );
}

#[test]
fn ray_color_is_black_without_depth() {
    let scenes =
        [world(vec![]), world(vec![red_sphere()]), world(vec![ground(), rough_metal_sphere()])];
    let rays = [down_z(), Ray::new(vec(0.0, 0.0, 0.0), vec(0.0, 1.0, 0.0))];
    for w in scenes.iter() {
        for r in rays {
            assert_eq!(ray_color(r, w, 0), Vec3::zero());
            assert_eq!(ray_color(r, w, -1), Vec3::zero());
            assert_eq!(ray_color(r, w, i32::MIN), Vec3::zero());
            assert_eq!(ray_color_with(r, w, 0, &vec![], 0), Vec3::zero());
            assert_eq!(ray_color_with(r, w, -5, &vec![], 7), Vec3::zero());
        }
    }
}

#[test]
fn ray_color_of_a_miss_is_the_background() {
    let w = world(vec![red_sphere()]);
    let up = Ray::new(vec(0.0, 0.0, 0.0), vec(0.0, 1.0, 0.0));
    assert_eq!(ray_color(up, &w, 50), background(up));
    assert_eq!(ray_color(up, &w, 1), background(up));
    assert_eq!(ray_color(down_z(), &world(vec![]), 50), background(down_z()));
    assert_eq!(ray_color_with(up, &w, 1, &vec![Vec3::zero()], 0), background(up));
}

#[test]
fn ray_color_attenuates_per_bounce() {
    let w = world(vec![red_sphere()]);
    let samples = vec![vec(0.3, -0.2, 0.1), Vec3::zero(), Vec3::zero()];
    // The one bounce allowed is used up on the sphere.
    assert_eq!(ray_color_with(down_z(), &w, 1, &samples, 0), Vec3::zero());
    // With a second one the scattered ray reaches the sky.
    assert_eq!(
        ray_color_with(down_z(), &w, 2, &samples, 0),
        raws(2507215096, 1160108528, 1288490189)
    );
    assert_eq!(
        ray_color_with(down_z(), &w, 3, &samples, 0),
        raws(2507215096, 1160108528, 1288490189)
    );
}

#[test]
fn ray_color_with_starts_at_the_given_sample() {
    let w = world(vec![red_sphere()]);
    let samples = vec![vec(0.9, 0.0, 0.0), vec(0.0, 0.9, 0.0), vec(0.3, -0.2, 0.1), Vec3::zero()];
    assert_eq!(
        ray_color_with(down_z(), &w, 2, &samples, 2),
        raws(2507215096, 1160108528, 1288490189)
    );
}

#[test]
fn ray_color_is_black_where_the_ray_is_absorbed() {
    let w = world(vec![rough_metal_sphere()]);
    let grazing = Ray::new(vec(0.45, 0.0, 0.0), vec(0.0, 0.0, -1.0));
    let mut samples = vec![vec(-0.81, 0.0, -0.39)];
    samples.resize(5, Vec3::zero());
    assert_eq!(ray_color_with(grazing, &w, 5, &samples, 0), Vec3::zero());
    let plain = vec![Vec3::zero(); 5];
    assert_eq!(
        ray_color_with(grazing, &w, 5, &plain, 0),
        raws(2576980377, 2190433320, 858993459)
    );
}

#[test]
fn ray_color_ignores_hits_nearer_than_a_thousandth() {
    // The ray starts on the sphere's surface, heading outward.
    let w = world(vec![red_sphere()]);
    let leaving = Ray::new(vec(0.0, 0.0, -0.5), vec(0.0, 0.0, 1.0));
    assert_eq!(ray_color(leaving, &w, 10), background(leaving));
}

#[test]
fn random_ray_color_stays_within_the_albedo() {
    let w = world(vec![ground(), red_sphere()]);
    for _ in 0..50 {
        let c = ray_color(down_z(), &w, 50);
        assert!(0 <= c.x.raw && c.x.raw <= fx(0.7).raw);
        assert!(0 <= c.y.raw && c.y.raw <= fx(0.3).raw);
        assert!(0 <= c.z.raw && c.z.raw <= fx(0.3).raw);
    }
}

#[test]
fn fraction_keeps_the_top_24_bits() {
    assert_eq!(fraction(0).raw, 0);
    assert_eq!(fraction(0xff).raw, 0);
    assert_eq!(fraction(0x100).raw, 256);
    assert_eq!(fraction(0x8000_0000), fx(0.5));
    assert_eq!(fraction(0x1234_5678).raw, 305419776);
    assert_eq!(fraction(0xffff_ffff).raw, ONE - 256);
}

#[test]
fn lerp_moves_from_min_to_max() {
    assert_eq!(lerp(fx(2.0), fx(5.0), fx(0.0)), fx(2.0));
    assert_eq!(lerp(fx(2.0), fx(5.0), fx(0.25)), fx(2.75));
    assert_eq!(lerp(fx(2.0), fx(5.0), fx(1.0)), fx(5.0));
    assert_eq!(lerp(fx(1.0), fx(-1.0), fx(0.75)), fx(-0.5));
}

#[test]
fn random_fraction_lies_in_the_unit_interval() {
    let mut seen_low = false;
    let mut seen_high = false;
    for _ in 0..500 {
        let f = random_fraction();
        assert!(0 <= f.raw && f.raw < ONE);
        assert_eq!(f.raw % 256, 0);
        seen_low |= f.raw < ONE / 2;
        seen_high |= f.raw >= ONE / 2;
    }
    assert!(seen_low && seen_high);
}

#[test]
fn random_double_lies_between_its_bounds() {
    for _ in 0..500 {
        let r = random_double(fx(-3.0), fx(7.0));
        assert!(fx(-3.0) <= r && r < fx(7.0));
    }
    assert_eq!(random_double(fx(4.0), fx(4.0)), fx(4.0));
}

#[test]
fn coordinate_divides_by_the_extent_less_one() {
    assert_eq!(coordinate(0, fx(0.0), 2), fx(0.0));
    assert_eq!(coordinate(1, fx(0.0), 2), fx(1.0));
    assert_eq!(coordinate(3, fx(0.5), 5), fx(0.875));
    assert_eq!(coordinate(1, fraction(0xffff_ffff), 2).raw, 2 * ONE - 256);
    assert_eq!(coordinate(200, fx(0.5), 400).raw, 2158247977);
}

#[test]
fn top_left_pixel_of_a_two_row_image_shows_the_sky() {
    // From the top scanline no ray meets the sphere in front of the camera.
    let w = world(vec![red_sphere()]);
    let samples = vec![Vec3::zero(); 50];
    let c = sample_color_with(&wide_camera(), &w, (0, 1), (400, 2), 50, (0, 0), &samples);
    let corner = Ray::new(Vec3::zero(), raws(-7635497415, ONE, -ONE));
    assert_eq!(wide_camera().get_ray(fx(0.0), fx(1.0)), corner);
    assert_eq!(w.hit(corner, Scalar { raw: 4294968 }, Scalar { raw: i64::MAX }), None);
    assert_eq!(c, background(corner));
    assert_eq!(c, raws(2748559608, 3367122683, ONE));
    assert_eq!(write_color(c), (204, 226, 255));
    for _ in 0..20 {
        let p = pixel_color(&wide_camera(), &w, (0, 1), (400, 2), 10, 50);
        let (r, g, b) = write_color(p);
        // The jitter moves the ray upward by up to the height of the image.
        assert!((186..=205).contains(&r));
        assert!((216..=227).contains(&g));
        assert_eq!(b, 255);
    }
}

#[test]
fn sample_color_with_traces_the_jittered_camera_ray() {
    let w = world(vec![ground(), red_sphere()]);
    let samples = vec![vec(0.1, 0.2, 0.3), vec(-0.3, 0.1, 0.2), Vec3::zero()];
    let half = 0x8000_0000;
    let c =
        sample_color_with(&wide_camera(), &w, (200, 112), (400, 225), 3, (half, half), &samples);
    assert_eq!(c, raws(2041729703, 1040412284, 1288490189));
    assert_eq!(write_color(c), (176, 125, 140));
    let c = sample_color_with(&wide_camera(), &w, (200, 10), (400, 225), 3, (0, 0), &samples);
    assert_eq!(c, raws(1825446357, 2469657348, 0));
    assert_eq!(write_color(c), (166, 194, 0));
}

#[test]
fn sample_color_of_a_sky_pixel_is_a_background_colour() {
    let w = world(vec![red_sphere()]);
    for _ in 0..50 {
        let c = sample_color(&wide_camera(), &w, (0, 224), (400, 225), 50);
        assert_eq!(c.z.raw, ONE);
        assert!(fx(0.5) <= c.x && c.x <= fx(1.0));
        assert!(fx(0.7) <= Scalar { raw: c.y.raw + 1 } && c.y <= fx(1.0));
    }
}

#[test]
fn pixel_color_is_the_mean_of_its_samples() {
    // Without depth every sample is black, whatever the jitter.
    let w = world(vec![ground(), red_sphere()]);
    assert_eq!(pixel_color(&wide_camera(), &w, (200, 112), (400, 225), 7, 0), Vec3::zero());
    // Straight up every sample sees the same part of the sky, up to jitter.
    let c = pixel_color(&wide_camera(), &world(vec![]), (200, 224), (400, 225), 16, 5);
    assert_eq!(c.z.raw, ONE);
    assert!(c.x < fx(0.6) && c.x > fx(0.55));
    // One sample is its own mean.
    let w = world(vec![]);
    let one = pixel_color(&wide_camera(), &w, (0, 0), (2, 2), 1, 5);
    assert_eq!(one.z.raw, ONE);
    assert!(fx(0.5) <= one.x && one.x <= fx(1.0));
}

#[test]
fn mean_divides_the_sum_by_the_count() {
    let colors = vec![vec(0.2, 0.4, 0.6), vec(0.4, 0.4, 0.1), vec(0.9, 0.1, 0.2)];
    assert_eq!(mean(&colors), raws(2147483647, 1288490188, 1288490189));
    assert_eq!(mean(&vec![vec(0.25, 0.5, 1.0)]), vec(0.25, 0.5, 1.0));
    assert_eq!(mean(&vec![vec(1.0, 0.0, 0.5), vec(0.0, 1.0, 0.5)]), vec(0.5, 0.5, 0.5));
}

#[test]
fn mean_adds_with_saturation() {
    let big = raws(i64::MAX, -i64::MAX, 0);
    assert_eq!(mean(&vec![big, big]), raws(i64::MAX / 2, -(i64::MAX / 2), 0));
}

#[test]
fn top_scanline_of_a_two_row_image_is_all_sky() {
    let w = world(vec![red_sphere()]);
    let row = scanline(&wide_camera(), &w, 1, (4, 2), 4, 50);
    assert_eq!(row.len(), 4);
    for c in row.iter() {
        let (r, g, b) = write_color(*c);
        // Whatever the jitter, the rays rise at between 0.3 and 0.95 of their
        // length.
        assert!((180..=212).contains(&r));
        assert!((213..=230).contains(&g));
        assert_eq!(b, 255);
    }
}

#[test]
fn scanline_runs_from_left_to_right() {
    // A huge sphere fills the right of the view. With a single bounce it is
    // black, while the left of the view shows the sky.
    let wall = Sphere {
        center: vec(100.0, 0.0, -1.0),
        radius: fx(99.5),
        material: Surface::Lambertian(Lambertian { albedo: vec(0.5, 0.5, 0.5) }),
    };
    let w = world(vec![wall]);
    let row = scanline(&wide_camera(), &w, 0, (3, 2), 3, 1);
    assert_eq!(row.len(), 3);
    assert_eq!(row[0].z.raw, ONE);
    assert!(row[0].x >= fx(0.5));
    assert_eq!(row[2], Vec3::zero());
}
