//! The path tracer: radiance along a ray, and the colour of a pixel.

use crate::arith::{MAX_RAW, ONE_RAW};
use crate::camera::Camera;
use crate::hittable::Hittable;
use crate::material::Scatter;
use crate::ray::Ray;
use crate::sampling::{fraction, fraction_spec, random_bits};
use crate::scalar::Scalar;
use crate::vec3::{normalized, normalized_spec, Vec3};
use vstd::prelude::*;

verus! {

/// Raw value of the smallest scalar that is not below `0.001`. A hit counts
/// from this ray parameter on, that is exactly where its parameter is at
/// least `0.001`: nearer hits are the surface a scattered ray has just left.
pub const T_MIN_RAW: i64 = 4_294_968;

/// Raw value of one half.
pub const HALF_RAW: i64 = 0x8000_0000;

/// Raw value of the green part of the sky colour, the scalar nearest to
/// `0.7`.
pub const SKY_GREEN_RAW: i64 = 3_006_477_107;

/// The colour white.
pub open spec fn white() -> Vec3 {
    let one = Scalar::of(ONE_RAW as int);
    Vec3 { x: one, y: one, z: one }
}

/// The colour of the sky at the zenith, `(0.5, 0.7, 1.0)`.
pub open spec fn sky_blue() -> Vec3 {
    Vec3 {
        x: Scalar::of(HALF_RAW as int),
        y: Scalar::of(SKY_GREEN_RAW as int),
        z: Scalar::of(ONE_RAW as int),
    }
}

/// The colour of the background seen along `ray`: with `t` half of one plus
/// the height of the normalised direction, the blend
/// `(1 - t) * white + t * sky_blue`.
pub open spec fn background_spec(ray: Ray) -> Vec3 {
    let unit_direction = normalized_spec(ray.direction);
    let one = Scalar::of(ONE_RAW as int);
    let t = Scalar::of(HALF_RAW as int).times(unit_direction.y.plus(one));
    white().scaled(one.minus(t)).plus(sky_blue().scaled(t))
}

/// The radiance that arrives along `ray` after at most `depth` bounces in
/// `world`, where bounce `i` uses `samples[i]` as its random point.
///
/// With no bounce left it is black. A ray that hits nothing with a parameter
/// of at least `0.001` sees the background. A ray that hits a surface which
/// absorbs it is black. Otherwise it is the radiance along the scattered ray,
/// with one bounce less, multiplied by the attenuation.
pub open spec fn radiance<H: Hittable + ?Sized>(
    ray: Ray,
    world: &H,
    depth: int,
    samples: Seq<Vec3>,
) -> Vec3
    decreases depth,
{
    if depth <= 0 {
        Vec3::zero_spec()
    } else {
        match world.hit_spec(ray, Scalar::of(T_MIN_RAW as int), Scalar::of(MAX_RAW as int)) {
            Some(rec) => match rec.material.scatter_spec(ray, rec, samples[0]) {
                Some(scatter) => scatter.color.times(
                    radiance(scatter.ray, world, depth - 1, samples.drop_first()),
                ),
                None => Vec3::zero_spec(),
            },
            None => background_spec(ray),
        }
    }
}

/// The colour of the background seen along `ray`.
pub fn background(ray: Ray) -> (c: Vec3)
    ensures
        c == background_spec(ray),
{
    let unit_direction = normalized(ray.direction);
    let one = Scalar::one();
    let t = Scalar { raw: HALF_RAW } * (unit_direction.y + one);
    Vec3::new(one, one, one) * (one - t) + Vec3::new(
        Scalar { raw: HALF_RAW },
        Scalar { raw: SKY_GREEN_RAW },
        one,
    ) * t
}

/// The radiance along `ray`, with the random points of the bounces taken
/// from `samples`, starting at index `next`.
pub fn ray_color_with<H: Hittable + ?Sized>(
    ray: Ray,
    world: &H,
    depth: i32,
    samples: &Vec<Vec3>,
    next: usize,
) -> (c: Vec3)
    requires
        depth <= 0 || next + depth <= samples.len(),
    ensures
        c == radiance(ray, world, depth as int, samples@.skip(next as int)),
    decreases depth,
{
    if depth <= 0 {
        return Vec3::zero();
    }
    match world.hit(ray, Scalar { raw: T_MIN_RAW }, Scalar::max_value()) {
        Some(rec) => match rec.material.scatter_with(ray, rec, samples[next]) {
            Some(scatter) => {
                proof {
                    assert(samples@.skip(next as int).drop_first() =~= samples@.skip(
                        next as int + 1,
                    ));
                }
                scatter.color * ray_color_with(scatter.ray, world, depth - 1, samples, next + 1)
            },
            None => Vec3::zero(),
        },
        None => background(ray),
    }
}

/// `samples` holds one point inside the unit sphere for each of `depth`
/// bounces.
pub open spec fn samples_for(samples: Seq<Vec3>, depth: int) -> bool {
    &&& samples.len() == (if depth > 0 {
        depth
    } else {
        0
    })
    &&& forall|i: int| 0 <= i < samples.len() ==> (#[trigger] samples[i]).in_unit_sphere_spec()
}

/// The radiance along `ray` after at most `depth` bounces, each with a fresh
/// random point of the unit sphere. With no bounce allowed it is black.
pub fn ray_color<H: Hittable + ?Sized>(ray: Ray, world: &H, depth: i32) -> (c: Vec3)
    ensures
        depth <= 0 ==> c == Vec3::zero_spec(),
        exists|samples: Seq<Vec3>|
            samples_for(samples, depth as int) && c == #[trigger] radiance(
                ray,
                world,
                depth as int,
                samples,
            ),
    decreases depth,
{
    if depth <= 0 {
        proof {
            let samples = Seq::<Vec3>::empty();
            assert(samples_for(samples, depth as int) && Vec3::zero_spec() == radiance(
                ray,
                world,
                depth as int,
                samples,
            ));
        }
        return Vec3::zero();
    }
    match world.hit(ray, Scalar { raw: T_MIN_RAW }, Scalar::max_value()) {
        Some(rec) => match rec.material.scatter(ray, rec) {
            Some(scatter) => {
                let rest = ray_color(scatter.ray, world, depth - 1);
                proof {
                    let sample = choose|sample: Vec3|
                        sample.in_unit_sphere_spec() && Some(scatter)
                            == #[trigger] rec.material.scatter_spec(ray, rec, sample);
                    let tail = choose|samples: Seq<Vec3>|
                        samples_for(samples, depth - 1) && rest == #[trigger] radiance(
                            scatter.ray,
                            world,
                            depth - 1,
                            samples,
                        );
                    let samples = seq![sample] + tail;
                    assert(samples.drop_first() =~= tail);
                    assert(samples[0] == sample);
                    assert forall|i: int| 0 <= i < samples.len() implies (
                    #[trigger] samples[i]).in_unit_sphere_spec() by {
                        if i > 0 {
                            assert(samples[i] == tail[i - 1]);
                        }
                    }
                    assert(samples_for(samples, depth as int) && scatter.color.times(rest)
                        == radiance(ray, world, depth as int, samples));
                }
                scatter.color * rest
            },
            None => {
                proof {
                    let sample = choose|sample: Vec3|
                        sample.in_unit_sphere_spec() && None::<Scatter>
                            == #[trigger] rec.material.scatter_spec(ray, rec, sample);
                    let samples = Seq::new(depth as nat, |i: int| sample);
                    assert(samples_for(samples, depth as int) && Vec3::zero_spec() == radiance(
                        ray,
                        world,
                        depth as int,
                        samples,
                    ));
                }
                Vec3::zero()
            },
        },
        None => {
            proof {
                crate::vec3::lemma_zero_in_unit_sphere();
                let samples = Seq::new(depth as nat, |i: int| Vec3::zero_spec());
                assert(samples_for(samples, depth as int) && background_spec(ray) == radiance(
                    ray,
                    world,
                    depth as int,
                    samples,
                ));
            }
            background(ray)
        },
    }
}

/// `x` confined to `[min, max]`: `min` where `x` is below it, else `max`
/// where `x` is above it, else `x`.
pub open spec fn clamp_spec(x: Scalar, min: Scalar, max: Scalar) -> Scalar {
    if x@ < min@ {
        min
    } else if x@ > max@ {
        max
    } else {
        x
    }
}

/// `x` confined to `[min, max]`.
pub fn clamp(x: Scalar, min: Scalar, max: Scalar) -> (r: Scalar)
    ensures
        r == clamp_spec(x, min, max),
{
    if x.raw < min.raw {
        return min;
    }
    if x.raw > max.raw {
        return max;
    }
    return x;
}

/// Raw value of the largest scalar that is not above `0.999`, the largest
/// intensity that is encoded.
pub const INTENSITY_MAX_RAW: i64 = 4_290_672_328;

/// The byte that encodes the linear intensity `c`: the square root of `c`
/// (gamma 2; zero for a negative `c`), confined to `[0, 0.999]`, times 256,
/// rounded down.
pub open spec fn channel_spec(c: Scalar) -> int {
    let gamma = if c@ < 0 {
        Scalar::of(0)
    } else {
        c.sqrt_spec()
    };
    (256 * clamp_spec(gamma, Scalar::of(0), Scalar::of(INTENSITY_MAX_RAW as int))@) / (
    ONE_RAW as int)
}

/// The byte that encodes the linear intensity `c`.
pub fn channel(c: Scalar) -> (byte: u8)
    ensures
        byte == channel_spec(c),
{
    let gamma = if c.raw < 0 {
        Scalar::zero()
    } else {
        c.sqrt()
    };
    let confined = clamp(gamma, Scalar::zero(), Scalar { raw: INTENSITY_MAX_RAW });
    ((256 * confined.raw) / ONE_RAW) as u8
}

/// The red, green and blue bytes that encode the linear colour
/// `pixel_color`.
pub fn write_color(pixel_color: Vec3) -> (rgb: (u8, u8, u8))
    ensures
        rgb.0 == channel_spec(pixel_color.x),
        rgb.1 == channel_spec(pixel_color.y),
        rgb.2 == channel_spec(pixel_color.z),
{
    (channel(pixel_color.x), channel(pixel_color.y), channel(pixel_color.z))
}

/// The viewport coordinate of pixel `index` of `extent`, moved by `jitter`:
/// `(index + jitter) / (extent - 1)`.
pub open spec fn coordinate_spec(index: i32, jitter: Scalar, extent: i32) -> Scalar
    recommends
        extent != 1,
{
    Scalar::of(index * ONE_RAW).plus(jitter).over(Scalar::of((extent - 1) * ONE_RAW))
}

/// The viewport coordinate of pixel `index` of `extent`, moved by `jitter`.
pub fn coordinate(index: i32, jitter: Scalar, extent: i32) -> (c: Scalar)
    requires
        extent >= 2,
    ensures
        c == coordinate_spec(index, jitter, extent),
{
    (Scalar::from_int(index) + jitter) / Scalar::from_int(extent - 1)
}

/// The radiance of one sample of pixel `(i, j)` of an image of
/// `image_width` by `image_height` pixels: the radiance along the camera ray
/// through the pixel, moved within it by the fractions that `bu` and `bv`
/// encode.
pub open spec fn sample_radiance<H: Hittable + ?Sized>(
    camera: Camera,
    world: &H,
    pixel: (i32, i32),
    size: (i32, i32),
    max_depth: int,
    jitter: (u32, u32),
    samples: Seq<Vec3>,
) -> Vec3 {
    let u = coordinate_spec(pixel.0, fraction_spec(jitter.0), size.0);
    let v = coordinate_spec(pixel.1, fraction_spec(jitter.1), size.1);
    radiance(camera.get_ray_spec(u, v), world, max_depth, samples)
}

/// One sample of pixel `pixel` of an image of `size` pixels, with the
/// jitter and the random points of the bounces given.
pub fn sample_color_with<H: Hittable + ?Sized>(
    camera: &Camera,
    world: &H,
    pixel: (i32, i32),
    size: (i32, i32),
    max_depth: i32,
    jitter: (u32, u32),
    samples: &Vec<Vec3>,
) -> (c: Vec3)
    requires
        size.0 >= 2,
        size.1 >= 2,
        max_depth <= 0 || max_depth <= samples.len(),
    ensures
        c == sample_radiance(*camera, world, pixel, size, max_depth as int, jitter, samples@),
{
    let u = coordinate(pixel.0, fraction(jitter.0), size.0);
    let v = coordinate(pixel.1, fraction(jitter.1), size.1);
    let r = camera.get_ray(u, v);
    proof {
        assert(samples@.skip(0) =~= samples@);
    }
    ray_color_with(r, world, max_depth, samples, 0)
}

/// `c` is the radiance of some sample of the pixel: of some jitter and some
/// points inside the unit sphere.
pub open spec fn is_sample<H: Hittable + ?Sized>(
    camera: Camera,
    world: &H,
    pixel: (i32, i32),
    size: (i32, i32),
    max_depth: int,
    c: Vec3,
) -> bool {
    exists|jitter: (u32, u32), samples: Seq<Vec3>|
        samples_for(samples, max_depth) && c == #[trigger] sample_radiance(
            camera,
            world,
            pixel,
            size,
            max_depth,
            jitter,
            samples,
        )
}

/// One random sample of pixel `pixel` of an image of `size` pixels.
pub fn sample_color<H: Hittable + ?Sized>(
    camera: &Camera,
    world: &H,
    pixel: (i32, i32),
    size: (i32, i32),
    max_depth: i32,
) -> (c: Vec3)
    requires
        size.0 >= 2,
        size.1 >= 2,
    ensures
        is_sample(*camera, world, pixel, size, max_depth as int, c),
{
    let bu = random_bits();
    let bv = random_bits();
    let u = coordinate(pixel.0, fraction(bu), size.0);
    let v = coordinate(pixel.1, fraction(bv), size.1);

    let r = camera.get_ray(u, v);
    let c = ray_color(r, world, max_depth);
    proof {
        let samples = choose|samples: Seq<Vec3>|
            samples_for(samples, max_depth as int) && c == #[trigger] radiance(
                r,
                world,
                max_depth as int,
                samples,
            );
        assert(c == sample_radiance(
            *camera,
            world,
            pixel,
            size,
            max_depth as int,
            (bu, bv),
            samples,
        ));
    }
    c
}

/// The sum of `colors`, added up in order.
pub open spec fn sum_spec(colors: Seq<Vec3>) -> Vec3
    decreases colors.len(),
{
    if colors.len() == 0 {
        Vec3::zero_spec()
    } else {
        sum_spec(colors.drop_last()).plus(colors.last())
    }
}

/// The mean of `colors`: their sum divided by their number.
pub open spec fn mean_spec(colors: Seq<Vec3>) -> Vec3
    recommends
        0 < colors.len() <= i32::MAX,
{
    sum_spec(colors).divided(Scalar::of(colors.len() * ONE_RAW))
}

/// The mean of `colors`.
pub fn mean(colors: &Vec<Vec3>) -> (c: Vec3)
    requires
        0 < colors.len() <= i32::MAX,
    ensures
        c == mean_spec(colors@),
{
    let mut sum = Vec3::zero();
    let mut k: usize = 0;
    while k < colors.len()
        invariant
            k <= colors.len(),
            sum == sum_spec(colors@.take(k as int)),
        decreases colors.len() - k,
    {
        proof {
            assert(colors@.take(k as int + 1).drop_last() =~= colors@.take(k as int));
        }
        sum = sum + colors[k];
        k += 1;
    }
    proof {
        assert(colors@.take(k as int) =~= colors@);
    }
    sum / Scalar::from_int(colors.len() as i32)
}

/// `c` is a colour of pixel `pixel`: the mean of `samples_per_pixel` of its
/// samples.
pub open spec fn is_pixel<H: Hittable + ?Sized>(
    camera: Camera,
    world: &H,
    pixel: (i32, i32),
    size: (i32, i32),
    samples_per_pixel: int,
    max_depth: int,
    c: Vec3,
) -> bool {
    exists|colors: Seq<Vec3>|
        {
            &&& colors.len() == samples_per_pixel
            &&& forall|k: int|
                0 <= k < colors.len() ==> is_sample(
                    camera,
                    world,
                    pixel,
                    size,
                    max_depth,
                    #[trigger] colors[k],
                )
            &&& c == #[trigger] mean_spec(colors)
        }
}

/// The colour of pixel `pixel` of an image of `size` pixels: the mean of
/// `samples_per_pixel` random samples.
pub fn pixel_color<H: Hittable + ?Sized>(
    camera: &Camera,
    world: &H,
    pixel: (i32, i32),
    size: (i32, i32),
    samples_per_pixel: i32,
    max_depth: i32,
) -> (c: Vec3)
    requires
        size.0 >= 2,
        size.1 >= 2,
        samples_per_pixel >= 1,
    ensures
        is_pixel(*camera, world, pixel, size, samples_per_pixel as int, max_depth as int, c),
{
    let mut pixel_color = Vec3::zero();
    let ghost mut colors = Seq::<Vec3>::empty();
    let mut s: i32 = 0;
    while s < samples_per_pixel
        invariant
            0 <= s <= samples_per_pixel,
            size.0 >= 2,
            size.1 >= 2,
            colors.len() == s,
            forall|k: int|
                0 <= k < colors.len() ==> is_sample(
                    *camera,
                    world,
                    pixel,
                    size,
                    max_depth as int,
                    #[trigger] colors[k],
                ),
            pixel_color == sum_spec(colors),
        decreases samples_per_pixel - s,
    {
        let sample = sample_color(camera, world, pixel, size, max_depth);
        proof {
            assert(colors.push(sample).drop_last() =~= colors);
            colors = colors.push(sample);
        }
        pixel_color = pixel_color + sample;
        s += 1;
    }
    let c = pixel_color / Scalar::from_int(samples_per_pixel);
    proof {
        assert(c == mean_spec(colors));
    }
    c
}

/// The colours of scanline `j` of an image of `size` pixels, from left to
/// right.
pub fn scanline<H: Hittable + ?Sized>(
    camera: &Camera,
    world: &H,
    j: i32,
    size: (i32, i32),
    samples_per_pixel: i32,
    max_depth: i32,
) -> (row: Vec<Vec3>)
    requires
        size.0 >= 2,
        size.1 >= 2,
        samples_per_pixel >= 1,
    ensures
        row.len() == size.0,
        forall|i: int|
            0 <= i < row.len() ==> is_pixel(
                *camera,
                world,
                (i as i32, j),
                size,
                samples_per_pixel as int,
                max_depth as int,
                #[trigger] row[i],
            ),
{
    let mut row: Vec<Vec3> = Vec::new();
    let mut i: i32 = 0;
    while i < size.0
        invariant
            0 <= i <= size.0,
            size.0 >= 2,
            size.1 >= 2,
            samples_per_pixel >= 1,
            row.len() == i,
            forall|k: int|
                0 <= k < row.len() ==> is_pixel(
                    *camera,
                    world,
                    (k as i32, j),
                    size,
                    samples_per_pixel as int,
                    max_depth as int,
                    #[trigger] row[k],
                ),
        decreases size.0 - i,
    {
        let c = pixel_color(camera, world, (i, j), size, samples_per_pixel, max_depth);
        row.push(c);
        i += 1;
    }
    row
}

} // verus!
