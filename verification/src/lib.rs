//! A recursive Monte-Carlo path tracer for scenes of spheres, over
//! fixed-point arithmetic.
//!
//! # Numbers
//!
//! Every quantity is a [`scalar::Scalar`]: a signed 64-bit number with 32
//! fractional bits. Each operation computes its exact result, rounds it
//! toward zero and saturates it to a symmetric range. So every function of
//! the renderer is total, runs the same on every machine, and has an exact
//! model over the integers in which its contract is stated. The module
//! [`vec3_laws`] proves what rounding costs: the cross product is exactly
//! anticommutative, and orthogonality, normalisation and rescaling hold up
//! to stated multiples of `2^-32`.
//!
//! # Randomness
//!
//! Random bits come from the thread-local generator of `rand`, through the
//! one function of the crate that is not verified. Every function that draws
//! random bits has a twin that takes them as arguments (`scatter_with`,
//! `ray_color_with`, `sample_color_with`), whose result is fixed by its
//! contract. The contract of the random function says that its result is
//! that of the twin for some draw.
//!
//! # Structure
//!
//! * [`arith`], [`scalar`], [`vec3`], [`ray`]: numbers, vectors and rays.
//! * [`hittable`], [`sphere`]: ray intersection with one sphere and with a
//!   collection, which reports the globally nearest hit.
//! * [`material`]: diffuse and metallic scattering.
//! * [`camera`], [`render`]: camera rays, radiance along a ray with a bound
//!   on the number of bounces, pixel colours and their encoding as bytes.
//! * [`sampling`]: random scalars.

pub mod arith;
pub mod camera;
pub mod hittable;
pub mod material;
pub mod ray;
pub mod render;
pub mod sampling;
pub mod scalar;
pub mod sphere;
pub mod vec3;
pub mod vec3_laws;
