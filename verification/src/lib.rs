//! Decision kernel of an offline path tracer.
//!
//! Numbers are held as [`scalar::Scalar`], the order-preserving integer form of an
//! IEEE 754 binary64 value. The crate compares, selects and arranges such numbers;
//! it never rounds, so every contract here is exact. Whoever uses it does the
//! arithmetic and hands the numbers in: the slabs of a box for a ray, the roots
//! of a sphere's quadratic, a sampled direction.
//!
//! - [`scalar`], [`vec3`], [`ray`]: numbers, triples of them, rays.
//! - [`aabb`]: boxes, their union, the slab test.
//! - [`hit`]: hit records, primitives by handle, the linear scan of a list.
//! - [`bvh`]: the bounding-volume hierarchy, its build and its query.
//! - [`nearest`]: why the hierarchy and the linear scan find the same hit.
//! - [`sphere`], [`aarect`], [`constant_medium`]: what each primitive decides.
//! - [`material`], [`texture`], [`perlin`]: scattering, colours, noise lattices.
//! - [`integrator`]: the recursive estimator of the light along a ray.
//! - [`render`]: the rows of the image among the workers.
//! - [`color`]: channels on their way to the image.
//! - [`rt_weekend`]: the random source.

pub mod scalar;
pub mod vec3;
pub mod aabb;
pub mod ray;
pub mod rt_weekend;
pub mod perlin;
pub mod hit;
pub mod bvh;
pub mod nearest;
pub mod color;
pub mod texture;
pub mod material;
pub mod sphere;
pub mod aarect;
pub mod constant_medium;
pub mod integrator;
pub mod render;
