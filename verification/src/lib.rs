//! Core of a Monte Carlo path tracer: scene intersection (hittable
//! composite and a bounding volume hierarchy over triangles) and a
//! recursive integrator with light-importance sampling.
//!
//! All geometric and radiometric scalars are fixed-point numbers: an
//! `i64` counts units of `1 / UNIT` (so `UNIT` is 1.0). Keeping the
//! arithmetic in integers makes every computation exact and lets each
//! function carry a precise contract.
use vstd::prelude::*;

pub mod geo;
pub mod hittable;
pub mod aabb;
pub mod interval;
pub mod material;
pub mod pdf;
pub mod renderer;
pub mod rgb_color;
pub mod rng;

verus! {

/// Number of fixed-point units per 1.0.
pub const UNIT: i64 = 65536;

/// One thousandth, rounded down: the epsilon that starts every
/// nearest-hit search from a scattered ray.
pub const RAY_EPSILON: i64 = 65;

/// Magnitude bound on scene coordinates, ray components and ray
/// parameters (32768.0 in world units). Keeps every intermediate
/// product of the intersection math inside an `i128`.
pub const GEOM_BOUND: i64 = 0x8000_0000;

/// Magnitude bound on bounding-box corners: a box may stick out past
/// the geometry bound after a translation.
pub const BOX_BOUND: i64 = 0x1_0000_0000;

/// Magnitude bound on texture coordinates (32.0 in texture space).
pub const UV_BOUND: i64 = 0x20_0000;

/// Magnitude bound on a ray origin: looser than the geometry bound,
/// so that rays shifted into a decorator's local space stay legal.
pub const ORIGIN_BOUND: i64 = 0x100_0000_0000;

} // verus!
