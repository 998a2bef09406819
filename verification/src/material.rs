//! What an intersection reports, and the capability a material
//! supplies to the integrator. Materials themselves (and the textures
//! they read) are built by collaborators outside this core; the
//! integrator only calls through the `Material` trait.
use vstd::prelude::*;

verus! {

use crate::geo::{Vec3, Uv, Ray};
use crate::pdf::Pdfs;
use crate::rng::RngState;

/// Everything known about one ray-object intersection. Built fresh by
/// each intersection query and never mutated; transform decorators
/// rebuild a new record instead of editing the child's.
#[derive(Clone, Copy, Debug, PartialEq, Eq, Structural)]
pub struct HitRecord {
    /// Point the ray hit, in world space.
    pub hit_point: Vec3,
    /// Unit surface normal, flipped to face the incoming ray.
    pub normal: Vec3,
    /// Index of the hit object's material in the renderer's table.
    pub material: u32,
    /// Ray parameter of the hit.
    pub ray_length: i64,
    /// Texture coordinate of the hit point.
    pub uv: Uv,
    /// Whether the ray arrived from the outside of the surface.
    pub front_face: bool,
}

/// What a material answers when asked to scatter an incoming ray.
pub struct ScatterRecord {
    /// Color filter applied to whatever the scattered ray returns.
    pub attenuation: Vec3,
    /// A fixed continuation ray for perfectly specular materials;
    /// when present, importance sampling is skipped entirely.
    pub skip_pdf_ray: Option<Ray>,
    /// The material's preferred sampling density over directions,
    /// used when no fixed ray is given.
    pub pdf: Pdfs,
}

/// The capability a material supplies: emission, scattering and its
/// own scattering density. Implementations live outside this core, so
/// nothing is assumed about what they return.
pub trait Material {
    /// Radiance the material emits at the hit point.
    fn emitted(&self, rec: &HitRecord) -> Vec3;

    /// The scatter event for an incoming ray, if the material
    /// scatters at all.
    fn scatter(&self, r_in: &Ray, rec: &HitRecord, rng: &mut RngState) -> Option<ScatterRecord>;

    /// The density with which the material itself would have sampled
    /// the scattered direction.
    fn scattering_pdf(&self, rec: &HitRecord, scattered: &Ray) -> i64;
}

} // verus!
