//! The rendering context the integrator runs in: the scene root, its
//! light list, a shader, a background color and the material table.
//! `ray_color` finds the nearest hit and hands it to the shader, which
//! may recurse back through `ray_color` with the depth raised by one;
//! the depth cap is the only termination guarantee, so it is also the
//! termination measure.
use vstd::prelude::*;

pub mod shader;

verus! {

use crate::geo::{Vec3, Ray, vec_within, ray_within_bounds};
use crate::interval::Interval;
use crate::material::Material;
use crate::hittable::Hittables;
use crate::rng::RngState;
use crate::renderer::shader::{Shaders, COLOR_CLAMP, RADIANCE_BOUND};
use crate::{GEOM_BOUND, RAY_EPSILON};

pub struct Renderer<M: Material> {
    pub world: Hittables,
    pub lights: Hittables,
    pub shader: Shaders,
    pub background: Vec3,
    pub materials: Vec<M>,
}

impl<M: Material> Renderer<M> {
    /// A valid context: a well-formed scene, a light list that is
    /// empty or fit for sampling, a bounded background and at least
    /// one material (the first doubles as the fallback for an index
    /// that is out of range).
    pub open spec fn wf(self) -> bool {
        &&& self.world.wf()
        &&& self.lights.wf()
        &&& self.spec_has_lights() ==> self.lights.spec_sampleable()
        &&& self.lights matches Hittables::HittableListType(_)
        &&& vec_within(self.background, COLOR_CLAMP as int)
        &&& self.materials@.len() >= 1
        &&& self.spec_max_depth() >= 0
        &&& match self.shader {
            Shaders::SimpleType(s) => crate::geo::vec_within(
                s.light_dir,
                crate::UNIT as int,
            ),
            _ => true,
        }
    }

    /// Whether the scene has any light to importance-sample; with no
    /// light the mixture degenerates to the material's own density.
    pub open spec fn spec_has_lights(self) -> bool {
        match self.lights {
            Hittables::HittableListType(l) => l.objects@.len() > 0,
            _ => true,
        }
    }

    /// The path tracer's recursion cap; other shaders never recurse.
    pub open spec fn spec_max_depth(self) -> int {
        match self.shader {
            Shaders::PathTracingType(p) => p.max_depth as int,
            _ => 0,
        }
    }

    pub fn new(
        world: Hittables,
        lights: Hittables,
        shader: Shaders,
        background: Vec3,
        materials: Vec<M>,
    ) -> (r: Renderer<M>)
        requires
            world.wf(),
            lights.wf(),
            lights matches Hittables::HittableListType(l) && (l.objects@.len() == 0
                || lights.spec_sampleable()),
            vec_within(background, COLOR_CLAMP as int),
            materials@.len() >= 1,
            (shader matches Shaders::PathTracingType(p) ==> p.max_depth >= 0),
            (shader matches Shaders::SimpleType(s) ==> crate::geo::vec_within(
                s.light_dir,
                crate::UNIT as int,
            )),
        ensures
            r.wf(),
            r.world == world && r.lights == lights && r.shader == shader && r.background
                == background && r.materials == materials,
    {
        Renderer { world, lights, shader, background, materials }
    }

    pub fn has_lights(&self) -> (r: bool)
        ensures
            r == self.spec_has_lights(),
    {
        match &self.lights {
            Hittables::HittableListType(l) => l.objects.len() > 0,
            _ => true,
        }
    }

    /// The material for a hit record's index; an index past the table
    /// falls back to the first material, the explicit default.
    pub fn material_for(&self, id: u32) -> (r: &M)
        requires
            self.materials@.len() >= 1,
        ensures
            *r == (if id < self.materials@.len() {
                self.materials@[id as int]
            } else {
                self.materials@[0]
            }),
    {
        if (id as usize) < self.materials.len() {
            &self.materials[id as usize]
        } else {
            &self.materials[0]
        }
    }

    /// Radiance arriving along a ray: the nearest hit's shading, or
    /// the background when nothing is hit.
    pub fn ray_color(&self, ray: &Ray, depth: i32, rng: &mut RngState) -> (res: Vec3)
        requires
            self.wf(),
            ray_within_bounds(*ray),
        ensures
            vec_within(res, RADIANCE_BOUND as int),
            self.world.spec_hit(*ray, Interval { min: RAY_EPSILON, max: GEOM_BOUND }) is None
                ==> res == self.background,
        decreases shader::depth_fuel(depth as int, self.spec_max_depth()), 1int,
    {
        let hit = self.world.hit(ray, &Interval { min: RAY_EPSILON, max: GEOM_BOUND });
        match hit {
            None => self.background,
            Some(rec) => match &self.shader {
                Shaders::PathTracingType(p) => p.shade(self, &rec, ray, depth, rng),
                Shaders::AlbedoType(s) => s.shade(self, &rec, ray, depth, rng),
                Shaders::NormalType(s) => s.shade(self, &rec, ray, depth, rng),
                Shaders::SimpleType(s) => s.shade(self, &rec, ray, depth, rng),
            },
        }
    }
}

} // verus!
