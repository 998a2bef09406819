//! Shaders turn one ray-object intersection into a color. The path
//! tracing shader is the full integrator: emission plus attenuated
//! recursive radiance, importance-sampled by the light/material
//! mixture, with a guard that keeps every channel finite and capped.
use vstd::prelude::*;

verus! {

use crate::geo::{Vec3, Ray, tdiv, vec_within, ray_within_bounds, fixed_mul, wide_mul, div_i128,
    lemma_abs_mul_le, lemma_tdiv_bound};
use crate::material::{Material, HitRecord};
use crate::pdf::{Pdfs, CosinePdf, SpherePdf, HittablePdf, pdf_wf, mix_value, mix_generate};
use crate::renderer::Renderer;
use crate::rng::RngState;
use crate::{UNIT, ORIGIN_BOUND, GEOM_BOUND};

/// Colors, emissions and densities handed in by a material are pulled
/// into this range before any arithmetic (256.0 in units).
pub const COLOR_CLAMP: i64 = 0x100_0000;

/// Every channel a shader returns is within this bound.
pub const RADIANCE_BOUND: i64 = 0x200_0000_0000_0000;

/// The ceiling a shaded channel is capped at (3.0 in units): a small
/// bias traded for far lower estimator variance.
pub const COLOR_CEILING: i64 = 196608;

/// Remaining recursion budget; what shrinks at every bounce.
pub open spec fn depth_fuel(depth: int, max_depth: int) -> int {
    if depth >= max_depth {
        0
    } else {
        max_depth - depth
    }
}

/// One scalar pulled into a symmetric range.
pub open spec fn spec_clamp(v: int, b: int) -> int {
    if v > b {
        b
    } else if v < -b {
        -b
    } else {
        v
    }
}

fn clamp_scalar(v: i64, b: i64) -> (r: i64)
    requires
        b >= 0,
    ensures
        r == spec_clamp(v as int, b as int),
{
    if v > b {
        b
    } else if v < -b {
        -b
    } else {
        v
    }
}

/// A color pulled componentwise into the material range.
pub open spec fn spec_clamp_color(v: Vec3) -> Vec3 {
    Vec3 {
        x: spec_clamp(v.x as int, COLOR_CLAMP as int) as i64,
        y: spec_clamp(v.y as int, COLOR_CLAMP as int) as i64,
        z: spec_clamp(v.z as int, COLOR_CLAMP as int) as i64,
    }
}

pub fn clamp_color(v: &Vec3) -> (r: Vec3)
    ensures
        r == spec_clamp_color(*v),
        vec_within(r, COLOR_CLAMP as int),
{
    Vec3 {
        x: clamp_scalar(v.x, COLOR_CLAMP),
        y: clamp_scalar(v.y, COLOR_CLAMP),
        z: clamp_scalar(v.z, COLOR_CLAMP),
    }
}

/// A ray whose origin and direction are pulled into the bounds every
/// intersection routine expects; applied to rays built from material
/// answers, which nothing has verified.
pub open spec fn spec_clamp_ray(r: Ray) -> Ray {
    Ray {
        origin: Vec3 {
            x: spec_clamp(r.origin.x as int, ORIGIN_BOUND as int) as i64,
            y: spec_clamp(r.origin.y as int, ORIGIN_BOUND as int) as i64,
            z: spec_clamp(r.origin.z as int, ORIGIN_BOUND as int) as i64,
        },
        direction: Vec3 {
            x: spec_clamp(r.direction.x as int, GEOM_BOUND as int) as i64,
            y: spec_clamp(r.direction.y as int, GEOM_BOUND as int) as i64,
            z: spec_clamp(r.direction.z as int, GEOM_BOUND as int) as i64,
        },
        time: r.time,
    }
}

fn clamp_ray(r: &Ray) -> (res: Ray)
    ensures
        res == spec_clamp_ray(*r),
        ray_within_bounds(res),
{
    Ray {
        origin: Vec3 {
            x: clamp_scalar(r.origin.x, ORIGIN_BOUND),
            y: clamp_scalar(r.origin.y, ORIGIN_BOUND),
            z: clamp_scalar(r.origin.z, ORIGIN_BOUND),
        },
        direction: Vec3 {
            x: clamp_scalar(r.direction.x, GEOM_BOUND),
            y: clamp_scalar(r.direction.y, GEOM_BOUND),
            z: clamp_scalar(r.direction.z, GEOM_BOUND),
        },
        time: r.time,
    }
}

/// A sampling density as handed over by a material, made well-formed:
/// a cosine lobe with an out-of-range axis falls back to the uniform
/// sphere.
fn sanitize_pdf(p: &Pdfs) -> (r: Pdfs)
    ensures
        pdf_wf(r),
        pdf_wf(*p) ==> r == *p,
{
    match p {
        Pdfs::Cosine(c) => {
            if -UNIT <= c.w.x && c.w.x <= UNIT && -UNIT <= c.w.y && c.w.y <= UNIT && -UNIT <= c.w.z
                && c.w.z <= UNIT {
                Pdfs::Cosine(CosinePdf { w: c.w })
            } else {
                Pdfs::Uniform(SpherePdf {  })
            }
        },
        Pdfs::Uniform(_) => Pdfs::Uniform(SpherePdf {  }),
    }
}

/// A sampled direction pulled into the direction bound; a clamp that
/// lands on zero falls back to an axis direction.
fn clamp_direction(v: &Vec3) -> (r: Vec3)
    ensures
        vec_within(r, GEOM_BOUND as int),
        r.spec_norm2() != 0,
{
    let c = Vec3 {
        x: clamp_scalar(v.x, GEOM_BOUND),
        y: clamp_scalar(v.y, GEOM_BOUND),
        z: clamp_scalar(v.z, GEOM_BOUND),
    };
    if c.x == 0 && c.y == 0 && c.z == 0 {
        let r = Vec3 { x: UNIT, y: 0, z: 0 };
        proof {
            crate::geo::lemma_vec_nonzero_norm2(r);
        }
        r
    } else {
        proof {
            crate::geo::lemma_vec_nonzero_norm2(c);
        }
        c
    }
}

/// One channel of the shaded color, filtered: capped at the ceiling.
pub open spec fn spec_filter_color_value(v: int) -> int {
    if v > COLOR_CEILING as int {
        COLOR_CEILING as int
    } else {
        v
    }
}

fn filter_color_value(val: i64) -> (r: i64)
    ensures
        r == spec_filter_color_value(val as int),
{
    if val > COLOR_CEILING {
        COLOR_CEILING
    } else {
        val
    }
}

/// The numeric guard on a shaded color: every channel is capped at
/// the ceiling, so one lucky sample cannot blow up a pixel.
pub fn filter_invalid_color_values(col: &Vec3) -> (r: Vec3)
    ensures
        r.x == spec_filter_color_value(col.x as int),
        r.y == spec_filter_color_value(col.y as int),
        r.z == spec_filter_color_value(col.z as int),
        r.x <= COLOR_CEILING && r.y <= COLOR_CEILING && r.z <= COLOR_CEILING,
{
    Vec3 {
        x: filter_color_value(col.x),
        y: filter_color_value(col.y),
        z: filter_color_value(col.z),
    }
}

/// One channel of the scattered contribution:
/// `attenuation * scattering_pdf * incoming / pdf`, in fixed point. A
/// zero sampling density would divide by zero, the integer analogue
/// of the float path's invalid value: the guard returns zero instead.
pub open spec fn spec_scatter_channel(att: int, spdf: int, inc: int, pdf: int) -> int {
    if pdf <= 0 {
        0
    } else {
        tdiv(tdiv(tdiv(att * spdf, UNIT as int) * inc, UNIT as int) * UNIT as int, pdf)
    }
}

/// The scattered contribution of one bounce, channel by channel, with
/// the division-by-zero guard.
pub fn scatter_radiance(attenuation: &Vec3, scattering_pdf: i64, incoming: &Vec3, pdf_val: i64) -> (
    r: Vec3)
    requires
        vec_within(*attenuation, COLOR_CLAMP as int),
        0 <= scattering_pdf <= COLOR_CLAMP,
        vec_within(*incoming, COLOR_CLAMP as int),
        0 <= pdf_val,
    ensures
        r.x == spec_scatter_channel(
            attenuation.x as int,
            scattering_pdf as int,
            incoming.x as int,
            pdf_val as int,
        ),
        r.y == spec_scatter_channel(
            attenuation.y as int,
            scattering_pdf as int,
            incoming.y as int,
            pdf_val as int,
        ),
        r.z == spec_scatter_channel(
            attenuation.z as int,
            scattering_pdf as int,
            incoming.z as int,
            pdf_val as int,
        ),
        vec_within(r, 0x100_0000_0000_0000),
{
    Vec3 {
        x: scatter_channel(attenuation.x, scattering_pdf, incoming.x, pdf_val),
        y: scatter_channel(attenuation.y, scattering_pdf, incoming.y, pdf_val),
        z: scatter_channel(attenuation.z, scattering_pdf, incoming.z, pdf_val),
    }
}

fn scatter_channel(att: i64, spdf: i64, inc: i64, pdf: i64) -> (r: i64)
    requires
        -COLOR_CLAMP <= att <= COLOR_CLAMP,
        0 <= spdf <= COLOR_CLAMP,
        -COLOR_CLAMP <= inc <= COLOR_CLAMP,
        0 <= pdf,
    ensures
        r == spec_scatter_channel(att as int, spdf as int, inc as int, pdf as int),
        -0x100_0000_0000_0000 <= r <= 0x100_0000_0000_0000,
{
    if pdf <= 0 {
        return 0;
    }
    proof {
        lemma_abs_mul_le(att as int, spdf as int, COLOR_CLAMP as int, COLOR_CLAMP as int);
        lemma_tdiv_bound(att as int * spdf as int, UNIT as int, 0x1_0000_0000);
        assert(0x100_0000int * 0x100_0000 <= 0x1_0000_0000int * (UNIT as int));
    }
    let m1 = fixed_mul(att, spdf);
    proof {
        lemma_abs_mul_le(m1 as int, inc as int, 0x1_0000_0000, COLOR_CLAMP as int);
        lemma_tdiv_bound(m1 as int * inc as int, UNIT as int, 0x100_0000_0000);
        assert(0x1_0000_0000int * 0x100_0000 <= 0x100_0000_0000int * (UNIT as int));
    }
    let m2 = fixed_mul(m1, inc);
    proof {
        lemma_abs_mul_le(m2 as int, UNIT as int, 0x100_0000_0000, UNIT as int);
    }
    let wide = wide_mul(m2, UNIT);
    proof {
        assert(0x100_0000_0000int * (UNIT as int) <= 0x100_0000_0000int * (UNIT as int) * (
        pdf as int)) by (nonlinear_arith)
            requires
                pdf >= 1;
        lemma_tdiv_bound(wide as int, pdf as int, 0x100_0000_0000int * (UNIT as int));
    }
    let q = div_i128(wide, pdf as i128);
        q as i64
}

/// The specular branch's answer: emission plus the attenuated
/// recursive radiance, channel by channel in fixed point.
pub fn specular_radiance(emitted: &Vec3, attenuation: &Vec3, incoming: &Vec3) -> (r: Vec3)
    requires
        vec_within(*emitted, COLOR_CLAMP as int),
        vec_within(*attenuation, COLOR_CLAMP as int),
        vec_within(*incoming, COLOR_CLAMP as int),
    ensures
        r.x == emitted.x + Vec3::spec_fixed_mul(attenuation.x as int, incoming.x as int),
        r.y == emitted.y + Vec3::spec_fixed_mul(attenuation.y as int, incoming.y as int),
        r.z == emitted.z + Vec3::spec_fixed_mul(attenuation.z as int, incoming.z as int),
        vec_within(r, 0x2_0000_0000),
{
    proof {
        lemma_abs_mul_le(attenuation.x as int, incoming.x as int, COLOR_CLAMP as int, COLOR_CLAMP as int);
        lemma_abs_mul_le(attenuation.y as int, incoming.y as int, COLOR_CLAMP as int, COLOR_CLAMP as int);
        lemma_abs_mul_le(attenuation.z as int, incoming.z as int, COLOR_CLAMP as int, COLOR_CLAMP as int);
        lemma_tdiv_bound(attenuation.x as int * incoming.x as int, UNIT as int, 0x1_0000_0000);
        lemma_tdiv_bound(attenuation.y as int * incoming.y as int, UNIT as int, 0x1_0000_0000);
        lemma_tdiv_bound(attenuation.z as int * incoming.z as int, UNIT as int, 0x1_0000_0000);
        assert(0x100_0000int * 0x100_0000 <= 0x1_0000_0000int * (UNIT as int));
    }
    Vec3 {
        x: emitted.x + fixed_mul(attenuation.x, incoming.x),
        y: emitted.y + fixed_mul(attenuation.y, incoming.y),
        z: emitted.z + fixed_mul(attenuation.z, incoming.z),
    }
}

/// The mixture branch's answer: emission plus the scattered
/// contribution, passed through the numeric guard.
pub fn combine_radiance(emitted: &Vec3, scatter: &Vec3) -> (r: Vec3)
    requires
        vec_within(*emitted, COLOR_CLAMP as int),
        vec_within(*scatter, 0x100_0000_0000_0000),
    ensures
        r.x == spec_filter_color_value(emitted.x + scatter.x),
        r.y == spec_filter_color_value(emitted.y + scatter.y),
        r.z == spec_filter_color_value(emitted.z + scatter.z),
        vec_within(r, RADIANCE_BOUND as int),
{
    let total = Vec3 {
        x: emitted.x + scatter.x,
        y: emitted.y + scatter.y,
        z: emitted.z + scatter.z,
    };
    filter_invalid_color_values(&total)
}

/// A shader: turns a hit into a color, given the rendering context.
/// The path tracing implementation recurses through the context's
/// `ray_color`; the simpler ones read only the record and material.
pub trait Shader<M: Material> {
    /// Must only be asked about contexts that really carry this
    /// shader's configuration.
    spec fn wf_for(&self, renderer: &Renderer<M>) -> bool;

    fn shade(
        &self,
        renderer: &Renderer<M>,
        rec: &HitRecord,
        ray: &Ray,
        depth: i32,
        rng: &mut RngState,
    ) -> (res: Vec3)
        requires
            renderer.wf(),
            ray_within_bounds(*ray),
            self.wf_for(renderer),
        ensures
            vec_within(res, RADIANCE_BOUND as int),
    ;
}

/// The full path tracing integrator.
pub struct PathTracingShader {
    pub max_depth: i32,
}

impl PathTracingShader {
    pub fn new(max_depth: i32) -> (r: PathTracingShader)
        requires
            max_depth >= 0,
        ensures
            r.max_depth == max_depth,
    {
        PathTracingShader { max_depth }
    }

    /// One bounce of light transport: at the depth cap the answer is
    /// zero radiance whatever the record says; otherwise emission,
    /// plus, if the material scatters, the attenuated radiance of one
    /// continuation ray drawn from the light/material mixture (or the
    /// material's fixed specular ray), everything passed through the
    /// numeric guard.
    pub fn shade<M: Material>(
        &self,
        renderer: &Renderer<M>,
        rec: &HitRecord,
        ray: &Ray,
        depth: i32,
        rng: &mut RngState,
    ) -> (res: Vec3)
        requires
            renderer.wf(),
            ray_within_bounds(*ray),
            renderer.spec_max_depth() == self.max_depth as int,
        ensures
            depth >= self.max_depth ==> res == (Vec3 { x: 0, y: 0, z: 0 }),
            vec_within(res, RADIANCE_BOUND as int),
        decreases depth_fuel(depth as int, self.max_depth as int), 0int,
    {
        if depth >= self.max_depth {
            return Vec3 { x: 0, y: 0, z: 0 };
        }
        let mat = renderer.material_for(rec.material);
        let emitted_raw = mat.emitted(rec);
        let emitted_color = clamp_color(&emitted_raw);
        let scatter_res = mat.scatter(ray, rec, rng);
        proof {
            assert(vec_within(emitted_color, RADIANCE_BOUND as int));
        }
        match scatter_res {
            None => emitted_color,
            Some(scatter_record) => {
                let attenuation = clamp_color(&scatter_record.attenuation);
                match scatter_record.skip_pdf_ray {
                    Some(skip_pdf_ray) => {
                        let skip = clamp_ray(&skip_pdf_ray);
                        let rc = renderer.ray_color(&skip, depth + 1, rng);
                        let rcc = clamp_color(&rc);
                        specular_radiance(&emitted_color, &attenuation, &rcc)
                    },
                    None => {
                        let pdf = sanitize_pdf(&scatter_record.pdf);
                        let origin = Vec3 {
                            x: clamp_scalar(rec.hit_point.x, ORIGIN_BOUND),
                            y: clamp_scalar(rec.hit_point.y, ORIGIN_BOUND),
                            z: clamp_scalar(rec.hit_point.z, ORIGIN_BOUND),
                        };
                        let pdf_direction: Vec3;
                        let pdf_val: i64;
                        if renderer.has_lights() {
                            let light_pdf = HittablePdf::new(&renderer.lights, origin);
                            let drawn = mix_generate(&light_pdf, &pdf, rng);
                            pdf_direction = clamp_direction(&drawn);
                            pdf_val = mix_value(&light_pdf, &pdf, &pdf_direction);
                        } else {
                            let drawn = pdf.generate(rng);
                            pdf_direction = clamp_direction(&drawn);
                            pdf_val = pdf.value(&pdf_direction);
                        }
                        let scattered = Ray { origin, direction: pdf_direction, time: ray.time };
                        let spdf_raw = mat.scattering_pdf(rec, &scattered);
                        let spdf = if spdf_raw < 0 {
                            0
                        } else {
                            clamp_scalar(spdf_raw, COLOR_CLAMP)
                        };
                        let rc = renderer.ray_color(&scattered, depth + 1, rng);
                        let rcc = clamp_color(&rc);
                        let scatter_color = scatter_radiance(&attenuation, spdf, &rcc, pdf_val);
                        combine_radiance(&emitted_color, &scatter_color)
                    },
                }
            },
        }
    }
}

/// Outputs the flat material color.
pub struct AlbedoShader {}

impl AlbedoShader {
    pub fn new() -> (r: AlbedoShader) {
        AlbedoShader {  }
    }

    /// The material's attenuation, or its emission where it does not
    /// scatter.
    pub fn shade<M: Material>(
        &self,
        renderer: &Renderer<M>,
        rec: &HitRecord,
        ray: &Ray,
        _depth: i32,
        rng: &mut RngState,
    ) -> (res: Vec3)
        requires
            renderer.wf(),
            ray_within_bounds(*ray),
        ensures
            vec_within(res, RADIANCE_BOUND as int),
    {
        let mat = renderer.material_for(rec.material);
        match mat.scatter(ray, rec, rng) {
            None => clamp_color(&mat.emitted(rec)),
            Some(scatter_record) => clamp_color(&scatter_record.attenuation),
        }
    }
}

/// What the normal shader reports: the unit normal for a bounded
/// nonzero normal, zero otherwise.
pub open spec fn spec_normal_color(n: Vec3) -> Vec3 {
    if -0x4000_0000_0000 <= n.x <= 0x4000_0000_0000 && -0x4000_0000_0000 <= n.y
        <= 0x4000_0000_0000 && -0x4000_0000_0000 <= n.z <= 0x4000_0000_0000 && !(n.x == 0 && n.y
        == 0 && n.z == 0) {
        n.spec_unit()
    } else {
        Vec3 { x: 0, y: 0, z: 0 }
    }
}

/// Outputs the surface normal as a color.
pub struct NormalShader {}

impl NormalShader {
    pub fn new() -> (r: NormalShader) {
        NormalShader {  }
    }

    /// The unit normal of the hit, or zero for a degenerate record;
    /// the context, ray and depth play no part.
    pub fn shade<M: Material>(
        &self,
        _renderer: &Renderer<M>,
        rec: &HitRecord,
        _ray: &Ray,
        _depth: i32,
        _rng: &mut RngState,
    ) -> (res: Vec3)
        ensures
            res == spec_normal_color(rec.normal),
            vec_within(res, RADIANCE_BOUND as int),
    {
        let n = rec.normal;
        if -0x4000_0000_0000 <= n.x && n.x <= 0x4000_0000_0000 && -0x4000_0000_0000 <= n.y && n.y
            <= 0x4000_0000_0000 && -0x4000_0000_0000 <= n.z && n.z <= 0x4000_0000_0000 && !(n.x == 0
            && n.y == 0 && n.z == 0) {
            proof {
                crate::geo::lemma_vec_nonzero_norm2(n);
            }
            n.unit()
        } else {
            Vec3 { x: 0, y: 0, z: 0 }
        }
    }
}

/// The flat-shading factor: half the cosine against the fixed light
/// direction plus three quarters, so it spans a quarter to five
/// quarters; a degenerate normal gets the flat three quarters.
pub open spec fn spec_flat_factor(n: Vec3, light_dir: Vec3) -> i64 {
    if -0x4000_0000_0000 <= n.x <= 0x4000_0000_0000 && -0x4000_0000_0000 <= n.y
        <= 0x4000_0000_0000 && -0x4000_0000_0000 <= n.z <= 0x4000_0000_0000 && !(n.x == 0 && n.y
        == 0 && n.z == 0) {
        (tdiv(n.spec_unit().spec_dot(light_dir), 2) + 3 * UNIT / 4) as i64
    } else {
        (3 * UNIT / 4) as i64
    }
}

fn flat_factor(n: &Vec3, light_dir: &Vec3) -> (r: i64)
    requires
        vec_within(*light_dir, UNIT as int),
    ensures
        r == spec_flat_factor(*n, *light_dir),
        -2 * UNIT <= r <= 3 * UNIT,
{
    if -0x4000_0000_0000 <= n.x && n.x <= 0x4000_0000_0000 && -0x4000_0000_0000 <= n.y && n.y
        <= 0x4000_0000_0000 && -0x4000_0000_0000 <= n.z && n.z <= 0x4000_0000_0000 && !(n.x == 0
        && n.y == 0 && n.z == 0) {
        proof {
            crate::geo::lemma_vec_nonzero_norm2(*n);
        }
        let u = n.unit();
        proof {
            lemma_abs_mul_le(u.x as int, light_dir.x as int, UNIT as int, UNIT as int);
            lemma_abs_mul_le(u.y as int, light_dir.y as int, UNIT as int, UNIT as int);
            lemma_abs_mul_le(u.z as int, light_dir.z as int, UNIT as int, UNIT as int);
            lemma_tdiv_bound(
                u.x as int * light_dir.x as int + u.y as int * light_dir.y as int + u.z as int
                    * light_dir.z as int,
                UNIT as int,
                3 * UNIT as int,
            );
        }
        let d = u.dot(light_dir);
        let half: i64 = if d >= 0 {
            d / 2
        } else {
            -((-d) / 2)
        };
        half + 3 * UNIT / 4
    } else {
        3 * UNIT / 4
    }
}

/// A color scaled by a fixed-point factor, channel by channel.
pub fn scale_color(c: &Vec3, factor: i64) -> (r: Vec3)
    requires
        vec_within(*c, COLOR_CLAMP as int),
        -4 * UNIT <= factor <= 4 * UNIT,
    ensures
        r.x == Vec3::spec_fixed_mul(c.x as int, factor as int),
        r.y == Vec3::spec_fixed_mul(c.y as int, factor as int),
        r.z == Vec3::spec_fixed_mul(c.z as int, factor as int),
        vec_within(r, 0x4_000_0000),
{
    proof {
        lemma_abs_mul_le(c.x as int, factor as int, COLOR_CLAMP as int, 4 * UNIT as int);
        lemma_abs_mul_le(c.y as int, factor as int, COLOR_CLAMP as int, 4 * UNIT as int);
        lemma_abs_mul_le(c.z as int, factor as int, COLOR_CLAMP as int, 4 * UNIT as int);
        lemma_tdiv_bound(c.x as int * factor as int, UNIT as int, 0x4_000_0000);
        lemma_tdiv_bound(c.y as int * factor as int, UNIT as int, 0x4_000_0000);
        lemma_tdiv_bound(c.z as int * factor as int, UNIT as int, 0x4_000_0000);
        assert(0x100_0000int * (4 * UNIT as int) <= 0x4_000_0000int * (UNIT as int));
    }
    Vec3 {
        x: fixed_mul(c.x, factor),
        y: fixed_mul(c.y, factor),
        z: fixed_mul(c.z, factor),
    }
}

/// Flat shading from a fixed light direction: quick previews.
pub struct SimpleShader {
    pub light_dir: Vec3,
}

impl SimpleShader {
    pub fn new() -> (r: SimpleShader)
        ensures
            r.light_dir == (Vec3 { x: UNIT, y: UNIT, z: (-UNIT) as i64 }),
    {
        SimpleShader { light_dir: Vec3 { x: UNIT, y: UNIT, z: -UNIT } }
    }

    /// Attenuation scaled by the flat-shading factor; a material
    /// that does not scatter shows its emission instead. The factor
    /// and the product are fixed exactly by `spec_flat_factor` and
    /// `scale_color`; only the material's own answers stay open.
    pub fn shade<M: Material>(
        &self,
        renderer: &Renderer<M>,
        rec: &HitRecord,
        ray: &Ray,
        _depth: i32,
        rng: &mut RngState,
    ) -> (res: Vec3)
        requires
            renderer.wf(),
            ray_within_bounds(*ray),
            vec_within(self.light_dir, UNIT as int),
        ensures
            vec_within(res, RADIANCE_BOUND as int),
    {
        let mat = renderer.material_for(rec.material);
        match mat.scatter(ray, rec, rng) {
            None => clamp_color(&mat.emitted(rec)),
            Some(scatter_record) => {
                let factor = flat_factor(&rec.normal, &self.light_dir);
                let att = clamp_color(&scatter_record.attenuation);
                scale_color(&att, factor)
            },
        }
    }
}

/// The closed set of shaders a renderer can hold.
pub enum Shaders {
    PathTracingType(PathTracingShader),
    AlbedoType(AlbedoShader),
    NormalType(NormalShader),
    SimpleType(SimpleShader),
}

impl<M: Material> Shader<M> for PathTracingShader {
    open spec fn wf_for(&self, renderer: &Renderer<M>) -> bool {
        renderer.spec_max_depth() == self.max_depth as int
    }

    fn shade(
        &self,
        renderer: &Renderer<M>,
        rec: &HitRecord,
        ray: &Ray,
        depth: i32,
        rng: &mut RngState,
    ) -> (res: Vec3) {
        PathTracingShader::shade(self, renderer, rec, ray, depth, rng)
    }
}

impl<M: Material> Shader<M> for AlbedoShader {
    open spec fn wf_for(&self, renderer: &Renderer<M>) -> bool {
        true
    }

    fn shade(
        &self,
        renderer: &Renderer<M>,
        rec: &HitRecord,
        ray: &Ray,
        depth: i32,
        rng: &mut RngState,
    ) -> (res: Vec3) {
        AlbedoShader::shade(self, renderer, rec, ray, depth, rng)
    }
}

impl<M: Material> Shader<M> for NormalShader {
    open spec fn wf_for(&self, renderer: &Renderer<M>) -> bool {
        true
    }

    fn shade(
        &self,
        renderer: &Renderer<M>,
        rec: &HitRecord,
        ray: &Ray,
        depth: i32,
        rng: &mut RngState,
    ) -> (res: Vec3) {
        NormalShader::shade(self, renderer, rec, ray, depth, rng)
    }
}

impl<M: Material> Shader<M> for SimpleShader {
    open spec fn wf_for(&self, renderer: &Renderer<M>) -> bool {
        vec_within(self.light_dir, UNIT as int)
    }

    fn shade(
        &self,
        renderer: &Renderer<M>,
        rec: &HitRecord,
        ray: &Ray,
        depth: i32,
        rng: &mut RngState,
    ) -> (res: Vec3) {
        SimpleShader::shade(self, renderer, rec, ray, depth, rng)
    }
}

} // verus!
