//! Sampling densities over directions, and the half-and-half mixture
//! of a light sampler with a material sampler that the integrator
//! draws from. Mixing keeps the estimator unbiased while cutting its
//! variance: the density of the mixture is the arithmetic mean of the
//! two component densities.
use vstd::prelude::*;

verus! {

use crate::geo::{Vec3, tdiv, vec_within};
use crate::rng::RngState;
use crate::UNIT;

/// Fixed-point pi.
pub const PI_UNITS: i64 = 205887;

/// A density over directions that a material can ask the integrator
/// to sample from. A closed set of shapes, so evaluation is exact.
#[derive(Clone, Copy, Debug)]
pub enum Pdfs {
    /// Density proportional to the cosine against a unit normal.
    Cosine(CosinePdf),
    /// The uniform density over the whole sphere of directions.
    Uniform(SpherePdf),
}

#[derive(Clone, Copy, Debug)]
pub struct CosinePdf {
    /// Unit normal the cosine is measured against.
    pub w: Vec3,
}

#[derive(Clone, Copy, Debug)]
pub struct SpherePdf {}

/// Value of the uniform sphere density: `1 / (4 * pi)`.
pub open spec fn spec_sphere_pdf_value() -> i64 {
    tdiv(UNIT as int * UNIT as int, 4 * PI_UNITS as int) as i64
}

/// Value of the cosine density at a direction: `cos / pi` against the
/// normal, never negative.
pub open spec fn spec_cosine_pdf_value(w: Vec3, direction: Vec3) -> i64 {
    let c = direction.spec_unit().spec_dot(w);
    if c <= 0 {
        0
    } else {
        tdiv(c * UNIT as int, PI_UNITS as int) as i64
    }
}

pub open spec fn spec_pdf_value(p: Pdfs, direction: Vec3) -> i64 {
    match p {
        Pdfs::Cosine(c) => spec_cosine_pdf_value(c.w, direction),
        Pdfs::Uniform(_) => spec_sphere_pdf_value(),
    }
}

/// Densities are evaluated on well-formed unit-scale data: a unit
/// normal and a nonzero bounded direction.
pub open spec fn pdf_wf(p: Pdfs) -> bool {
    match p {
        Pdfs::Cosine(c) => vec_within(c.w, UNIT as int),
        Pdfs::Uniform(_) => true,
    }
}

impl Pdfs {
    /// Evaluates this density at a direction.
    pub fn value(&self, direction: &Vec3) -> (r: i64)
        requires
            pdf_wf(*self),
            vec_within(*direction, 0x4000_0000_0000),
            direction.spec_norm2() != 0,
        ensures
            r == spec_pdf_value(*self, *direction),
            0 <= r <= 4 * UNIT,
    {
        match self {
            Pdfs::Cosine(c) => {
                let u = direction.unit();
                let cos = u.dot(&c.w);
                proof {
                    crate::geo::lemma_abs_mul_le(u.x as int, c.w.x as int, UNIT as int, UNIT as int);
                    crate::geo::lemma_abs_mul_le(u.y as int, c.w.y as int, UNIT as int, UNIT as int);
                    crate::geo::lemma_abs_mul_le(u.z as int, c.w.z as int, UNIT as int, UNIT as int);
                    crate::geo::lemma_tdiv_bound(
                        u.x as int * c.w.x as int + u.y as int * c.w.y as int + u.z as int
                            * c.w.z as int,
                        UNIT as int,
                        3 * UNIT as int,
                    );
                }
                if cos <= 0 {
                    0
                } else {
                    proof {
                        assert(cos as int * UNIT as int <= 4 * (UNIT as int) * (PI_UNITS as int))
                            by (nonlinear_arith)
                            requires
                                0 <= cos <= 3 * UNIT,
                                UNIT == 65536,
                                PI_UNITS == 205887;
                        crate::geo::lemma_tdiv_bound(
                            cos as int * UNIT as int,
                            PI_UNITS as int,
                            4 * UNIT as int,
                        );
                        assert(-(4 * UNIT as int * (PI_UNITS as int)) <= cos as int * UNIT as int)
                            by (nonlinear_arith)
                            requires
                                0 <= cos,
                                UNIT == 65536,
                                PI_UNITS == 205887;
                    }
                    let p: i128 = crate::geo::wide_mul(cos, crate::UNIT);
                    crate::geo::div_i128(p, PI_UNITS as i128) as i64
                }
            },
            Pdfs::Uniform(_) => {
                let v: i64 = (UNIT * UNIT) / (4 * PI_UNITS);
                proof {
                    assert(v == spec_sphere_pdf_value());
                }
                v
            },
        }
    }

    /// Draws a direction. For the cosine density the draw is the
    /// normal plus a point of the unit ball, which favors directions
    /// near the normal; for the uniform density it is a point of the
    /// unit ball. Always nonzero and bounded; falls back to an axis
    /// direction when the rejection draw degenerates.
    pub fn generate(&self, rng: &mut RngState) -> (r: Vec3)
        requires
            pdf_wf(*self),
        ensures
            vec_within(r, 3 * UNIT as int),
            r.spec_norm2() != 0,
    {
        match self {
            Pdfs::Cosine(c) => {
                let b = random_in_ball(rng);
                let v = c.w.add(&b);
                if v.x == 0 && v.y == 0 && v.z == 0 {
                    Vec3 { x: UNIT, y: 0, z: 0 }
                } else {
                    proof {
                        crate::geo::lemma_vec_nonzero_norm2(v);
                    }
                    v
                }
            },
            Pdfs::Uniform(_) => {
                let b = random_in_ball(rng);
                if b.x == 0 && b.y == 0 && b.z == 0 {
                    Vec3 { x: UNIT, y: 0, z: 0 }
                } else {
                    proof {
                        crate::geo::lemma_vec_nonzero_norm2(b);
                    }
                    b
                }
            },
        }
    }
}

/// A point of the closed unit ball (components in `(-UNIT, UNIT)`),
/// found by rejection; after a bounded number of tries the center is
/// accepted instead.
pub fn random_in_ball(rng: &mut RngState) -> (r: Vec3)
    ensures
        vec_within(r, UNIT as int),
{
    let mut tries: u32 = 0;
    loop
        invariant
            tries <= 8,
        decreases 8 - tries,
    {
        let x = rng.next_unit() * 2 - UNIT;
        let y = rng.next_unit() * 2 - UNIT;
        let z = rng.next_unit() * 2 - UNIT;
        proof {
            crate::geo::lemma_abs_mul_le(x as int, x as int, UNIT as int, UNIT as int);
            crate::geo::lemma_abs_mul_le(y as int, y as int, UNIT as int, UNIT as int);
            crate::geo::lemma_abs_mul_le(z as int, z as int, UNIT as int, UNIT as int);
        }
        let n2: i128 = crate::geo::wide_mul(x, x) + crate::geo::wide_mul(y, y) + crate::geo::wide_mul(
            z,
            z,
        );
        if n2 <= (UNIT as i128) * (UNIT as i128) {
            return Vec3 { x, y, z };
        }
        if tries >= 8 {
            return Vec3 { x: 0, y: 0, z: 0 };
        }
        tries = tries + 1;
    }
}

/// The light-sampling density seeded at a point: directions are drawn
/// toward a light of the scene's light list.
pub struct HittablePdf<'a> {
    pub hittable: &'a crate::hittable::Hittables,
    pub origin: Vec3,
}

impl<'a> HittablePdf<'a> {
    pub open spec fn wf(self) -> bool {
        &&& self.hittable.wf()
        &&& self.hittable.spec_sampleable()
        &&& vec_within(self.origin, crate::ORIGIN_BOUND as int)
    }

    pub fn new(hittable: &'a crate::hittable::Hittables, origin: Vec3) -> (r: HittablePdf<'a>)
        ensures
            r.hittable == hittable,
            r.origin == origin,
    {
        HittablePdf { hittable, origin }
    }

    /// The density of having drawn `direction` toward the light.
    pub fn value(&self, direction: &Vec3) -> (r: i64)
        requires
            self.wf(),
        ensures
            r == self.hittable.spec_pdf_value(self.origin, *direction),
            0 <= r <= UNIT as int * UNIT as int,
    {
        self.hittable.pdf_value(&self.origin, direction)
    }

    /// A direction drawn toward the light.
    pub fn generate(&self, rng: &mut RngState) -> (r: Vec3)
        requires
            self.wf(),
        ensures
            vec_within(r, 0x400_0000_0000),
            r.spec_norm2() != 0,
    {
        self.hittable.random_direction(&self.origin, rng)
    }
}

/// Mean of two densities: how the mixture weighs its two components.
pub open spec fn spec_mix(a: int, b: int) -> int {
    tdiv(a + b, 2)
}

/// The mixture's density at a direction: always the arithmetic mean
/// of the light sampler's density and the material sampler's density
/// there, whichever side the direction was drawn from.
pub fn mix_value(light_pdf: &HittablePdf, material_pdf: &Pdfs, direction: &Vec3) -> (r: i64)
    requires
        light_pdf.wf(),
        pdf_wf(*material_pdf),
        vec_within(*direction, 0x4000_0000_0000),
        direction.spec_norm2() != 0,
    ensures
        r == spec_mix(
            light_pdf.hittable.spec_pdf_value(light_pdf.origin, *direction) as int,
            spec_pdf_value(*material_pdf, *direction) as int,
        ),
        r >= 0,
{
    let a = light_pdf.value(direction);
    let b = material_pdf.value(direction);
    a / 2 + b / 2 + (a % 2 + b % 2) / 2
}

/// Draws from the mixture: a fair coin picks the light sampler or the
/// material sampler. The result is never the zero direction.
pub fn mix_generate(light_pdf: &HittablePdf, material_pdf: &Pdfs, rng: &mut RngState) -> (r: Vec3)
    requires
        light_pdf.wf(),
        pdf_wf(*material_pdf),
    ensures
        vec_within(r, 0x400_0000_0000),
        r.spec_norm2() != 0,
{
    if rng.coin() {
        light_pdf.generate(rng)
    } else {
        material_pdf.generate(rng)
    }
}

/// With the uniform sphere density as the material component, the
/// mixture's density is strictly positive at every direction — the
/// uniform density alone is thousands of fixed-point steps. (With
/// arbitrary components the mean can truncate to zero: one step plus
/// zero steps averages to zero.)
pub proof fn lemma_mix_with_uniform_positive(light_value: int)
    requires
        light_value >= 0,
    ensures
        spec_mix(light_value, spec_sphere_pdf_value() as int) >= 1,
{
    assert(spec_sphere_pdf_value() == 5215);
}

/// The mean of two densities is positive exactly when the two sum to
/// at least two fixed-point steps; in particular it is positive
/// whenever both components are.
pub proof fn lemma_mix_positive(a: int, b: int)
    requires
        a >= 0,
        b >= 0,
    ensures
        spec_mix(a, b) >= 1 <==> a + b >= 2,
        a >= 1 && b >= 1 ==> spec_mix(a, b) >= 1,
{
}

} // verus!
