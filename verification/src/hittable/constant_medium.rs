//! Participating medium (fog, smoke): a boundary shape filled with a
//! constant-density scatterer. Intersection finds the ray's entry
//! and exit through the boundary and draws an exponential free-flight
//! distance; a flight ending inside the boundary scatters there,
//! anything longer passes through. The flight's unit draw is a hash
//! of the ray itself, so the whole intersection stays a pure function
//! of the ray: render loops vary their rays per sample, which varies
//! the draw.
use vstd::prelude::*;

verus! {

use crate::geo::{Vec3, Uv, Ray, tdiv, ray_within_bounds};
use crate::aabb::Aabb;
use crate::interval::Interval;
use crate::material::HitRecord;
use crate::hittable::Hittables;
use crate::rng::spec_step;
use crate::{GEOM_BOUND, UNIT};

/// Fixed-point natural logarithm of two.
pub const LN2_UNITS: i64 = 45426;

pub struct ConstantMedium {
    pub boundary: Box<Hittables>,
    /// Optical density in fixed point; at least one step.
    pub density: i64,
    /// The isotropic phase-function material scattered events carry.
    pub material: u32,
    pub b_box: Aabb,
}

/// A unit draw in `[1, UNIT)` hashed from the ray's own coordinates,
/// through the generator's step function.
pub open spec fn spec_ray_sample(r: Ray) -> i64 {
    let s = (r.origin.x as u64) ^ ((r.origin.y as u64) << 1u64) ^ ((r.origin.z as u64) << 2u64)
        ^ ((r.direction.x as u64) << 3u64) ^ ((r.direction.y as u64) << 4u64) ^ ((
    r.direction.z as u64) << 5u64) ^ ((r.time as u64) << 6u64);
    (spec_step(spec_step(if s == 0 { 1u64 } else { s })) % ((UNIT - 1) as u64) + 1) as i64
}

fn ray_sample(r: &Ray) -> (res: i64)
    ensures
        res == spec_ray_sample(*r),
        1 <= res < UNIT,
{
    let s: u64 = #[verifier::truncate] (r.origin.x as u64) ^ (#[verifier::truncate] (
    r.origin.y as u64) << 1u64) ^ (#[verifier::truncate] (r.origin.z as u64) << 2u64) ^ (
    #[verifier::truncate] (r.direction.x as u64) << 3u64) ^ (#[verifier::truncate] (
    r.direction.y as u64) << 4u64) ^ (#[verifier::truncate] (r.direction.z as u64) << 5u64) ^ (
    #[verifier::truncate] (r.time as u64) << 6u64);
    let seed: u64 = if s == 0 {
        1
    } else {
        s
    };
    let mut st = crate::rng::RngState { s: seed };
    let _ = st.next_u64();
    let h = st.next_u64();
    (h % ((UNIT - 1) as u64) + 1) as i64
}

/// Fixed-point negative base-two logarithm of `u / UNIT` for
/// `1 <= u < UNIT`: the whole bits exactly, the fraction linearly
/// interpolated. Monotone decreasing in `u`; what turns a uniform
/// draw into an exponential flight.
pub open spec fn spec_neg_log2(u: int) -> int
    decreases (if u >= UNIT as int { 0int } else { UNIT as int - u }),
{
    if u <= 0 {
        17 * UNIT as int
    } else if u >= UNIT as int {
        -(u - UNIT as int)
    } else {
        UNIT as int + spec_neg_log2(2 * u)
    }
}

fn neg_log2(u: i64) -> (res: i64)
    requires
        1 <= u < UNIT,
    ensures
        res == spec_neg_log2(u as int),
        0 <= res <= 17 * UNIT,
{
    let mut m: i64 = u;
    let mut acc: i64 = 0;
    let ghost mut k: nat = 0nat;
    proof {
        vstd::arithmetic::power2::lemma2_to64();
    }
    while 2 * m < UNIT
        invariant
            1 <= m < UNIT,
            spec_neg_log2(u as int) == acc + spec_neg_log2(m as int),
            acc == k * UNIT,
            m as int >= vstd::arithmetic::power2::pow2(k),
            k <= 15,
        decreases UNIT - m,
    {
        proof {
            assert(spec_neg_log2(m as int) == UNIT + spec_neg_log2(2 * m as int));
            assert(vstd::arithmetic::power2::pow2(k + 1) == 2 * vstd::arithmetic::power2::pow2(
                k,
            )) by {
                vstd::arithmetic::power2::lemma_pow2_unfold((k + 1) as nat);
            }
            if k >= 15 {
                vstd::arithmetic::power2::lemma2_to64();
                if k > 15 {
                    vstd::arithmetic::power2::lemma_pow2_strictly_increases(15nat, k);
                }
                assert(m >= 32768);
                assert(false);
            }
            k = k + 1;
            assert((k * UNIT) == (k - 1) * UNIT + UNIT) by (nonlinear_arith);
        }
        m = 2 * m;
        acc = acc + UNIT;
    }
    proof {
        assert(spec_neg_log2(m as int) == UNIT + spec_neg_log2(2 * m as int));
        assert(acc <= 15 * UNIT) by (nonlinear_arith)
            requires
                acc == k * UNIT,
                k <= 15,
                UNIT == 65536;
    }
    acc + (UNIT + -(2 * m - UNIT))
}

impl ConstantMedium {
    /// Wraps a boundary shape with a constant scattering density; the
    /// box is the boundary's own.
    pub fn create(boundary: Hittables, density: i64, material: u32) -> (r: Hittables)
        requires
            boundary.wf(),
            1 <= density,
        ensures
            r.wf(),
            r matches Hittables::ConstantMediumType(c) && *c.boundary == boundary && c.density
                == density && c.material == material,
    {
        let b_box = *boundary.bounding_box();
        Hittables::ConstantMediumType(
            ConstantMedium { boundary: Box::new(boundary), density, material, b_box },
        )
    }

    /// Walks the ray into the boundary and out again, draws the
    /// free-flight distance, and scatters where the flight ends if
    /// that is still inside; the scattered record carries an
    /// arbitrary fixed normal, as the medium has no surface.
    pub fn hit(&self, r: &Ray, ray_length: &Interval) -> (res: Option<HitRecord>)
        requires
            self.boundary.wf(),
            1 <= self.density,
            ray_within_bounds(*r),
        ensures
            res == spec_medium_hit(*self.boundary, self.density, self.material, *r, *ray_length),
        decreases *self,
    {
        let rec1 = match self.boundary.hit(r, ray_length) {
            None => {
                return None;
            },
            Some(rec1) => rec1,
        };
        if !(0 <= rec1.ray_length && rec1.ray_length < GEOM_BOUND) {
            return None;
        }
        let inner = Interval { min: rec1.ray_length + 1, max: ray_length.max };
        let rec2 = match self.boundary.hit(r, &inner) {
            None => {
                return None;
            },
            Some(rec2) => rec2,
        };
        if !(rec1.ray_length < rec2.ray_length && rec2.ray_length <= GEOM_BOUND) {
            return None;
        }
        let u = ray_sample(r);
        let raw = neg_log2(u);
        proof {
            crate::geo::lemma_abs_mul_le(raw as int, LN2_UNITS as int, 17 * UNIT as int, LN2_UNITS as int);
            crate::geo::lemma_tdiv_bound(
                raw as int * LN2_UNITS as int,
                UNIT as int,
                17 * LN2_UNITS as int,
            );
            crate::geo::lemma_tdiv_bound(
                tdiv(raw as int * LN2_UNITS as int, UNIT as int),
                self.density as int,
                17 * LN2_UNITS as int,
            );
        }
        let scaled = crate::geo::fixed_mul(raw, LN2_UNITS);
        let flight: i64 = if scaled >= 0 {
            scaled / self.density
        } else {
            -((-scaled) / self.density)
        };
        let t = rec1.ray_length + flight;
        if t >= rec2.ray_length || t > GEOM_BOUND || t > ray_length.max {
            return None;
        }
        let hit_point = r.at(t);
        Some(
            HitRecord {
                hit_point,
                normal: Vec3 { x: UNIT, y: 0, z: 0 },
                material: self.material,
                ray_length: t,
                uv: Uv { u: 0, v: 0 },
                front_face: true,
            },
        )
    }
}

/// Mirror of the executable medium intersection, over the boundary's
/// own intersection semantics: entry, exit past the entry, and the
/// free-flight test against the stretch inside.
pub open spec fn spec_medium_hit(
    boundary: Hittables,
    density: i64,
    material: u32,
    r: Ray,
    ray_length: Interval,
) -> Option<HitRecord>
    decreases boundary, 1int,
{
    match boundary.spec_hit(r, ray_length) {
        None => None,
        Some(rec1) => {
            if !(0 <= rec1.ray_length < GEOM_BOUND) {
                None
            } else {
                let inner = Interval { min: (rec1.ray_length + 1) as i64, max: ray_length.max };
                match boundary.spec_hit(r, inner) {
                    None => None,
                    Some(rec2) => {
                        if !(rec1.ray_length < rec2.ray_length && rec2.ray_length <= GEOM_BOUND) {
                            None
                        } else {
                            let u = spec_ray_sample(r);
                            let flight = tdiv(
                                tdiv(spec_neg_log2(u as int) * LN2_UNITS as int, UNIT as int),
                                density as int,
                            );
                            let t = rec1.ray_length + flight;
                            if t >= rec2.ray_length || t > GEOM_BOUND as int
                                || t > ray_length.max as int {
                                None
                            } else {
                                Some(
                                    HitRecord {
                                        hit_point: r.spec_at(t as i64),
                                        normal: Vec3 { x: UNIT, y: 0, z: 0 },
                                        material,
                                        ray_length: t as i64,
                                        uv: Uv { u: 0, v: 0 },
                                        front_face: true,
                                    },
                                )
                            }
                        }
                    },
                }
            }
        },
    }
}

} // verus!
