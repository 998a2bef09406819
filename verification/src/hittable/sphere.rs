//! Sphere primitive: closed-form ray intersection against the
//! normalized ray direction, and solid-angle light sampling. All
//! arithmetic is exact fixed point; the quadratic's square root is a
//! floor square root, and the contract mirrors the computation.
use vstd::prelude::*;

verus! {

use crate::geo::{Vec3, Uv, Ray, tdiv, sqrt_floor, vec_within, ray_within_bounds, wide_mul,
    lemma_abs_mul_le, lemma_tdiv_bound, lemma_sqrt_floor_bounds, div_i128, isqrt_u128};
use crate::aabb::{Aabb, aabb_within_bounds};
use crate::interval::Interval;
use crate::material::HitRecord;
use crate::hittable::Hittables;
use crate::hittable::triangle::{dot3, sub3, vec_to3};
use crate::pdf::PI_UNITS;
use crate::{GEOM_BOUND, UNIT};

pub struct Sphere {
    pub center: Vec3,
    pub radius: i64,
    pub material: u32,
    /// Whether this sphere is used as a scene light.
    pub light: bool,
    pub b_box: Aabb,
}

impl Sphere {
    pub open spec fn wf(self) -> bool {
        &&& vec_within(self.center, GEOM_BOUND as int)
        &&& 1 <= self.radius <= GEOM_BOUND
        &&& self.b_box == (Aabb {
            min: Vec3 {
                x: (self.center.x - self.radius) as i64,
                y: (self.center.y - self.radius) as i64,
                z: (self.center.z - self.radius) as i64,
            },
            max: Vec3 {
                x: (self.center.x + self.radius) as i64,
                y: (self.center.y + self.radius) as i64,
                z: (self.center.z + self.radius) as i64,
            },
        })
        &&& aabb_within_bounds(self.b_box)
    }

    /// A sphere, with the flag saying whether scene assembly uses it
    /// as a light (set when its material emits).
    pub fn create(center: Vec3, radius: i64, material: u32, light: bool) -> (r: Hittables)
        requires
            vec_within(center, GEOM_BOUND as int),
            1 <= radius <= GEOM_BOUND,
        ensures
            r.wf(),
            r matches Hittables::SphereType(s) && s.center == center && s.radius == radius
                && s.material == material && s.light == light,
            r.spec_sampleable(),
    {
        let b_box = Aabb {
            min: Vec3 { x: center.x - radius, y: center.y - radius, z: center.z - radius },
            max: Vec3 { x: center.x + radius, y: center.y + radius, z: center.z + radius },
        };
        Hittables::SphereType(Sphere { center, radius, material, light, b_box })
    }

    /// The accepted root's hit record: point, clamped unit normal
    /// flipped toward the ray, no texture coordinate.
    pub open spec fn spec_record(self, r: Ray, t: i64, du: Vec3) -> HitRecord {
        let hp = r.spec_at(t);
        let out = sub3(hp, self.center);
        let n = Vec3 {
            x: clamp_unit(tdiv(out.0 * UNIT as int, self.radius as int)) as i64,
            y: clamp_unit(tdiv(out.1 * UNIT as int, self.radius as int)) as i64,
            z: clamp_unit(tdiv(out.2 * UNIT as int, self.radius as int)) as i64,
        };
        let front = dot3(vec_to3(du), out) < 0;
        HitRecord {
            hit_point: hp,
            normal: if front {
                n
            } else {
                Vec3 { x: (-n.x) as i64, y: (-n.y) as i64, z: (-n.z) as i64 }
            },
            material: self.material,
            ray_length: t,
            uv: Uv { u: 0, v: 0 },
            front_face: front,
        }
    }

    /// Whether a root is accepted: positive, inside the interval and
    /// the horizon.
    pub open spec fn root_ok(self, t: int, ray_length: Interval) -> bool {
        0 < t <= GEOM_BOUND as int && ray_length.min <= t <= ray_length.max
    }

    /// One root of the quadratic, rescaled from the normalized
    /// direction's parameterization back to the ray's own.
    pub open spec fn spec_root(self, num: int, a: int, dlen: int) -> int {
        tdiv(tdiv(num * UNIT as int, a) * UNIT as int, dlen)
    }

    /// Mirror of the executable intersection: solve the quadratic of
    /// the normalized ray against the sphere, take the nearer root if
    /// the interval admits it, else the farther, else nothing.
    #[verifier::opaque]
    pub open spec fn spec_hit(self, r: Ray, ray_length: Interval) -> Option<HitRecord> {
        if r.direction.spec_norm2() == 0 {
            None
        } else {
            let du = r.direction.spec_unit();
            let dut = vec_to3(du);
            let a = dot3(dut, dut);
            if a == 0 {
                None
            } else {
                let oc = sub3(r.origin, self.center);
                let half_b = dot3(oc, dut);
                let c = dot3(oc, oc) - self.radius * self.radius;
                let disc = half_b * half_b - a * c;
                if disc < 0 {
                    None
                } else {
                    let sq = sqrt_floor(disc as nat) as int;
                    let dlen = r.direction.spec_length();
                    let t1 = self.spec_root(-half_b - sq, a, dlen);
                    let t2 = self.spec_root(-half_b + sq, a, dlen);
                    if self.root_ok(t1, ray_length) {
                        Some(self.spec_record(r, t1 as i64, du))
                    } else if self.root_ok(t2, ray_length) {
                        Some(self.spec_record(r, t2 as i64, du))
                    } else {
                        None
                    }
                }
            }
        }
    }

    /// Nearest intersection of the ray with the sphere inside the
    /// interval, or nothing.
    #[verifier::rlimit(100)]
    pub fn hit(&self, r: &Ray, ray_length: &Interval) -> (res: Option<HitRecord>)
        requires
            self.wf(),
            ray_within_bounds(*r),
        ensures
            res == self.spec_hit(*r, *ray_length),
    {
        proof {
            reveal(Sphere::spec_hit);
        }
        if r.direction.x == 0 && r.direction.y == 0 && r.direction.z == 0 {
            proof {
                assert(r.direction.spec_norm2() == 0) by (nonlinear_arith)
                    requires
                        r.direction.x == 0 && r.direction.y == 0 && r.direction.z == 0;
            }
            return None;
        }
        proof {
            crate::geo::lemma_vec_nonzero_norm2(r.direction);
        }
        let du = r.direction.unit();
        proof {
            lemma_abs_mul_le(du.x as int, du.x as int, UNIT as int, UNIT as int);
            lemma_abs_mul_le(du.y as int, du.y as int, UNIT as int, UNIT as int);
            lemma_abs_mul_le(du.z as int, du.z as int, UNIT as int, UNIT as int);
        }
        let a: i128 = wide_mul(du.x, du.x) + wide_mul(du.y, du.y) + wide_mul(du.z, du.z);
        if a == 0 {
            return None;
        }
        proof {
            assert(a > 0) by (nonlinear_arith)
                requires
                    a == du.x as int * du.x as int + du.y as int * du.y as int + du.z as int
                        * du.z as int,
                    a != 0;
            assert(r.direction.spec_norm2() >= 0) by (nonlinear_arith);
        }
        let oc = r.origin.sub(&self.center);
        proof {
            let ob = 0x200_0000_0000int;
            lemma_abs_mul_le(oc.x as int, du.x as int, ob, UNIT as int);
            lemma_abs_mul_le(oc.y as int, du.y as int, ob, UNIT as int);
            lemma_abs_mul_le(oc.z as int, du.z as int, ob, UNIT as int);
            lemma_abs_mul_le(oc.x as int, oc.x as int, ob, ob);
            lemma_abs_mul_le(oc.y as int, oc.y as int, ob, ob);
            lemma_abs_mul_le(oc.z as int, oc.z as int, ob, ob);
            lemma_abs_mul_le(self.radius as int, self.radius as int, GEOM_BOUND as int, GEOM_BOUND as int);
        }
        let half_b: i128 = wide_mul(oc.x, du.x) + wide_mul(oc.y, du.y) + wide_mul(oc.z, du.z);
        let oc2: i128 = wide_mul(oc.x, oc.x) + wide_mul(oc.y, oc.y) + wide_mul(oc.z, oc.z);
        let c: i128 = oc2 - wide_mul(self.radius, self.radius);
        proof {
            let ob = 0x200_0000_0000int;
            lemma_abs_mul_le(half_b as int, half_b as int, 3 * (ob * UNIT as int), 3 * (ob * UNIT as int));
            lemma_abs_mul_le(a as int, c as int, 3 * (UNIT as int * UNIT as int), 4 * (ob * ob));
        }
        let disc: i128 = half_b * half_b - a * c;
        if disc < 0 {
            return None;
        }
        let sq128: u128 = isqrt_u128(disc as u128);
        proof {
            lemma_sqrt_floor_bounds(disc as nat);
            let s = sqrt_floor(disc as nat);
            assert(s <= 0x2_0000_0000_0000_0000) by (nonlinear_arith)
                requires
                    s * s <= disc,
                    disc <= 0x4_0000_0000_0000_0000_0000_0000_0000_0000,
                    s >= 0;
        }
        let sq: i128 = sq128 as i128;
        let dlen = r.direction.length();
        proof {
            lemma_sqrt_floor_bounds(r.direction.spec_norm2() as nat);
            assert(dlen > 0) by (nonlinear_arith)
                requires
                    dlen >= 0,
                    (dlen + 1) * (dlen + 1) > r.direction.spec_norm2(),
                    r.direction.spec_norm2() > 0;
        }
        let t1 = self.root_value(-half_b - sq, a, dlen);
        if 0 < t1 && t1 <= GEOM_BOUND as i128 && ray_length.min as i128 <= t1 && t1
            <= ray_length.max as i128 {
            return Some(self.make_record(r, t1 as i64, &du));
        }
        let t2 = self.root_value(-half_b + sq, a, dlen);
        if 0 < t2 && t2 <= GEOM_BOUND as i128 && ray_length.min as i128 <= t2 && t2
            <= ray_length.max as i128 {
            return Some(self.make_record(r, t2 as i64, &du));
        }
        None
    }

    /// One root, rescaled to the ray's own parameterization.
    fn root_value(&self, num: i128, a: i128, dlen: i64) -> (t: i128)
        requires
            a > 0,
            dlen > 0,
            -0x8_0000_0000_0000_0000_0000 <= num <= 0x8_0000_0000_0000_0000_0000,
        ensures
            t == self.spec_root(num as int, a as int, dlen as int),
    {
        proof {
            lemma_abs_mul_le(num as int, UNIT as int, 0x8_0000_0000_0000_0000_0000, UNIT as int);
            lemma_tdiv_bound(
                num as int * UNIT as int,
                a as int,
                0x8_0000_0000_0000_0000_0000int * UNIT as int,
            );
            lemma_abs_mul_le(
                tdiv(num as int * UNIT as int, a as int),
                UNIT as int,
                0x8_0000_0000_0000_0000_0000int * UNIT as int,
                UNIT as int,
            );
        }
        let q1 = div_i128(num * (UNIT as i128), a);
        div_i128(q1 * (UNIT as i128), dlen as i128)
    }

    fn make_record(&self, r: &Ray, t: i64, du: &Vec3) -> (res: HitRecord)
        requires
            self.wf(),
            ray_within_bounds(*r),
            0 < t <= GEOM_BOUND,
            vec_within(*du, UNIT as int),
        ensures
            res == self.spec_record(*r, t, *du),
    {
        let hp = r.at(t);
        let outx = hp.x - self.center.x;
        let outy = hp.y - self.center.y;
        let outz = hp.z - self.center.z;
        let nx = normal_component(outx, self.radius);
        let ny = normal_component(outy, self.radius);
        let nz = normal_component(outz, self.radius);
        proof {
            let hb = 0x8000_0000_0000_0000int;
            lemma_abs_mul_le(du.x as int, outx as int, UNIT as int, hb);
            lemma_abs_mul_le(du.y as int, outy as int, UNIT as int, hb);
            lemma_abs_mul_le(du.z as int, outz as int, UNIT as int, hb);
        }
        let dn: i128 = wide_mul(du.x, outx) + wide_mul(du.y, outy) + wide_mul(du.z, outz);
        let front = dn < 0;
        HitRecord {
            hit_point: hp,
            normal: if front {
                Vec3 { x: nx, y: ny, z: nz }
            } else {
                Vec3 { x: -nx, y: -ny, z: -nz }
            },
            material: self.material,
            ray_length: t,
            uv: Uv { u: 0, v: 0 },
            front_face: front,
        }
    }

    /// The density of drawing a direction from `origin` toward this
    /// sphere when sampling it as a light: the inverse of the solid
    /// angle the sphere subtends, and zero for a direction that does
    /// not meet the sphere at all, from inside it, or when the angle
    /// rounds away.
    #[verifier::opaque]
    pub open spec fn spec_pdf_value(self, origin: Vec3, direction: Vec3) -> i64 {
        let probe = Ray { origin, direction, time: 0 };
        if !vec_within(direction, GEOM_BOUND as int) || self.spec_hit(
            probe,
            Interval { min: crate::RAY_EPSILON, max: GEOM_BOUND },
        ) is None {
            0
        } else {
        let oc = sub3(self.center, origin);
        let d2 = dot3(oc, oc);
        let r2 = self.radius * self.radius;
        if d2 <= r2 {
            0
        } else {
            let q = UNIT as int * UNIT as int - tdiv(r2 * (UNIT as int * UNIT as int), d2);
            let cos_tm = sqrt_floor(q as nat) as int;
            let solid = tdiv(2 * PI_UNITS as int * (UNIT as int - cos_tm), UNIT as int);
            if solid <= 0 {
                0
            } else {
                tdiv(UNIT as int * UNIT as int, solid) as i64
            }
        }
        }
    }

    /// Only this sphere's own geometry: a direction that misses gets
    /// zero density, one that hits gets the inverse solid angle.
    #[verifier::rlimit(100)]
    pub fn pdf_value(&self, origin: &Vec3, direction: &Vec3) -> (res: i64)
        requires
            self.wf(),
            vec_within(*origin, crate::ORIGIN_BOUND as int),
        ensures
            res == self.spec_pdf_value(*origin, *direction),
            0 <= res <= UNIT as int * UNIT as int,
    {
        proof {
            reveal(Sphere::spec_pdf_value);
        }
        if !(-GEOM_BOUND <= direction.x && direction.x <= GEOM_BOUND && -GEOM_BOUND <= direction.y
            && direction.y <= GEOM_BOUND && -GEOM_BOUND <= direction.z && direction.z
            <= GEOM_BOUND) {
            return 0;
        }
        let probe = Ray { origin: *origin, direction: *direction, time: 0 };
        if self.hit(&probe, &Interval { min: crate::RAY_EPSILON, max: GEOM_BOUND }).is_none() {
            return 0;
        }
        let ocx = self.center.x - origin.x;
        let ocy = self.center.y - origin.y;
        let ocz = self.center.z - origin.z;
        proof {
            let ob = 0x200_0000_0000int;
            lemma_abs_mul_le(ocx as int, ocx as int, ob, ob);
            lemma_abs_mul_le(ocy as int, ocy as int, ob, ob);
            lemma_abs_mul_le(ocz as int, ocz as int, ob, ob);
            lemma_abs_mul_le(self.radius as int, self.radius as int, GEOM_BOUND as int, GEOM_BOUND as int);
        }
        let d2: i128 = wide_mul(ocx, ocx) + wide_mul(ocy, ocy) + wide_mul(ocz, ocz);
        let r2: i128 = wide_mul(self.radius, self.radius);
        if d2 <= r2 {
            return 0;
        }
        proof {
            lemma_abs_mul_le(
                r2 as int,
                UNIT as int * UNIT as int,
                0x4000_0000_0000_0000,
                UNIT as int * UNIT as int,
            );
            lemma_tdiv_bound(
                r2 as int * (UNIT as int * UNIT as int),
                d2 as int,
                0x4000_0000_0000_0000int * (UNIT as int * UNIT as int),
            );
            assert(r2 >= 1) by (nonlinear_arith)
                requires
                    r2 == self.radius as int * self.radius as int,
                    self.radius >= 1;
            assert(tdiv(r2 as int * (UNIT as int * UNIT as int), d2 as int) >= 0) by {
                lemma_tdiv_bound(
                    r2 as int * (UNIT as int * UNIT as int),
                    d2 as int,
                    0x4000_0000_0000_0000int * (UNIT as int * UNIT as int),
                );
            }
        }
        let scaled: i128 = div_i128(r2 * ((UNIT as i128) * (UNIT as i128)), d2);
        let q: i128 = (UNIT as i128) * (UNIT as i128) - scaled;
        if q < 0 {
            proof {
                assert(false) by (nonlinear_arith)
                    requires
                        q == UNIT as int * UNIT as int - tdiv(
                            r2 as int * (UNIT as int * UNIT as int),
                            d2 as int,
                        ),
                        r2 as int * (UNIT as int * UNIT as int) <= d2 as int * (UNIT as int
                            * UNIT as int),
                        d2 > 0,
                        r2 >= 0,
                        q < 0;
            }
        }
        proof {
            lemma_abs_mul_le(r2 as int, UNIT as int * UNIT as int, d2 as int, UNIT as int * UNIT as int);
        }
        let cos_tm: i128 = isqrt_u128(q as u128) as i128;
        proof {
            lemma_sqrt_floor_bounds(q as nat);
            let s = sqrt_floor(q as nat);
            assert(s <= UNIT) by (nonlinear_arith)
                requires
                    s * s <= q,
                    q <= UNIT as int * UNIT as int,
                    UNIT == 65536,
                    s >= 0;
        }
        let solid_num: i64 = 2 * PI_UNITS * ((UNIT as i64) - (cos_tm as i64));
        let solid: i64 = solid_num / UNIT;
        if solid <= 0 {
            return 0;
        }
        let v: i128 = div_i128((UNIT as i128) * (UNIT as i128), solid as i128);
        proof {
            lemma_tdiv_bound(UNIT as int * UNIT as int, solid as int, UNIT as int * UNIT as int);
        }
        v as i64
    }

    /// A direction from the origin toward a jittered point of the
    /// sphere; never the zero vector.
    pub fn random_direction(&self, origin: &Vec3, rng: &mut crate::rng::RngState) -> (res: Vec3)
        requires
            self.wf(),
            vec_within(*origin, crate::ORIGIN_BOUND as int),
        ensures
            vec_within(res, 0x400_0000_0000),
            res.spec_norm2() != 0,
    {
        let ball = crate::pdf::random_in_ball(rng);
        let jx = crate::geo::fixed_mul(ball.x, self.radius);
        let jy = crate::geo::fixed_mul(ball.y, self.radius);
        let jz = crate::geo::fixed_mul(ball.z, self.radius);
        proof {
            lemma_abs_mul_le(ball.x as int, self.radius as int, UNIT as int, GEOM_BOUND as int);
            lemma_abs_mul_le(ball.y as int, self.radius as int, UNIT as int, GEOM_BOUND as int);
            lemma_abs_mul_le(ball.z as int, self.radius as int, UNIT as int, GEOM_BOUND as int);
            lemma_tdiv_bound(ball.x as int * self.radius as int, crate::UNIT as int, GEOM_BOUND as int);
            lemma_tdiv_bound(ball.y as int * self.radius as int, crate::UNIT as int, GEOM_BOUND as int);
            lemma_tdiv_bound(ball.z as int * self.radius as int, crate::UNIT as int, GEOM_BOUND as int);
        }
        let dx = self.center.x - origin.x + jx;
        let dy = self.center.y - origin.y + jy;
        let dz = self.center.z - origin.z + jz;
        if dx == 0 && dy == 0 && dz == 0 {
            let r = Vec3 { x: UNIT, y: 0, z: 0 };
            proof {
                crate::geo::lemma_vec_nonzero_norm2(r);
            }
            r
        } else {
            let r = Vec3 { x: dx, y: dy, z: dz };
            proof {
                crate::geo::lemma_vec_nonzero_norm2(r);
            }
            r
        }
    }
}

/// A normal component: the outward vector scaled to unit length by
/// the radius, clamped into the unit range against rounding.
pub open spec fn clamp_unit(v: int) -> int {
    if v > UNIT as int {
        UNIT as int
    } else if v < -(UNIT as int) {
        -(UNIT as int)
    } else {
        v
    }
}

fn normal_component(out: i64, radius: i64) -> (r: i64)
    requires
        radius >= 1,
    ensures
        r == clamp_unit(tdiv(out as int * UNIT as int, radius as int)),
{
    proof {
        lemma_abs_mul_le(out as int, UNIT as int, 0x8000_0000_0000_0000, UNIT as int);
        lemma_tdiv_bound(
            out as int * UNIT as int,
            radius as int,
            0x8000_0000_0000_0000int * UNIT as int,
        );
    }
    let q = div_i128(wide_mul(out, UNIT), radius as i128);
    if q > UNIT as i128 {
        UNIT
    } else if q < -(UNIT as i128) {
        -UNIT
    } else {
        q as i64
    }
}

} // verus!
