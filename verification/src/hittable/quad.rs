//! Parallelogram primitive: a corner and two edge vectors. It
//! intersects exactly as its two triangle halves, reusing the exact
//! triangle kernel; as a light it offers solid-angle sampling with
//! the classic distance-squared over cosine-times-area density.
use vstd::prelude::*;

verus! {

use crate::geo::{Vec3, Ray, tdiv, vec_within, ray_within_bounds, wide_mul, div_i128, fixed_mul,
    lemma_abs_mul_le, lemma_tdiv_bound, lemma_sqrt_floor_bounds};
use crate::aabb::{Aabb, aabb_within_bounds};
use crate::interval::Interval;
use crate::material::HitRecord;
use crate::hittable::Hittables;
use crate::hittable::triangle::Triangle;
use crate::{GEOM_BOUND, RAY_EPSILON, UNIT};

/// Magnitude bound on a quad's corner and edge components, a quarter
/// of the geometry bound so that every corner stays in range.
pub const QUAD_SPAN: i64 = 0x2000_0000;

/// A span clamped into the range whose square still fits the
/// density arithmetic (hit points stay far inside it).
pub open spec fn clamp_span(v: int) -> int {
    if v > 0x1_0000_0000_0000 {
        0x1_0000_0000_0000
    } else if v < -0x1_0000_0000_0000 {
        -0x1_0000_0000_0000
    } else {
        v
    }
}

pub struct Quad {
    pub q: Vec3,
    pub u: Vec3,
    pub v: Vec3,
    /// The half at the corner `q`.
    pub tri1: Triangle,
    /// The half at the opposite corner `q + u + v`.
    pub tri2: Triangle,
    pub material: u32,
    /// Whether this quad is used as a scene light.
    pub light: bool,
    pub b_box: Aabb,
}

fn clamp_span_exec(v: i128) -> (r: i64)
    ensures
        r == clamp_span(v as int),
        -0x1_0000_0000_0000 <= r <= 0x1_0000_0000_0000,
{
    if v > 0x1_0000_0000_0000i128 {
        0x1_0000_0000_0000
    } else if v < -0x1_0000_0000_0000i128 {
        -0x1_0000_0000_0000
    } else {
        v as i64
    }
}

impl Quad {
    pub open spec fn wf(self) -> bool {
        &&& vec_within(self.q, QUAD_SPAN as int)
        &&& vec_within(self.u, QUAD_SPAN as int)
        &&& vec_within(self.v, QUAD_SPAN as int)
        &&& self.tri1.wf()
        &&& self.tri2.wf()
        &&& self.tri1.v0 == self.q
        &&& self.tri1.v1 == (Vec3 {
            x: (self.q.x + self.u.x) as i64,
            y: (self.q.y + self.u.y) as i64,
            z: (self.q.z + self.u.z) as i64,
        })
        &&& self.tri1.v2 == (Vec3 {
            x: (self.q.x + self.v.x) as i64,
            y: (self.q.y + self.v.y) as i64,
            z: (self.q.z + self.v.z) as i64,
        })
        &&& self.tri2.v0 == self.tri1.v1
        &&& self.tri2.v1 == (Vec3 {
            x: (self.tri1.v1.x + self.v.x) as i64,
            y: (self.tri1.v1.y + self.v.y) as i64,
            z: (self.tri1.v1.z + self.v.z) as i64,
        })
        &&& self.tri2.v2 == self.tri1.v2
        &&& self.tri1.material == self.material
        &&& self.tri2.material == self.material
        &&& self.b_box == Aabb::spec_combine(self.tri1.b_box, self.tri2.b_box)
        &&& aabb_within_bounds(self.b_box)
    }

    /// A parallelogram from a corner and two edges, split into its
    /// two triangle halves at construction; the flag says whether
    /// scene assembly uses it as a light.
    pub fn create(q: Vec3, u: Vec3, v: Vec3, material: u32, light: bool) -> (r: Hittables)
        requires
            vec_within(q, QUAD_SPAN as int),
            vec_within(u, QUAD_SPAN as int),
            vec_within(v, QUAD_SPAN as int),
        ensures
            r.wf(),
            r matches Hittables::QuadType(qd) && qd.q == q && qd.u == u && qd.v == v && qd.material
                == material && qd.light == light,
            r.spec_sampleable(),
    {
        let qu = q.add(&u);
        let qv = q.add(&v);
        let quv = qu.add(&v);
        let tri1 = Triangle::new(q, qu, qv, material);
        let tri2 = Triangle::new(qu, quv, qv, material);
        let b_box = Aabb::combine_aabbs(tri1.bounding_box(), tri2.bounding_box());
        Hittables::QuadType(Quad { q, u, v, tri1, tri2, material, light, b_box })
    }

    /// Nearest hit among the two halves: the first is probed, a hit
    /// there shrinks the interval for the second, and the second's
    /// (at least as near) hit wins when both report one.
    pub open spec fn spec_hit(self, r: Ray, ray_length: Interval) -> Option<HitRecord> {
        match self.tri1.spec_hit(r, ray_length) {
            None => self.tri2.spec_hit(r, ray_length),
            Some(h) => match self.tri2.spec_hit(
                r,
                Interval { min: ray_length.min, max: h.ray_length },
            ) {
                None => Some(h),
                Some(h2) => Some(h2),
            },
        }
    }

    pub fn hit(&self, r: &Ray, ray_length: &Interval) -> (res: Option<HitRecord>)
        requires
            self.wf(),
            ray_within_bounds(*r),
        ensures
            res == self.spec_hit(*r, *ray_length),
    {
        match self.tri1.hit(r, ray_length) {
            None => self.tri2.hit(r, ray_length),
            Some(h) => {
                let shrunk = Interval { min: ray_length.min, max: h.ray_length };
                match self.tri2.hit(r, &shrunk) {
                    None => Some(h),
                    Some(h2) => Some(h2),
                }
            },
        }
    }

    /// The density of drawing a direction from `origin` toward this
    /// quad as a light: distance squared over the cosine of the
    /// arrival angle times the area, and zero for a direction that
    /// misses, a degenerate quad, or a grazing angle.
    #[verifier::opaque]
    pub open spec fn spec_pdf_value(self, origin: Vec3, direction: Vec3) -> i64 {
        if !vec_within(direction, GEOM_BOUND as int) || direction.spec_norm2() == 0 {
            0
        } else {
            let probe = Ray { origin, direction, time: 0 };
            match self.spec_hit(probe, Interval { min: RAY_EPSILON, max: GEOM_BOUND }) {
                None => 0,
                Some(h) => {
                    let dx = clamp_span(h.hit_point.x - origin.x);
                    let dy = clamp_span(h.hit_point.y - origin.y);
                    let dz = clamp_span(h.hit_point.z - origin.z);
                    let d2 = dx * dx + dy * dy + dz * dz;
                    let n = Vec3 {
                        x: (self.u.y * self.v.z - self.u.z * self.v.y) as i64,
                        y: (self.u.z * self.v.x - self.u.x * self.v.z) as i64,
                        z: (self.u.x * self.v.y - self.u.y * self.v.x) as i64,
                    };
                    if n.x == 0 && n.y == 0 && n.z == 0 {
                        0
                    } else {
                        let len_n = n.spec_length();
                        let ud = direction.spec_unit();
                        let cos_raw = ud.x * n.x + ud.y * n.y + ud.z * n.z;
                        let acos = if cos_raw >= 0 {
                            cos_raw
                        } else {
                            -cos_raw
                        };
                        let cos_q = tdiv(acos, len_n);
                        let cos_f = if cos_q > 2 * UNIT as int {
                            2 * UNIT as int
                        } else {
                            cos_q
                        };
                        let area_f = tdiv(len_n, UNIT as int);
                        if cos_f <= 0 || area_f <= 0 {
                            0
                        } else {
                            let p = tdiv(d2 * UNIT as int, cos_f * area_f);
                            if p > UNIT as int * UNIT as int {
                                (UNIT as int * UNIT as int) as i64
                            } else {
                                p as i64
                            }
                        }
                    }
                },
            }
        }
    }

    /// Only this quad's own geometry: the classic solid-angle density
    /// of area light sampling.
    #[verifier::rlimit(100)]
    pub fn pdf_value(&self, origin: &Vec3, direction: &Vec3) -> (res: i64)
        requires
            self.wf(),
            vec_within(*origin, crate::ORIGIN_BOUND as int),
        ensures
            res == self.spec_pdf_value(*origin, *direction),
            0 <= res <= UNIT as int * UNIT as int,
    {
        proof {
            reveal(Quad::spec_pdf_value);
        }
        if !(-GEOM_BOUND <= direction.x && direction.x <= GEOM_BOUND && -GEOM_BOUND <= direction.y
            && direction.y <= GEOM_BOUND && -GEOM_BOUND <= direction.z && direction.z
            <= GEOM_BOUND) {
            return 0;
        }
        if direction.x == 0 && direction.y == 0 && direction.z == 0 {
            proof {
                assert(direction.spec_norm2() == 0) by (nonlinear_arith)
                    requires
                        direction.x == 0 && direction.y == 0 && direction.z == 0;
            }
            return 0;
        }
        proof {
            crate::geo::lemma_vec_nonzero_norm2(*direction);
        }
        let probe = Ray { origin: *origin, direction: *direction, time: 0 };
        let hit = self.hit(&probe, &Interval { min: RAY_EPSILON, max: GEOM_BOUND });
        let h = match hit {
            None => {
                return 0;
            },
            Some(h) => h,
        };
        let dx = clamp_span_exec((h.hit_point.x as i128) - (origin.x as i128));
        let dy = clamp_span_exec((h.hit_point.y as i128) - (origin.y as i128));
        let dz = clamp_span_exec((h.hit_point.z as i128) - (origin.z as i128));
        proof {
            let hb = 0x1_0000_0000_0000int;
            lemma_abs_mul_le(dx as int, dx as int, hb, hb);
            lemma_abs_mul_le(dy as int, dy as int, hb, hb);
            lemma_abs_mul_le(dz as int, dz as int, hb, hb);
            crate::geo::lemma_square_nonneg(dx as int);
            crate::geo::lemma_square_nonneg(dy as int);
            crate::geo::lemma_square_nonneg(dz as int);
            lemma_abs_mul_le(self.u.y as int, self.v.z as int, QUAD_SPAN as int, QUAD_SPAN as int);
            lemma_abs_mul_le(self.u.z as int, self.v.y as int, QUAD_SPAN as int, QUAD_SPAN as int);
            lemma_abs_mul_le(self.u.z as int, self.v.x as int, QUAD_SPAN as int, QUAD_SPAN as int);
            lemma_abs_mul_le(self.u.x as int, self.v.z as int, QUAD_SPAN as int, QUAD_SPAN as int);
            lemma_abs_mul_le(self.u.x as int, self.v.y as int, QUAD_SPAN as int, QUAD_SPAN as int);
            lemma_abs_mul_le(self.u.y as int, self.v.x as int, QUAD_SPAN as int, QUAD_SPAN as int);
        }
        let d2: i128 = wide_mul(dx, dx) + wide_mul(dy, dy) + wide_mul(dz, dz);
        proof {
            assert(d2 <= 3 * (0x1_0000_0000_0000int * 0x1_0000_0000_0000));
        }
        let nx = (wide_mul(self.u.y, self.v.z) - wide_mul(self.u.z, self.v.y)) as i64;
        let ny = (wide_mul(self.u.z, self.v.x) - wide_mul(self.u.x, self.v.z)) as i64;
        let nz = (wide_mul(self.u.x, self.v.y) - wide_mul(self.u.y, self.v.x)) as i64;
        let n = Vec3 { x: nx, y: ny, z: nz };
        if n.x == 0 && n.y == 0 && n.z == 0 {
            return 0;
        }
        proof {
            crate::geo::lemma_vec_nonzero_norm2(n);
            assert(n.spec_norm2() >= 0) by (nonlinear_arith);
        }
        let len_n = n.length();
        proof {
            lemma_sqrt_floor_bounds(n.spec_norm2() as nat);
            assert(len_n > 0) by (nonlinear_arith)
                requires
                    len_n >= 0,
                    (len_n + 1) * (len_n + 1) > n.spec_norm2(),
                    n.spec_norm2() > 0;
        }
        let ud = direction.unit();
        proof {
            let nb = 0x800_0000_0000_0000int;
            lemma_abs_mul_le(ud.x as int, n.x as int, UNIT as int, nb);
            lemma_abs_mul_le(ud.y as int, n.y as int, UNIT as int, nb);
            lemma_abs_mul_le(ud.z as int, n.z as int, UNIT as int, nb);
        }
        let cos_raw: i128 = wide_mul(ud.x, n.x) + wide_mul(ud.y, n.y) + wide_mul(ud.z, n.z);
        let acos: i128 = if cos_raw >= 0 {
            cos_raw
        } else {
            -cos_raw
        };
        proof {
            assert(acos as int <= 0x2_0000_0000_0000_0000_0000int * (len_n as int))
                by (nonlinear_arith)
                requires
                    0 <= acos <= 3 * ((UNIT as int) * 0x800_0000_0000_0000),
                    len_n >= 1;
            lemma_tdiv_bound(acos as int, len_n as int, 0x2_0000_0000_0000_0000_0000);
        }
        let cos_q = div_i128(acos, len_n as i128);
        let cos_f: i64 = if cos_q > 2 * (UNIT as i128) {
            2 * UNIT
        } else {
            cos_q as i64
        };
        let area_f = len_n / UNIT;
        if cos_f <= 0 || area_f <= 0 {
            return 0;
        }
        proof {
            lemma_abs_mul_le(d2 as int, UNIT as int, 0x4_0000_0000_0000_0000_0000_0000, UNIT as int);
            assert(d2 >= 0);
            assert(cos_f as int * area_f as int >= 1) by (nonlinear_arith)
                requires
                    cos_f >= 1,
                    area_f >= 1;
            lemma_abs_mul_le(cos_f as int, area_f as int, 2 * UNIT as int, 0x8000_0000_0000_0000);
            assert(d2 as int * UNIT as int <= (0x4_0000_0000_0000_0000_0000_0000int * (
            UNIT as int)) * (cos_f as int * area_f as int)) by (nonlinear_arith)
                requires
                    0 <= d2 <= 0x4_0000_0000_0000_0000_0000_0000,
                    cos_f as int * area_f as int >= 1,
                    UNIT == 65536;
            lemma_tdiv_bound(
                d2 as int * UNIT as int,
                cos_f as int * area_f as int,
                0x4_0000_0000_0000_0000_0000_0000int * (UNIT as int),
            );
        }
        let denom: i128 = wide_mul(cos_f, area_f);
        let p = div_i128(d2 * (UNIT as i128), denom);
        if p > (UNIT as i128) * (UNIT as i128) {
            UNIT * UNIT
        } else {
            proof {
                assert(p >= 0) by (nonlinear_arith)
                    requires
                        p == tdiv(d2 as int * UNIT as int, cos_f as int * area_f as int),
                        d2 >= 0,
                        cos_f as int * area_f as int >= 1,
                        tdiv(d2 as int * UNIT as int, cos_f as int * area_f as int) == (if d2 as int
                            * UNIT as int >= 0 {
                            (d2 as int * UNIT as int) / (cos_f as int * area_f as int)
                        } else {
                            -((-(d2 as int * UNIT as int)) / (cos_f as int * area_f as int))
                        });
            }
            p as i64
        }
    }

    /// A direction from the origin toward a uniformly jittered point
    /// of the quad; never the zero vector.
    pub fn random_direction(&self, origin: &Vec3, rng: &mut crate::rng::RngState) -> (res: Vec3)
        requires
            self.wf(),
            vec_within(*origin, crate::ORIGIN_BOUND as int),
        ensures
            vec_within(res, 0x400_0000_0000),
            res.spec_norm2() != 0,
    {
        let a = rng.next_unit();
        let b = rng.next_unit();
        proof {
            lemma_abs_mul_le(a as int, self.u.x as int, UNIT as int, QUAD_SPAN as int);
            lemma_abs_mul_le(a as int, self.u.y as int, UNIT as int, QUAD_SPAN as int);
            lemma_abs_mul_le(a as int, self.u.z as int, UNIT as int, QUAD_SPAN as int);
            lemma_abs_mul_le(b as int, self.v.x as int, UNIT as int, QUAD_SPAN as int);
            lemma_abs_mul_le(b as int, self.v.y as int, UNIT as int, QUAD_SPAN as int);
            lemma_abs_mul_le(b as int, self.v.z as int, UNIT as int, QUAD_SPAN as int);
            lemma_tdiv_bound(a as int * self.u.x as int, UNIT as int, QUAD_SPAN as int);
            lemma_tdiv_bound(a as int * self.u.y as int, UNIT as int, QUAD_SPAN as int);
            lemma_tdiv_bound(a as int * self.u.z as int, UNIT as int, QUAD_SPAN as int);
            lemma_tdiv_bound(b as int * self.v.x as int, UNIT as int, QUAD_SPAN as int);
            lemma_tdiv_bound(b as int * self.v.y as int, UNIT as int, QUAD_SPAN as int);
            lemma_tdiv_bound(b as int * self.v.z as int, UNIT as int, QUAD_SPAN as int);
        }
        let px = self.q.x + fixed_mul(a, self.u.x) + fixed_mul(b, self.v.x);
        let py = self.q.y + fixed_mul(a, self.u.y) + fixed_mul(b, self.v.y);
        let pz = self.q.z + fixed_mul(a, self.u.z) + fixed_mul(b, self.v.z);
        let dx = px - origin.x;
        let dy = py - origin.y;
        let dz = pz - origin.z;
        if dx == 0 && dy == 0 && dz == 0 {
            let r = Vec3 { x: UNIT, y: 0, z: 0 };
            proof {
                crate::geo::lemma_vec_nonzero_norm2(r);
            }
            r
        } else {
            let r = Vec3 { x: dx, y: dy, z: dz };
            proof {
                crate::geo::lemma_vec_nonzero_norm2(r);
            }
            r
        }
    }
}

} // verus!
