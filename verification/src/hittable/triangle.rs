//! Triangle primitive: exact ray intersection over fixed-point
//! vertices. The candidate ray parameter is a ratio of integer
//! determinants; all tests (facing, barycentric bounds, distance
//! interval) are made on exact integers, and only the final parameter
//! is rounded to fixed point.
use vstd::prelude::*;

verus! {

use crate::geo::{Vec3, Uv, Ray, tdiv, vec_within, wide_mul, lemma_abs_mul_le, lemma_tdiv_bound,
    div_i128};
use crate::aabb::{Aabb, aabb_within_bounds};
use crate::interval::Interval;
use crate::material::HitRecord;
use crate::{GEOM_BOUND, UV_BOUND, UNIT};

/// Magnitude of an integer.
pub open spec fn iabs(a: int) -> int {
    if a >= 0 {
        a
    } else {
        -a
    }
}

/// x-, y- and z-components of the cross product of two int triples.
pub open spec fn cross3(u: (int, int, int), v: (int, int, int)) -> (int, int, int) {
    (u.1 * v.2 - u.2 * v.1, u.2 * v.0 - u.0 * v.2, u.0 * v.1 - u.1 * v.0)
}

pub open spec fn dot3(u: (int, int, int), v: (int, int, int)) -> int {
    u.0 * v.0 + u.1 * v.1 + u.2 * v.2
}

pub open spec fn vec_to3(v: Vec3) -> (int, int, int) {
    (v.x as int, v.y as int, v.z as int)
}

pub open spec fn sub3(a: Vec3, b: Vec3) -> (int, int, int) {
    (a.x - b.x, a.y - b.y, a.z - b.z)
}

/// Halves a triple until every component fits the bound `unit` can
/// take, keeping its direction up to rounding.
pub open spec fn shrink3(x: int, y: int, z: int) -> (int, int, int)
    decreases iabs(x) + iabs(y) + iabs(z),
{
    if -0x4000_0000_0000 <= x <= 0x4000_0000_0000 && -0x4000_0000_0000 <= y <= 0x4000_0000_0000
        && -0x4000_0000_0000 <= z <= 0x4000_0000_0000 {
        (x, y, z)
    } else {
        shrink3(tdiv(x, 2), tdiv(y, 2), tdiv(z, 2))
    }
}

proof fn lemma_shrink3_props(x: int, y: int, z: int)
    ensures
        ({
            let (a, b, c) = shrink3(x, y, z);
            &&& -0x4000_0000_0000 <= a <= 0x4000_0000_0000
            &&& -0x4000_0000_0000 <= b <= 0x4000_0000_0000
            &&& -0x4000_0000_0000 <= c <= 0x4000_0000_0000
            &&& ((x != 0 || y != 0 || z != 0) ==> (a != 0 || b != 0 || c != 0))
        }),
    decreases iabs(x) + iabs(y) + iabs(z),
{
    if -0x4000_0000_0000 <= x <= 0x4000_0000_0000 && -0x4000_0000_0000 <= y <= 0x4000_0000_0000
        && -0x4000_0000_0000 <= z <= 0x4000_0000_0000 {
    } else {
        lemma_shrink3_props(tdiv(x, 2), tdiv(y, 2), tdiv(z, 2));
    }
}

/// A triangle with texture coordinates at its corners and the index
/// of its material. The bounding box is fixed at construction.
#[derive(Clone, Copy, Debug, PartialEq, Eq, Structural)]
pub struct Triangle {
    pub v0: Vec3,
    pub v1: Vec3,
    pub v2: Vec3,
    pub uv0: Uv,
    pub uv1: Uv,
    pub uv2: Uv,
    pub material: u32,
    pub b_box: Aabb,
}

impl Triangle {
    /// Vertices and texture coordinates in range, and the box is
    /// exactly the smallest one around the three vertices.
    pub open spec fn wf(self) -> bool {
        &&& vec_within(self.v0, GEOM_BOUND as int)
        &&& vec_within(self.v1, GEOM_BOUND as int)
        &&& vec_within(self.v2, GEOM_BOUND as int)
        &&& -UV_BOUND <= self.uv0.u <= UV_BOUND && -UV_BOUND <= self.uv0.v <= UV_BOUND
        &&& -UV_BOUND <= self.uv1.u <= UV_BOUND && -UV_BOUND <= self.uv1.v <= UV_BOUND
        &&& -UV_BOUND <= self.uv2.u <= UV_BOUND && -UV_BOUND <= self.uv2.v <= UV_BOUND
        &&& self.b_box == Aabb::spec_from_points(self.v0, self.v1, self.v2)
        &&& aabb_within_bounds(self.b_box)
    }

    pub fn new(v0: Vec3, v1: Vec3, v2: Vec3, material: u32) -> (r: Triangle)
        requires
            vec_within(v0, GEOM_BOUND as int),
            vec_within(v1, GEOM_BOUND as int),
            vec_within(v2, GEOM_BOUND as int),
        ensures
            r.wf(),
            r.v0 == v0 && r.v1 == v1 && r.v2 == v2,
            r.material == material,
            r.uv0 == (Uv { u: 0, v: 0 }) && r.uv1 == (Uv { u: 0, v: 0 }) && r.uv2 == (Uv {
                u: 0,
                v: 0,
            }),
    {
        Triangle::new_with_tex_coords(
            v0,
            v1,
            v2,
            Uv { u: 0, v: 0 },
            Uv { u: 0, v: 0 },
            Uv { u: 0, v: 0 },
            material,
        )
    }

    pub fn new_with_tex_coords(
        v0: Vec3,
        v1: Vec3,
        v2: Vec3,
        uv0: Uv,
        uv1: Uv,
        uv2: Uv,
        material: u32,
    ) -> (r: Triangle)
        requires
            vec_within(v0, GEOM_BOUND as int),
            vec_within(v1, GEOM_BOUND as int),
            vec_within(v2, GEOM_BOUND as int),
            -UV_BOUND <= uv0.u <= UV_BOUND && -UV_BOUND <= uv0.v <= UV_BOUND,
            -UV_BOUND <= uv1.u <= UV_BOUND && -UV_BOUND <= uv1.v <= UV_BOUND,
            -UV_BOUND <= uv2.u <= UV_BOUND && -UV_BOUND <= uv2.v <= UV_BOUND,
        ensures
            r.wf(),
            r.v0 == v0 && r.v1 == v1 && r.v2 == v2,
            r.uv0 == uv0 && r.uv1 == uv1 && r.uv2 == uv2,
            r.material == material,
    {
        let b_box = Aabb::from_points(v0, v1, v2);
        Triangle { v0, v1, v2, uv0, uv1, uv2, material, b_box }
    }

    pub fn bounding_box(&self) -> (r: &Aabb)
        ensures
            r == self.b_box,
    {
        &self.b_box
    }

    pub fn is_light(&self) -> (r: bool)
        ensures
            r == false,
    {
        false
    }

    /// Midpoint of the bounding box along an axis (rounded toward
    /// zero); what the tree construction sorts and splits by.
    pub open spec fn spec_center(self, axis: u8) -> i64 {
        tdiv(
            self.b_box.min.spec_axis(axis) as int + self.b_box.max.spec_axis(axis) as int,
            2,
        ) as i64
    }

    pub fn center(&self, axis: u8) -> (r: i64)
        requires
            self.wf(),
        ensures
            r == self.spec_center(axis),
    {
        let lo = self.b_box.min.axis(axis);
        let hi = self.b_box.max.axis(axis);
        let s = lo + hi;
        if s >= 0 {
            s / 2
        } else {
            -((-s) / 2)
        }
    }

    /// The full intersection, mirrored by the executable `hit`:
    /// reject if the ray misses the bounding box; otherwise compute
    /// the signed volume determinant, reject parallel rays, test the
    /// barycentric coordinates on exact integers, round the hit
    /// parameter to fixed point, and test it against the interval.
    #[verifier::opaque]
    pub open spec fn spec_hit(self, r: Ray, ray_length: Interval) -> Option<HitRecord> {
        if !self.b_box.spec_hit(r) {
            None
        } else {
            self.spec_hit_core(r, ray_length)
        }
    }

    /// The intersection once the bounding box is known to be hit.
    #[verifier::opaque]
    pub open spec fn spec_hit_core(self, r: Ray, ray_length: Interval) -> Option<HitRecord> {
        {
            let e1 = sub3(self.v1, self.v0);
            let e2 = sub3(self.v2, self.v0);
            let d = vec_to3(r.direction);
            let tv = sub3(r.origin, self.v0);
            let p = cross3(d, e2);
            let det = dot3(e1, p);
            if det == 0 {
                None
            } else {
                let s: int = if det > 0 { 1int } else { -1int };
                let adet = det * s;
                let u_num = dot3(tv, p) * s;
                let q = cross3(tv, e1);
                let v_num = dot3(d, q) * s;
                if u_num < 0 || u_num > adet || v_num < 0 || u_num + v_num > adet {
                    None
                } else {
                    let t_num = dot3(e2, q) * s;
                    if t_num <= 0 {
                        None
                    } else {
                        let t = t_num * (UNIT as int) / adet;
                        if t > GEOM_BOUND as int || !(ray_length.min <= t <= ray_length.max) {
                            None
                        } else {
                            Some(self.spec_record(r, t as i64, det, adet, u_num, v_num))
                        }
                    }
                }
            }
        }
    }

    /// A ray that misses the bounding box misses the triangle: the
    /// intersection test rejects such rays outright.
    pub proof fn lemma_miss_box(self, r: Ray, ray_length: Interval)
        requires
            !self.b_box.spec_hit(r),
        ensures
            self.spec_hit(r, ray_length) is None,
    {
        reveal(Triangle::spec_hit);
    }

    /// An accepted hit lies inside the interval it was searched in.
    pub proof fn lemma_hit_in_interval(self, r: Ray, ray_length: Interval)
        requires
            self.spec_hit(r, ray_length) is Some,
        ensures
            ray_length.min <= self.spec_hit(r, ray_length)->Some_0.ray_length
                <= ray_length.max,
    {
        reveal(Triangle::spec_hit);
        reveal(Triangle::spec_hit_core);
        reveal(Triangle::spec_record);
    }

    /// Shrinking the far end of the interval down to the hit's own
    /// distance keeps exactly that hit.
    pub proof fn lemma_hit_shrink_keep(self, r: Ray, i1: Interval, i2: Interval)
        requires
            self.spec_hit(r, i1) is Some,
            i2.min == i1.min,
            self.spec_hit(r, i1)->Some_0.ray_length <= i2.max <= i1.max,
        ensures
            self.spec_hit(r, i2) == self.spec_hit(r, i1),
    {
        reveal(Triangle::spec_hit);
        reveal(Triangle::spec_hit_core);
        reveal(Triangle::spec_record);
    }

    /// The record built for an accepted hit at parameter `t`.
    #[verifier::opaque]
    pub open spec fn spec_record(
        self,
        r: Ray,
        t: i64,
        det: int,
        adet: int,
        u_num: int,
        v_num: int,
    ) -> HitRecord {
        let e1 = sub3(self.v1, self.v0);
        let e2 = sub3(self.v2, self.v0);
        let n = cross3(e1, e2);
        let sh = shrink3(n.0, n.1, n.2);
        let un = if sh.0 == 0 && sh.1 == 0 && sh.2 == 0 {
            Vec3 { x: 0, y: 0, z: UNIT }
        } else {
            Vec3 { x: sh.0 as i64, y: sh.1 as i64, z: sh.2 as i64 }.spec_unit()
        };
        let front = det > 0;
        HitRecord {
            hit_point: r.spec_at(t),
            normal: if front {
                un
            } else {
                Vec3 { x: (-un.x) as i64, y: (-un.y) as i64, z: (-un.z) as i64 }
            },
            material: self.material,
            ray_length: t,
            uv: Uv {
                u: (self.uv0.u + tdiv(
                    u_num * (self.uv1.u - self.uv0.u) + v_num * (self.uv2.u - self.uv0.u),
                    adet,
                )) as i64,
                v: (self.uv0.v + tdiv(
                    u_num * (self.uv1.v - self.uv0.v) + v_num * (self.uv2.v - self.uv0.v),
                    adet,
                )) as i64,
            },
            front_face: front,
        }
    }
}

/// Multiplying by a sign is selection or negation.
proof fn lemma_mul_sign(x: int, s: int)
    by (nonlinear_arith)
    requires
        s == 1 || s == -1,
    ensures
        x * s == (if s == 1 {
            x
        } else {
            -x
        }),
{
}

/// One cross-product component `p * t - q * s`, with its magnitude
/// bound carried along.
fn cross_comp(p: i64, q: i64, s: i64, t: i64, Ghost(ma): Ghost<int>, Ghost(mb): Ghost<int>) -> (r:
    i128)
    requires
        0 <= ma <= 0x400_0000_0000,
        0 <= mb <= 0x400_0000_0000,
        -ma <= p <= ma,
        -ma <= q <= ma,
        -mb <= s <= mb,
        -mb <= t <= mb,
    ensures
        r == p * t - q * s,
        -(2 * (ma * mb)) <= r <= 2 * (ma * mb),
{
    proof {
        lemma_abs_mul_le(p as int, t as int, ma, mb);
        lemma_abs_mul_le(q as int, s as int, ma, mb);
        lemma_abs_mul_le(ma, mb, 0x400_0000_0000, 0x400_0000_0000);
    }
    wide_mul(p, t) - wide_mul(q, s)
}

/// Dot product of an `i64` triple against an `i128` triple, with its
/// magnitude bound carried along.
fn dot_wide(
    a1: i64,
    a2: i64,
    a3: i64,
    p1: i128,
    p2: i128,
    p3: i128,
    Ghost(m): Ghost<int>,
    Ghost(mp): Ghost<int>,
) -> (r: i128)
    requires
        0 <= m <= 0x400_0000_0000,
        0 <= mp <= 0x1000_0000_0000_0000_0000,
        -m <= a1 <= m,
        -m <= a2 <= m,
        -m <= a3 <= m,
        -mp <= p1 <= mp,
        -mp <= p2 <= mp,
        -mp <= p3 <= mp,
    ensures
        r == a1 * p1 + a2 * p2 + a3 * p3,
        -(3 * (m * mp)) <= r <= 3 * (m * mp),
{
    proof {
        lemma_abs_mul_le(a1 as int, p1 as int, m, mp);
        lemma_abs_mul_le(a2 as int, p2 as int, m, mp);
        lemma_abs_mul_le(a3 as int, p3 as int, m, mp);
        lemma_abs_mul_le(m, mp, 0x400_0000_0000, 0x1000_0000_0000_0000_0000);
    }
    (a1 as i128) * p1 + (a2 as i128) * p2 + (a3 as i128) * p3
}

impl Triangle {
    /// Nearest intersection of the ray with this triangle inside the
    /// given parameter interval, or nothing.
    /// Nearest intersection of the ray with this triangle inside the
    /// given parameter interval, or nothing.
    pub fn hit(&self, r: &Ray, ray_length: &Interval) -> (res: Option<HitRecord>)
        requires
            self.wf(),
            crate::geo::ray_within_bounds(*r),
        ensures
            res == self.spec_hit(*r, *ray_length),
    {
        proof {
            reveal(Triangle::spec_hit);
        }
        if !self.b_box.hit(r) {
            return None;
        }
        self.hit_core(r, ray_length)
    }

    #[verifier::rlimit(100)]
    fn hit_core(&self, r: &Ray, ray_length: &Interval) -> (res: Option<HitRecord>)
        requires
            self.wf(),
            crate::geo::ray_within_bounds(*r),
        ensures
            res == self.spec_hit_core(*r, *ray_length),
    {
        proof {
            reveal(Triangle::spec_hit_core);
        }
        let e1 = self.v1.sub(&self.v0);
        let e2 = self.v2.sub(&self.v0);
        let tv = r.origin.sub(&self.v0);
        let d = &r.direction;
        let ghost ma: int = 0x1_0000_0000;
        let ghost mtv: int = 0x200_0000_0000;
        let ghost mcross: int = 0x2_0000_0000_0000_0000;
        let ghost mqvec: int = 0x800_0000_0000_0000_0000;
        let px = cross_comp(d.y, d.z, e2.y, e2.z, Ghost(ma), Ghost(ma));
        let py = cross_comp(d.z, d.x, e2.z, e2.x, Ghost(ma), Ghost(ma));
        let pz = cross_comp(d.x, d.y, e2.x, e2.y, Ghost(ma), Ghost(ma));
        let det = dot_wide(e1.x, e1.y, e1.z, px, py, pz, Ghost(ma), Ghost(mcross));
        proof {
            assert(px == cross3(vec_to3(r.direction), sub3(self.v2, self.v0)).0);
            assert(py == cross3(vec_to3(r.direction), sub3(self.v2, self.v0)).1);
            assert(pz == cross3(vec_to3(r.direction), sub3(self.v2, self.v0)).2);
            assert(det == dot3(
                sub3(self.v1, self.v0),
                cross3(vec_to3(r.direction), sub3(self.v2, self.v0)),
            ));
        }
        if det == 0 {
            return None;
        }
        let pos = det > 0;
        let adet: i128 = if pos { det } else { -det };
        let u_raw = dot_wide(tv.x, tv.y, tv.z, px, py, pz, Ghost(mtv), Ghost(mcross));
        let u_num: i128 = if pos { u_raw } else { -u_raw };
        let qx = cross_comp(tv.y, tv.z, e1.y, e1.z, Ghost(mtv), Ghost(ma));
        let qy = cross_comp(tv.z, tv.x, e1.z, e1.x, Ghost(mtv), Ghost(ma));
        let qz = cross_comp(tv.x, tv.y, e1.x, e1.y, Ghost(mtv), Ghost(ma));
        let v_raw = dot_wide(d.x, d.y, d.z, qx, qy, qz, Ghost(ma), Ghost(mqvec));
        let v_num: i128 = if pos { v_raw } else { -v_raw };
        proof {
            let e1i = sub3(self.v1, self.v0);
            let e2i = sub3(self.v2, self.v0);
            let di = vec_to3(r.direction);
            let tvi = sub3(r.origin, self.v0);
            let pi = cross3(di, e2i);
            let deti = dot3(e1i, pi);
            let si: int = if deti > 0 { 1int } else { -1int };
            assert(qx == cross3(tvi, e1i).0);
            assert(qy == cross3(tvi, e1i).1);
            assert(qz == cross3(tvi, e1i).2);
            lemma_mul_sign(deti, si);
            lemma_mul_sign(dot3(tvi, pi), si);
            lemma_mul_sign(dot3(di, cross3(tvi, e1i)), si);
            assert(adet == deti * si);
            assert(u_num == dot3(tvi, pi) * si);
            assert(v_num == dot3(di, cross3(tvi, e1i)) * si);
        }
        if u_num < 0 || u_num > adet || v_num < 0 || u_num + v_num > adet {
            return None;
        }
        let t_raw = dot_wide(e2.x, e2.y, e2.z, qx, qy, qz, Ghost(ma), Ghost(mqvec));
        let t_num: i128 = if pos { t_raw } else { -t_raw };
        proof {
            let e1i = sub3(self.v1, self.v0);
            let e2i = sub3(self.v2, self.v0);
            let di = vec_to3(r.direction);
            let tvi = sub3(r.origin, self.v0);
            let deti = dot3(e1i, cross3(di, e2i));
            let si: int = if deti > 0 { 1int } else { -1int };
            lemma_mul_sign(dot3(e2i, cross3(tvi, e1i)), si);
            assert(t_num == dot3(e2i, cross3(tvi, e1i)) * si);
        }
        if t_num <= 0 {
            return None;
        }
        proof {
            lemma_abs_mul_le(
                t_num as int,
                UNIT as int,
                3int * 0x1_0000_0000 * 0x800_0000_0000_0000_0000,
                UNIT as int,
            );
        }
        let t_wide: i128 = t_num * (UNIT as i128);
        let t128 = div_i128(t_wide, adet);
        if t128 > GEOM_BOUND as i128 {
            return None;
        }
        proof {
            assert(t128 >= 0) by {
                assert(tdiv(t_wide as int, adet as int) >= 0) by (nonlinear_arith)
                    requires
                        t_wide >= 0,
                        adet > 0;
            }
        }
        let t = t128 as i64;
        if !(ray_length.min <= t && t <= ray_length.max) {
            return None;
        }
        Some(self.make_record(r, t, pos, adet, u_num, v_num))
    }

    /// Builds the accepted hit's record: hit point, rounded unit
    /// normal facing the ray, and interpolated texture coordinates.
    #[verifier::rlimit(100)]
    fn make_record(&self, r: &Ray, t: i64, pos: bool, adet: i128, u_num: i128, v_num: i128) -> (res:
        HitRecord)
        requires
            self.wf(),
            crate::geo::ray_within_bounds(*r),
            0 <= t <= GEOM_BOUND,
            0 < adet <= 0x40_0000_0000_0000_0000_0000_0000,
            0 <= u_num <= adet,
            0 <= v_num <= adet,
            u_num + v_num <= adet,
            ({
                let e1 = sub3(self.v1, self.v0);
                let e2 = sub3(self.v2, self.v0);
                let d = vec_to3(r.direction);
                let det = dot3(e1, cross3(d, e2));
                &&& det != 0
                &&& pos == (det > 0)
                &&& adet == det * (if det > 0 { 1int } else { -1int })
            }),
        ensures
            res == self.spec_record(
                *r,
                t,
                dot3(sub3(self.v1, self.v0), cross3(vec_to3(r.direction), sub3(self.v2, self.v0))),
                adet as int,
                u_num as int,
                v_num as int,
            ),
    {
        proof {
            reveal(Triangle::spec_record);
        }
        let e1 = self.v1.sub(&self.v0);
        let e2 = self.v2.sub(&self.v0);
        let ghost ma: int = 0x1_0000_0000;
        let nx = cross_comp(e1.y, e1.z, e2.y, e2.z, Ghost(ma), Ghost(ma));
        let ny = cross_comp(e1.z, e1.x, e2.z, e2.x, Ghost(ma), Ghost(ma));
        let nz = cross_comp(e1.x, e1.y, e2.x, e2.y, Ghost(ma), Ghost(ma));
        let mut sx = nx;
        let mut sy = ny;
        let mut sz = nz;
        proof {
            lemma_shrink3_props(nx as int, ny as int, nz as int);
        }
        while !(-0x4000_0000_0000 <= sx && sx <= 0x4000_0000_0000 && -0x4000_0000_0000 <= sy && sy
            <= 0x4000_0000_0000 && -0x4000_0000_0000 <= sz && sz <= 0x4000_0000_0000)
            invariant
                shrink3(sx as int, sy as int, sz as int) == shrink3(nx as int, ny as int, nz as int),
                -0x4_0000_0000_0000_0000 <= sx <= 0x4_0000_0000_0000_0000,
                -0x4_0000_0000_0000_0000 <= sy <= 0x4_0000_0000_0000_0000,
                -0x4_0000_0000_0000_0000 <= sz <= 0x4_0000_0000_0000_0000,
            decreases iabs(sx as int) + iabs(sy as int) + iabs(sz as int),
        {
            sx = if sx >= 0 {
                sx / 2
            } else {
                -((-sx) / 2)
            };
            sy = if sy >= 0 {
                sy / 2
            } else {
                -((-sy) / 2)
            };
            sz = if sz >= 0 {
                sz / 2
            } else {
                -((-sz) / 2)
            };
        }
        proof {
            assert((sx as int, sy as int, sz as int) == shrink3(nx as int, ny as int, nz as int));
        }
        let un = if sx == 0 && sy == 0 && sz == 0 {
            Vec3 { x: 0, y: 0, z: UNIT }
        } else {
            let nv = Vec3 { x: sx as i64, y: sy as i64, z: sz as i64 };
            proof {
                crate::geo::lemma_vec_nonzero_norm2(nv);
            }
            nv.unit()
        };
        let normal = if pos {
            un
        } else {
            un.neg()
        };
        let hit_point = r.at(t);
        let uu = interp_uv(self.uv0.u, self.uv1.u, self.uv2.u, u_num, v_num, adet);
        let vv = interp_uv(self.uv0.v, self.uv1.v, self.uv2.v, u_num, v_num, adet);
        HitRecord {
            hit_point,
            normal,
            material: self.material,
            ray_length: t,
            uv: Uv { u: uu, v: vv },
            front_face: pos,
        }
    }
}

/// Barycentric interpolation of one texture coordinate, truncated.
fn interp_uv(c0: i64, c1: i64, c2: i64, u_num: i128, v_num: i128, adet: i128) -> (r: i64)
    requires
        0 < adet <= 0x40_0000_0000_0000_0000_0000_0000,
        0 <= u_num <= adet,
        0 <= v_num <= adet,
        u_num + v_num <= adet,
        -UV_BOUND <= c0 <= UV_BOUND,
        -UV_BOUND <= c1 <= UV_BOUND,
        -UV_BOUND <= c2 <= UV_BOUND,
    ensures
        r == c0 + tdiv(u_num * (c1 - c0) + v_num * (c2 - c0), adet as int),
{
    let d1: i64 = c1 - c0;
    let d2: i64 = c2 - c0;
    proof {
        let ui = u_num as int;
        let vi = v_num as int;
        let ai = adet as int;
        let d1i = d1 as int;
        let d2i = d2 as int;
        lemma_abs_mul_le(ui, d1i, ai, 2 * UV_BOUND as int);
        lemma_abs_mul_le(vi, d2i, ai, 2 * UV_BOUND as int);
        assert(-((4 * UV_BOUND as int) * ai) <= ui * d1i + vi * d2i <= (4 * UV_BOUND as int)
            * ai) by (nonlinear_arith)
            requires
                -(ai * (2 * UV_BOUND as int)) <= ui * d1i <= ai * (2 * UV_BOUND as int),
                -(ai * (2 * UV_BOUND as int)) <= vi * d2i <= ai * (2 * UV_BOUND as int),
                ai > 0,
                UV_BOUND == 0x20_0000;
        lemma_tdiv_bound(ui * d1i + vi * d2i, ai, 4 * UV_BOUND as int);
        lemma_abs_mul_le(ui, d1i, 0x40_0000_0000_0000_0000_0000_0000, 2 * UV_BOUND as int);
        lemma_abs_mul_le(vi, d2i, 0x40_0000_0000_0000_0000_0000_0000, 2 * UV_BOUND as int);
    }
    let num: i128 = u_num * (d1 as i128) + v_num * (d2 as i128);
    let q = div_i128(num, adet);
    c0 + (q as i64)
}

} // verus!
