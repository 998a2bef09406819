//! A decorator that rotates its child about the vertical axis. The
//! rotation's cosine and sine arrive as fixed-point scalars, computed
//! once by scene assembly. Intersection turns the ray into the
//! child's local frame, delegates, and turns the hit point and normal
//! back; the box is recomputed at construction from the child box's
//! rotated corners (the vertical extent is unchanged by a rotation
//! about the vertical axis).
use vstd::prelude::*;

verus! {

use crate::geo::{Vec3, Ray, tdiv, vec_within, ray_within_bounds, fixed_mul};
use crate::aabb::Aabb;
use crate::interval::Interval;
use crate::material::HitRecord;
use crate::hittable::Hittables;
use crate::{GEOM_BOUND, UNIT};

pub struct RotationY {
    pub object: Box<Hittables>,
    pub sin_theta: i64,
    pub cos_theta: i64,
    pub b_box: Aabb,
}

/// Horizontal coordinates rotated from local into world space.
pub open spec fn spec_rot_out(cos: int, sin: int, x: int, z: int) -> (int, int) {
    (
        tdiv(cos * x, UNIT as int) + tdiv(sin * z, UNIT as int),
        -tdiv(sin * x, UNIT as int) + tdiv(cos * z, UNIT as int),
    )
}

/// Horizontal coordinates rotated from world into local space.
pub open spec fn spec_rot_in(cos: int, sin: int, x: int, z: int) -> (int, int) {
    (
        tdiv(cos * x, UNIT as int) - tdiv(sin * z, UNIT as int),
        tdiv(sin * x, UNIT as int) + tdiv(cos * z, UNIT as int),
    )
}

pub open spec fn spec_min4(a: int, b: int, c: int, d: int) -> int {
    let m1 = if a <= b { a } else { b };
    let m2 = if c <= d { c } else { d };
    if m1 <= m2 { m1 } else { m2 }
}

pub open spec fn spec_max4(a: int, b: int, c: int, d: int) -> int {
    let m1 = if a >= b { a } else { b };
    let m2 = if c >= d { c } else { d };
    if m1 >= m2 { m1 } else { m2 }
}

/// The child's box with its four horizontal corners rotated into
/// world space; the vertical range passes through.
pub open spec fn spec_rotated_box(b: Aabb, cos: int, sin: int) -> Aabb {
    let p0 = spec_rot_out(cos, sin, b.min.x as int, b.min.z as int);
    let p1 = spec_rot_out(cos, sin, b.min.x as int, b.max.z as int);
    let p2 = spec_rot_out(cos, sin, b.max.x as int, b.min.z as int);
    let p3 = spec_rot_out(cos, sin, b.max.x as int, b.max.z as int);
    Aabb {
        min: Vec3 {
            x: spec_min4(p0.0, p1.0, p2.0, p3.0) as i64,
            y: b.min.y,
            z: spec_min4(p0.1, p1.1, p2.1, p3.1) as i64,
        },
        max: Vec3 {
            x: spec_max4(p0.0, p1.0, p2.0, p3.0) as i64,
            y: b.max.y,
            z: spec_max4(p0.1, p1.1, p2.1, p3.1) as i64,
        },
    }
}

fn min4(a: i64, b: i64, c: i64, d: i64) -> (r: i64)
    ensures
        r == spec_min4(a as int, b as int, c as int, d as int),
{
    let m1 = if a <= b { a } else { b };
    let m2 = if c <= d { c } else { d };
    if m1 <= m2 { m1 } else { m2 }
}

fn max4(a: i64, b: i64, c: i64, d: i64) -> (r: i64)
    ensures
        r == spec_max4(a as int, b as int, c as int, d as int),
{
    let m1 = if a >= b { a } else { b };
    let m2 = if c >= d { c } else { d };
    if m1 >= m2 { m1 } else { m2 }
}

/// One rotated coordinate pair, world-facing.
fn rot_out(cos: i64, sin: i64, x: i64, z: i64) -> (r: (i64, i64))
    requires
        -UNIT <= cos <= UNIT,
        -UNIT <= sin <= UNIT,
        -0x80_0000_0000 <= x <= 0x80_0000_0000,
        -0x80_0000_0000 <= z <= 0x80_0000_0000,
    ensures
        (r.0 as int, r.1 as int) == spec_rot_out(cos as int, sin as int, x as int, z as int),
        -0x100_0000_0000 <= r.0 <= 0x100_0000_0000,
        -0x100_0000_0000 <= r.1 <= 0x100_0000_0000,
{
    proof {
        rot_bounds(cos as int, sin as int, x as int, z as int);
    }
    (fixed_mul(cos, x) + fixed_mul(sin, z), -fixed_mul(sin, x) + fixed_mul(cos, z))
}

/// One rotated coordinate pair, local-facing.
fn rot_in(cos: i64, sin: i64, x: i64, z: i64) -> (r: (i64, i64))
    requires
        -UNIT <= cos <= UNIT,
        -UNIT <= sin <= UNIT,
        -0x80_0000_0000 <= x <= 0x80_0000_0000,
        -0x80_0000_0000 <= z <= 0x80_0000_0000,
    ensures
        (r.0 as int, r.1 as int) == spec_rot_in(cos as int, sin as int, x as int, z as int),
        -0x100_0000_0000 <= r.0 <= 0x100_0000_0000,
        -0x100_0000_0000 <= r.1 <= 0x100_0000_0000,
{
    proof {
        rot_bounds(cos as int, sin as int, x as int, z as int);
    }
    (fixed_mul(cos, x) - fixed_mul(sin, z), fixed_mul(sin, x) + fixed_mul(cos, z))
}

/// Each rotated term is at most the coordinate bound in magnitude,
/// because the sine and cosine are at most one.
proof fn rot_bounds(cos: int, sin: int, x: int, z: int)
    requires
        -UNIT <= cos <= UNIT,
        -UNIT <= sin <= UNIT,
        -0x80_0000_0000 <= x <= 0x80_0000_0000,
        -0x80_0000_0000 <= z <= 0x80_0000_0000,
    ensures
        -0x80_0000_0000 <= tdiv(cos * x, UNIT as int) <= 0x80_0000_0000,
        -0x80_0000_0000 <= tdiv(sin * z, UNIT as int) <= 0x80_0000_0000,
        -0x80_0000_0000 <= tdiv(sin * x, UNIT as int) <= 0x80_0000_0000,
        -0x80_0000_0000 <= tdiv(cos * z, UNIT as int) <= 0x80_0000_0000,
{
    crate::geo::lemma_abs_mul_le(cos, x, UNIT as int, 0x80_0000_0000);
    crate::geo::lemma_abs_mul_le(sin, z, UNIT as int, 0x80_0000_0000);
    crate::geo::lemma_abs_mul_le(sin, x, UNIT as int, 0x80_0000_0000);
    crate::geo::lemma_abs_mul_le(cos, z, UNIT as int, 0x80_0000_0000);
    crate::geo::lemma_abs_mul_le(0x80_0000_0000, UNIT as int, 0x80_0000_0000, UNIT as int);
    crate::geo::lemma_tdiv_bound(cos * x, UNIT as int, 0x80_0000_0000);
    crate::geo::lemma_tdiv_bound(sin * z, UNIT as int, 0x80_0000_0000);
    crate::geo::lemma_tdiv_bound(sin * x, UNIT as int, 0x80_0000_0000);
    crate::geo::lemma_tdiv_bound(cos * z, UNIT as int, 0x80_0000_0000);
}

impl RotationY {
    /// Wraps a hittable rotated about the vertical axis; the caller
    /// supplies the angle's cosine and sine in fixed point.
    pub fn create(object: Hittables, cos_theta: i64, sin_theta: i64) -> (r: Hittables)
        requires
            object.wf(),
            -UNIT <= cos_theta <= UNIT,
            -UNIT <= sin_theta <= UNIT,
            vec_within(object.spec_bounding_box().min, GEOM_BOUND as int),
            vec_within(object.spec_bounding_box().max, GEOM_BOUND as int),
        ensures
            r.wf(),
            r matches Hittables::RotationYType(rot) && *rot.object == object && rot.cos_theta
                == cos_theta && rot.sin_theta == sin_theta && rot.b_box == spec_rotated_box(
                object.spec_bounding_box(),
                cos_theta as int,
                sin_theta as int,
            ),
    {
        let b = *object.bounding_box();
        let p0 = rot_out(cos_theta, sin_theta, b.min.x, b.min.z);
        let p1 = rot_out(cos_theta, sin_theta, b.min.x, b.max.z);
        let p2 = rot_out(cos_theta, sin_theta, b.max.x, b.min.z);
        let p3 = rot_out(cos_theta, sin_theta, b.max.x, b.max.z);
        let b_box = Aabb {
            min: Vec3 {
                x: min4(p0.0, p1.0, p2.0, p3.0),
                y: b.min.y,
                z: min4(p0.1, p1.1, p2.1, p3.1),
            },
            max: Vec3 {
                x: max4(p0.0, p1.0, p2.0, p3.0),
                y: b.max.y,
                z: max4(p0.1, p1.1, p2.1, p3.1),
            },
        };
        Hittables::RotationYType(
            RotationY { object: Box::new(object), sin_theta, cos_theta, b_box },
        )
    }

    /// Rotates the ray into the child's frame, delegates, and rotates
    /// the hit point and normal back into world space. A ray or hit
    /// beyond the coordinate bounds of the rotation arithmetic is
    /// reported as a miss.
    pub fn hit(&self, r: &Ray, ray_length: &Interval) -> (res: Option<HitRecord>)
        requires
            self.object.wf(),
            -UNIT <= self.cos_theta <= UNIT,
            -UNIT <= self.sin_theta <= UNIT,
            ray_within_bounds(*r),
        ensures
            res == spec_rotation_hit(
                *self.object,
                self.cos_theta as int,
                self.sin_theta as int,
                *r,
                *ray_length,
            ),
        decreases *self,
    {
        let cos = self.cos_theta;
        let sin = self.sin_theta;
        if !(-0x80_0000_0000 <= r.origin.x && r.origin.x <= 0x80_0000_0000 && -0x80_0000_0000
            <= r.origin.z && r.origin.z <= 0x80_0000_0000) {
            return None;
        }
        let o = rot_in(cos, sin, r.origin.x, r.origin.z);
        let d = rot_in(cos, sin, r.direction.x, r.direction.z);
        if !(-GEOM_BOUND <= d.0 && d.0 <= GEOM_BOUND && -GEOM_BOUND <= d.1 && d.1 <= GEOM_BOUND) {
            return None;
        }
        let local = Ray {
            origin: Vec3 { x: o.0, y: r.origin.y, z: o.1 },
            direction: Vec3 { x: d.0, y: r.direction.y, z: d.1 },
            time: r.time,
        };
        match self.object.hit(&local, ray_length) {
            None => None,
            Some(rec) => {
                if !(-0x80_0000_0000 <= rec.hit_point.x && rec.hit_point.x <= 0x80_0000_0000
                    && -0x80_0000_0000 <= rec.hit_point.z && rec.hit_point.z <= 0x80_0000_0000
                    && -0x80_0000_0000 <= rec.normal.x && rec.normal.x <= 0x80_0000_0000
                    && -0x80_0000_0000 <= rec.normal.z && rec.normal.z <= 0x80_0000_0000) {
                    return None;
                }
                let hp = rot_out(cos, sin, rec.hit_point.x, rec.hit_point.z);
                let n = rot_out(cos, sin, rec.normal.x, rec.normal.z);
                Some(
                    HitRecord {
                        hit_point: Vec3 { x: hp.0, y: rec.hit_point.y, z: hp.1 },
                        normal: Vec3 { x: n.0, y: rec.normal.y, z: n.1 },
                        material: rec.material,
                        ray_length: rec.ray_length,
                        uv: rec.uv,
                        front_face: rec.front_face,
                    },
                )
            },
        }
    }
}

/// Mirror of the executable rotation intersection, written over the
/// child's own intersection semantics.
pub open spec fn spec_rotation_hit(
    object: Hittables,
    cos: int,
    sin: int,
    r: Ray,
    ray_length: Interval,
) -> Option<HitRecord>
    decreases object, 1int,
{
    if !(-0x80_0000_0000 <= r.origin.x <= 0x80_0000_0000 && -0x80_0000_0000 <= r.origin.z
        <= 0x80_0000_0000) {
        None
    } else {
        let o = spec_rot_in(cos, sin, r.origin.x as int, r.origin.z as int);
        let d = spec_rot_in(cos, sin, r.direction.x as int, r.direction.z as int);
        if !(-GEOM_BOUND as int <= d.0 <= GEOM_BOUND as int && -GEOM_BOUND as int <= d.1
            <= GEOM_BOUND as int) {
            None
        } else {
            let local = Ray {
                origin: Vec3 { x: o.0 as i64, y: r.origin.y, z: o.1 as i64 },
                direction: Vec3 { x: d.0 as i64, y: r.direction.y, z: d.1 as i64 },
                time: r.time,
            };
            match object.spec_hit(local, ray_length) {
                None => None,
                Some(rec) => {
                    if !(-0x80_0000_0000 <= rec.hit_point.x <= 0x80_0000_0000 && -0x80_0000_0000
                        <= rec.hit_point.z <= 0x80_0000_0000 && -0x80_0000_0000 <= rec.normal.x
                        <= 0x80_0000_0000 && -0x80_0000_0000 <= rec.normal.z <= 0x80_0000_0000) {
                        None
                    } else {
                        let hp = spec_rot_out(cos, sin, rec.hit_point.x as int, rec.hit_point.z as int);
                        let n = spec_rot_out(cos, sin, rec.normal.x as int, rec.normal.z as int);
                        Some(
                            HitRecord {
                                hit_point: Vec3 { x: hp.0 as i64, y: rec.hit_point.y, z: hp.1 as i64 },
                                normal: Vec3 { x: n.0 as i64, y: rec.normal.y, z: n.1 as i64 },
                                material: rec.material,
                                ray_length: rec.ray_length,
                                uv: rec.uv,
                                front_face: rec.front_face,
                            },
                        )
                    }
                },
            }
        }
    }
}

} // verus!
