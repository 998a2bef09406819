//! A decorator for motion blur: the child appears moved along a blur
//! direction by the ray's exposure time (clamped into one exposure).
//! Intersection shifts the ray against that offset, delegates, and
//! shifts the hit point back; the box covers both exposure extremes.
use vstd::prelude::*;

verus! {

use crate::geo::{Vec3, Ray, tdiv, vec_within, ray_within_bounds, fixed_mul, lemma_abs_mul_le,
    lemma_tdiv_bound};
use crate::aabb::Aabb;
use crate::interval::Interval;
use crate::material::HitRecord;
use crate::hittable::Hittables;
use crate::hittable::translation::offset_record;
use crate::{GEOM_BOUND, UNIT};

pub struct MotionBlur {
    pub object: Box<Hittables>,
    pub blur_direction: Vec3,
    pub b_box: Aabb,
}

/// The exposure time of a ray, clamped into one exposure interval.
pub open spec fn spec_clamped_time(time: i64) -> i64 {
    if time < 0 {
        0
    } else if time > UNIT {
        UNIT
    } else {
        time
    }
}

/// How far the child has moved when the ray was fired.
pub open spec fn spec_blur_offset(blur_direction: Vec3, time: i64) -> Vec3 {
    let tc = spec_clamped_time(time) as int;
    Vec3 {
        x: tdiv(blur_direction.x * tc, UNIT as int) as i64,
        y: tdiv(blur_direction.y * tc, UNIT as int) as i64,
        z: tdiv(blur_direction.z * tc, UNIT as int) as i64,
    }
}

impl MotionBlur {
    /// Wraps a hittable so that it appears to move linearly along
    /// `blur_direction` over the exposure; the box is the union of
    /// the child's box at the two exposure extremes.
    pub fn create(object: Hittables, blur_direction: Vec3) -> (r: Hittables)
        requires
            object.wf(),
            vec_within(blur_direction, GEOM_BOUND as int),
            vec_within(object.spec_bounding_box().min, GEOM_BOUND as int),
            vec_within(object.spec_bounding_box().max, GEOM_BOUND as int),
        ensures
            r.wf(),
            r matches Hittables::MotionBlurType(m) && *m.object == object && m.blur_direction
                == blur_direction && m.b_box == Aabb::spec_combine(
                object.spec_bounding_box(),
                object.spec_bounding_box().spec_shifted(blur_direction),
            ),
    {
        let rest = object.bounding_box().shifted(&blur_direction);
        let b_box = Aabb::combine_aabbs(object.bounding_box(), &rest);
        Hittables::MotionBlurType(
            MotionBlur { object: Box::new(object), blur_direction, b_box },
        )
    }

    /// Moves the ray into the child's space at its exposure time and
    /// the hit point back out by the same offset.
    pub fn hit(&self, r: &Ray, ray_length: &Interval) -> (res: Option<HitRecord>)
        requires
            self.object.wf(),
            vec_within(self.blur_direction, GEOM_BOUND as int),
            ray_within_bounds(*r),
        ensures
            res == ({
                let off = spec_blur_offset(self.blur_direction, r.time);
                let moved = Ray {
                    origin: Vec3 {
                        x: (r.origin.x - off.x) as i64,
                        y: (r.origin.y - off.y) as i64,
                        z: (r.origin.z - off.z) as i64,
                    },
                    direction: r.direction,
                    time: r.time,
                };
                if !vec_within(moved.origin, crate::ORIGIN_BOUND as int) {
                    None::<HitRecord>
                } else {
                    match self.object.spec_hit(moved, *ray_length) {
                        None => None::<HitRecord>,
                        Some(rec) => Some(offset_record(rec, off)),
                    }
                }
            }),
        decreases *self,
    {
        let tc: i64 = if r.time < 0 {
            0
        } else if r.time > UNIT {
            UNIT
        } else {
            r.time
        };
        proof {
            lemma_abs_mul_le(self.blur_direction.x as int, tc as int, GEOM_BOUND as int, UNIT as int);
            lemma_abs_mul_le(self.blur_direction.y as int, tc as int, GEOM_BOUND as int, UNIT as int);
            lemma_abs_mul_le(self.blur_direction.z as int, tc as int, GEOM_BOUND as int, UNIT as int);
            lemma_tdiv_bound(self.blur_direction.x as int * tc as int, UNIT as int, GEOM_BOUND as int);
            lemma_tdiv_bound(self.blur_direction.y as int * tc as int, UNIT as int, GEOM_BOUND as int);
            lemma_tdiv_bound(self.blur_direction.z as int * tc as int, UNIT as int, GEOM_BOUND as int);
        }
        let off = Vec3 {
            x: fixed_mul(self.blur_direction.x, tc),
            y: fixed_mul(self.blur_direction.y, tc),
            z: fixed_mul(self.blur_direction.z, tc),
        };
        let moved_origin = r.origin.sub(&off);
        if !(-crate::ORIGIN_BOUND <= moved_origin.x && moved_origin.x <= crate::ORIGIN_BOUND
            && -crate::ORIGIN_BOUND <= moved_origin.y && moved_origin.y <= crate::ORIGIN_BOUND
            && -crate::ORIGIN_BOUND <= moved_origin.z && moved_origin.z <= crate::ORIGIN_BOUND) {
            return None;
        }
        let moved = Ray { origin: moved_origin, direction: r.direction, time: r.time };
        match self.object.hit(&moved, ray_length) {
            None => None,
            Some(rec) => Some(
                HitRecord {
                    hit_point: Vec3 {
                        x: #[verifier::truncate] (((rec.hit_point.x as i128) + (off.x as i128)) as i64),
                        y: #[verifier::truncate] (((rec.hit_point.y as i128) + (off.y as i128)) as i64),
                        z: #[verifier::truncate] (((rec.hit_point.z as i128) + (off.z as i128)) as i64),
                    },
                    normal: rec.normal,
                    material: rec.material,
                    ray_length: rec.ray_length,
                    uv: rec.uv,
                    front_face: rec.front_face,
                },
            ),
        }
    }
}

} // verus!
