//! A decorator that moves its child rigidly: intersection shifts the
//! incoming ray into child space, delegates, and shifts the hit
//! point back into world space; the normal is unchanged.
use vstd::prelude::*;

verus! {

use crate::geo::{Vec3, Ray, vec_within, ray_within_bounds};
use crate::aabb::Aabb;
use crate::interval::Interval;
use crate::material::HitRecord;
use crate::hittable::Hittables;
use crate::GEOM_BOUND;

pub struct Translation {
    pub object: Box<Hittables>,
    pub offset: Vec3,
    pub b_box: Aabb,
}

/// The incoming ray moved into the child's local space: its origin
/// shifted against the offset.
pub open spec fn offset_ray(r: Ray, offset: Vec3) -> Ray {
    Ray {
        origin: Vec3 {
            x: (r.origin.x - offset.x) as i64,
            y: (r.origin.y - offset.y) as i64,
            z: (r.origin.z - offset.z) as i64,
        },
        direction: r.direction,
        time: r.time,
    }
}

/// The child's hit record moved back into world space: the hit point
/// shifted by the offset, everything else kept.
pub open spec fn offset_record(rec: HitRecord, offset: Vec3) -> HitRecord {
    HitRecord {
        hit_point: Vec3 {
            x: (rec.hit_point.x + offset.x) as i64,
            y: (rec.hit_point.y + offset.y) as i64,
            z: (rec.hit_point.z + offset.z) as i64,
        },
        normal: rec.normal,
        material: rec.material,
        ray_length: rec.ray_length,
        uv: rec.uv,
        front_face: rec.front_face,
    }
}

impl Translation {
    /// Wraps a hittable so that it appears moved by `offset`; the box
    /// is the child's box shifted once, here at construction.
    pub fn create(object: Hittables, offset: Vec3) -> (r: Hittables)
        requires
            object.wf(),
            vec_within(offset, GEOM_BOUND as int),
            vec_within(object.spec_bounding_box().min, GEOM_BOUND as int),
            vec_within(object.spec_bounding_box().max, GEOM_BOUND as int),
        ensures
            r.wf(),
            r matches Hittables::TranslationType(t) && *t.object == object && t.offset == offset
                && t.b_box == object.spec_bounding_box().spec_shifted(offset),
    {
        let object_b_box = object.bounding_box().shifted(&offset);
        Hittables::TranslationType(
            Translation { object: Box::new(object), offset, b_box: object_b_box },
        )
    }

    /// Intersects by shifting the ray into child space and the hit
    /// point back out: the returned record's `hit_point` is exactly
    /// the child's hit point plus the offset.
    pub fn hit(&self, r: &Ray, ray_length: &Interval) -> (res: Option<HitRecord>)
        requires
            self.object.wf(),
            vec_within(self.offset, GEOM_BOUND as int),
            ray_within_bounds(*r),
        ensures
            res == ({
                let moved = offset_ray(*r, self.offset);
                if !vec_within(moved.origin, crate::ORIGIN_BOUND as int) {
                    None::<HitRecord>
                } else {
                    match self.object.spec_hit(moved, *ray_length) {
                        None => None::<HitRecord>,
                        Some(rec) => Some(offset_record(rec, self.offset)),
                    }
                }
            }),
        decreases *self,
    {
        let moved_origin = r.origin.sub(&self.offset);
        if !(-crate::ORIGIN_BOUND <= moved_origin.x && moved_origin.x <= crate::ORIGIN_BOUND
            && -crate::ORIGIN_BOUND <= moved_origin.y && moved_origin.y <= crate::ORIGIN_BOUND
            && -crate::ORIGIN_BOUND <= moved_origin.z && moved_origin.z <= crate::ORIGIN_BOUND) {
            return None;
        }
        let offset_r = Ray { origin: moved_origin, direction: r.direction, time: r.time };
        match self.object.hit(&offset_r, ray_length) {
            None => None,
            Some(rec) => Some(
                HitRecord {
                    hit_point: Vec3 {
                        x: #[verifier::truncate] (((rec.hit_point.x as i128) + (self.offset.x as i128)) as i64),
                        y: #[verifier::truncate] (((rec.hit_point.y as i128) + (self.offset.y as i128)) as i64),
                        z: #[verifier::truncate] (((rec.hit_point.z as i128) + (self.offset.z as i128)) as i64),
                    },
                    normal: rec.normal,
                    material: rec.material,
                    ray_length: rec.ray_length,
                    uv: rec.uv,
                    front_face: rec.front_face,
                },
            ),
        }
    }
}

} // verus!
