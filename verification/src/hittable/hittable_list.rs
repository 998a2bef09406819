//! A container of scene objects: intersection tries every child and
//! keeps the nearest hit, the bounding box is the union of the
//! children's boxes.
use vstd::prelude::*;

verus! {

use crate::geo::{Ray, ray_within_bounds};
use crate::aabb::Aabb;
use crate::interval::Interval;
use crate::material::HitRecord;
use crate::hittable::{Hittables, scan_hittables, list_boxes, all_hittables_wf};

pub struct HittableList {
    pub objects: Vec<Hittables>,
    pub b_box: Aabb,
}

impl HittableList {
    /// An empty container.
    pub fn create() -> (r: Hittables)
        ensures
            r.wf(),
            r matches Hittables::HittableListType(l) && l.objects@.len() == 0,
    {
        let l = HittableList {
            objects: Vec::new(),
            b_box: Aabb {
                min: crate::geo::Vec3 { x: 0, y: 0, z: 0 },
                max: crate::geo::Vec3 { x: 0, y: 0, z: 0 },
            },
        };
        proof {
            assert(l.objects@ =~= Seq::<Hittables>::empty());
            assert(l.objects@.len() == 0);
            assert(list_boxes(l.objects@) == l.b_box);
            assert(all_hittables_wf(l.objects@));
            assert(Hittables::HittableListType(l).wf());
        }
        Hittables::HittableListType(l)
    }

    /// Adds a child and grows the union box around it.
    pub fn add(&mut self, hittable: Hittables)
        requires
            old(self).b_box == list_boxes(old(self).objects@),
            all_hittables_wf(old(self).objects@),
            hittable.wf(),
        ensures
            final(self).objects@ == old(self).objects@.push(hittable),
            final(self).b_box == list_boxes(final(self).objects@),
            all_hittables_wf(final(self).objects@),
    {
        let b = Aabb::combine_aabbs(&self.b_box, hittable.bounding_box());
        self.objects.push(hittable);
        self.b_box = b;
        proof {
            assert(self.objects@.drop_last() =~= old(self).objects@);
        }
    }
}

/// Tries every child in order; each hit shrinks the interval's far
/// end to its distance, so the final result is the nearest hit.
pub fn list_hit(l: &HittableList, r: &Ray, ray_length: &Interval) -> (res: Option<HitRecord>)
    requires
        all_hittables_wf(l.objects@),
        ray_within_bounds(*r),
    ensures
        res == scan_hittables(l.objects@, *r, *ray_length),
    decreases l.objects@,
{
    let mut best: Option<HitRecord> = None;
    let mut cur: Interval = Interval { min: ray_length.min, max: ray_length.max };
    let mut i: usize = 0;
    proof {
        assert(l.objects@.skip(0) =~= l.objects@);
    }
    while i < l.objects.len()
        invariant
            0 <= i <= l.objects@.len(),
            all_hittables_wf(l.objects@),
            ray_within_bounds(*r),
            cur.min == ray_length.min,
            best is Some ==> cur.max == best->Some_0.ray_length,
            best is None ==> cur == *ray_length,
            scan_hittables(l.objects@, *r, *ray_length) == (match scan_hittables(
                l.objects@.skip(i as int),
                *r,
                cur,
            ) {
                None => best,
                Some(h) => Some(h),
            }),
        decreases l.objects@.len() - i,
    {
        let child = &l.objects[i];
        let ghost rest = l.objects@.skip(i as int);
        let ch = child.hit(r, &cur);
        proof {
            assert(rest[0] == l.objects@[i as int]);
            assert(rest.drop_first() =~= l.objects@.skip(i as int + 1));
        }
        match ch {
            None => {
            },
            Some(h) => {
                cur = Interval { min: ray_length.min, max: h.ray_length };
                best = Some(h);
            },
        }
        i = i + 1;
    }
    proof {
        assert(l.objects@.skip(l.objects@.len() as int) =~= Seq::<Hittables>::empty());
    }
    best
}

} // verus!
