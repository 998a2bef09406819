//! Everything a ray can hit: primitives, containers, transform
//! decorators and the acceleration tree, as one closed set of
//! variants with a uniform intersection contract. The set is closed
//! on purpose: exhaustive matching replaces open-ended dispatch.
use vstd::prelude::*;

pub mod bvh;
pub mod constant_medium;
pub mod hittable_list;
pub mod motion_blur;
pub mod quad;
pub mod rotation_y;
pub mod sphere;
pub mod translation;
pub mod triangle;

verus! {

use crate::geo::{Vec3, Ray, vec_within, ray_within_bounds};
use crate::aabb::{Aabb, aabb_within_bounds};
use crate::interval::Interval;
use crate::material::HitRecord;
use crate::hittable::bvh::{Bvh, scan_triangles};
use crate::hittable::constant_medium::ConstantMedium;
use crate::hittable::hittable_list::HittableList;
use crate::hittable::motion_blur::MotionBlur;
use crate::hittable::quad::Quad;
use crate::hittable::rotation_y::RotationY;
use crate::hittable::sphere::Sphere;
use crate::hittable::translation::Translation;
use crate::hittable::triangle::Triangle;
use crate::{GEOM_BOUND, UNIT};

/// The closed set of scene objects.
pub enum Hittables {
    HittableListType(HittableList),
    SphereType(Sphere),
    ConstantMediumType(ConstantMedium),
    MotionBlurType(MotionBlur),
    QuadType(Quad),
    RotationYType(RotationY),
    TranslationType(Translation),
    TriangleType(Triangle),
    BvhType(Bvh),
}

impl Hittables {
    /// Well-formedness of the whole subtree: every primitive's data
    /// is in range and every stored box is exactly the one derived
    /// from what it encloses.
    pub open spec fn wf(self) -> bool
        decreases self,
    {
        match self {
            Hittables::HittableListType(l) => l.b_box == list_boxes(l.objects@) && all_hittables_wf(
                l.objects@,
            ),
            Hittables::SphereType(s) => s.wf(),
            Hittables::ConstantMediumType(c) => {
                &&& c.boundary.wf()
                &&& 1 <= c.density
                &&& c.b_box == c.boundary.spec_bounding_box()
            },
            Hittables::QuadType(qd) => qd.wf(),
            Hittables::MotionBlurType(m) => {
                &&& m.object.wf()
                &&& vec_within(m.blur_direction, GEOM_BOUND as int)
                &&& vec_within(m.object.spec_bounding_box().min, GEOM_BOUND as int)
                &&& vec_within(m.object.spec_bounding_box().max, GEOM_BOUND as int)
                &&& m.b_box == Aabb::spec_combine(
                    m.object.spec_bounding_box(),
                    m.object.spec_bounding_box().spec_shifted(m.blur_direction),
                )
            },
            Hittables::RotationYType(rot) => {
                &&& rot.object.wf()
                &&& -UNIT <= rot.cos_theta <= UNIT
                &&& -UNIT <= rot.sin_theta <= UNIT
                &&& vec_within(rot.object.spec_bounding_box().min, GEOM_BOUND as int)
                &&& vec_within(rot.object.spec_bounding_box().max, GEOM_BOUND as int)
                &&& rot.b_box == rotation_y::spec_rotated_box(
                    rot.object.spec_bounding_box(),
                    rot.cos_theta as int,
                    rot.sin_theta as int,
                )
            },
            Hittables::TranslationType(t) => {
                &&& t.object.wf()
                &&& vec_within(t.offset, GEOM_BOUND as int)
                &&& vec_within(t.object.spec_bounding_box().min, GEOM_BOUND as int)
                &&& vec_within(t.object.spec_bounding_box().max, GEOM_BOUND as int)
                &&& t.b_box == t.object.spec_bounding_box().spec_shifted(t.offset)
            },
            Hittables::TriangleType(t) => t.wf(),
            Hittables::BvhType(b) => b.wf(),
        }
    }

    /// The precomputed box that encloses every point the object can
    /// be hit at.
    pub open spec fn spec_bounding_box(self) -> Aabb {
        match self {
            Hittables::HittableListType(l) => l.b_box,
            Hittables::SphereType(s) => s.b_box,
            Hittables::ConstantMediumType(c) => c.b_box,
            Hittables::QuadType(qd) => qd.b_box,
            Hittables::MotionBlurType(m) => m.b_box,
            Hittables::RotationYType(rot) => rot.b_box,
            Hittables::TranslationType(t) => t.b_box,
            Hittables::TriangleType(t) => t.b_box,
            Hittables::BvhType(b) => b.b_box,
        }
    }

    /// The nearest-hit semantics of every variant: primitives test
    /// themselves, a list is a brute-force scan over its children,
    /// the tree behaves exactly like a scan over its triangles, and
    /// a translation intersects its child with the ray moved into
    /// child space, then moves the hit point back out.
    pub open spec fn spec_hit(self, r: Ray, ray_length: Interval) -> Option<HitRecord>
        decreases self, 0int,
    {
        match self {
            Hittables::HittableListType(l) => scan_hittables(l.objects@, r, ray_length),
            Hittables::SphereType(s) => s.spec_hit(r, ray_length),
            Hittables::ConstantMediumType(c) => constant_medium::spec_medium_hit(
                *c.boundary,
                c.density,
                c.material,
                r,
                ray_length,
            ),
            Hittables::QuadType(qd) => qd.spec_hit(r, ray_length),
            Hittables::MotionBlurType(m) => {
                let off = motion_blur::spec_blur_offset(m.blur_direction, r.time);
                let moved = Ray {
                    origin: Vec3 {
                        x: (r.origin.x - off.x) as i64,
                        y: (r.origin.y - off.y) as i64,
                        z: (r.origin.z - off.z) as i64,
                    },
                    direction: r.direction,
                    time: r.time,
                };
                if !vec_within(moved.origin, crate::ORIGIN_BOUND as int) {
                    None
                } else {
                    match m.object.spec_hit(moved, ray_length) {
                        None => None,
                        Some(rec) => Some(translation::offset_record(rec, off)),
                    }
                }
            },
            Hittables::RotationYType(rot) => rotation_y::spec_rotation_hit(
                *rot.object,
                rot.cos_theta as int,
                rot.sin_theta as int,
                r,
                ray_length,
            ),
            Hittables::TranslationType(t) => {
                let moved = translation::offset_ray(r, t.offset);
                if !vec_within(moved.origin, crate::ORIGIN_BOUND as int) {
                    None
                } else {
                    match t.object.spec_hit(moved, ray_length) {
                        None => None,
                        Some(rec) => Some(translation::offset_record(rec, t.offset)),
                    }
                }
            },
            Hittables::TriangleType(t) => t.spec_hit(r, ray_length),
            Hittables::BvhType(b) => scan_triangles(b.tris(), r, ray_length),
        }
    }

    /// Whether the object (or, through a decorator, what it wraps)
    /// emits light.
    pub open spec fn spec_is_light(self) -> bool
        decreases self,
    {
        match self {
            Hittables::SphereType(s) => s.light,
            Hittables::QuadType(qd) => qd.light,
            Hittables::MotionBlurType(m) => m.object.spec_is_light(),
            Hittables::RotationYType(rot) => rot.object.spec_is_light(),
            Hittables::TranslationType(t) => t.object.spec_is_light(),
            _ => false,
        }
    }

    /// Whether light-importance sampling is available: spheres can
    /// always be sampled, decorators forward to what they wrap, and
    /// a non-empty list samples its children.
    pub open spec fn spec_sampleable(self) -> bool
        decreases self,
    {
        match self {
            Hittables::HittableListType(l) => l.objects@.len() >= 1 && all_sampleable(l.objects@),
            Hittables::SphereType(_) => true,
            Hittables::QuadType(_) => true,
            Hittables::MotionBlurType(m) => m.object.spec_sampleable(),
            Hittables::RotationYType(rot) => rot.object.spec_sampleable(),
            Hittables::TranslationType(t) => t.object.spec_sampleable(),
            _ => false,
        }
    }

    pub fn bounding_box(&self) -> (r: &Aabb)
        ensures
            r == self.spec_bounding_box(),
    {
        match self {
            Hittables::HittableListType(l) => &l.b_box,
            Hittables::SphereType(s) => &s.b_box,
            Hittables::ConstantMediumType(c) => &c.b_box,
            Hittables::QuadType(qd) => &qd.b_box,
            Hittables::MotionBlurType(m) => &m.b_box,
            Hittables::RotationYType(rot) => &rot.b_box,
            Hittables::TranslationType(t) => &t.b_box,
            Hittables::TriangleType(t) => &t.b_box,
            Hittables::BvhType(b) => &b.b_box,
        }
    }

    pub fn is_light(&self) -> (r: bool)
        ensures
            r == self.spec_is_light(),
        decreases *self,
    {
        match self {
            Hittables::SphereType(s) => s.light,
            Hittables::QuadType(qd) => qd.light,
            Hittables::MotionBlurType(m) => m.object.is_light(),
            Hittables::RotationYType(rot) => rot.object.is_light(),
            Hittables::TranslationType(t) => t.object.is_light(),
            _ => false,
        }
    }

    /// Nearest hit of the ray against this object within the given
    /// parameter interval.
    pub fn hit(&self, r: &Ray, ray_length: &Interval) -> (res: Option<HitRecord>)
        requires
            self.wf(),
            ray_within_bounds(*r),
        ensures
            res == self.spec_hit(*r, *ray_length),
        decreases *self,
    {
        match self {
            Hittables::HittableListType(l) => hittable_list::list_hit(l, r, ray_length),
            Hittables::SphereType(s) => s.hit(r, ray_length),
            Hittables::ConstantMediumType(c) => c.hit(r, ray_length),
            Hittables::QuadType(qd) => qd.hit(r, ray_length),
            Hittables::MotionBlurType(m) => m.hit(r, ray_length),
            Hittables::RotationYType(rot) => rot.hit(r, ray_length),
            Hittables::TranslationType(t) => t.hit(r, ray_length),
            Hittables::TriangleType(t) => t.hit(r, ray_length),
            Hittables::BvhType(b) => b.hit(r, ray_length),
        }
    }
}

impl Hittables {
    /// Light-sampling density: the density of drawing `direction`
    /// from `origin` toward this light. A list averages its children;
    /// a translation asks its child, as the wrapped shape's geometry
    /// is referenced through the transform unchanged.
    pub open spec fn spec_pdf_value(self, origin: Vec3, direction: Vec3) -> i64
        decreases self,
    {
        match self {
            Hittables::HittableListType(l) => {
                let n = l.objects@.len() as int;
                if n == 0 {
                    0
                } else {
                    crate::geo::tdiv(sum_pdf_values(l.objects@, origin, direction), n) as i64
                }
            },
            Hittables::SphereType(s) => s.spec_pdf_value(origin, direction),
            Hittables::QuadType(qd) => qd.spec_pdf_value(origin, direction),
            Hittables::MotionBlurType(m) => m.object.spec_pdf_value(origin, direction),
            Hittables::RotationYType(rot) => rot.object.spec_pdf_value(origin, direction),
            Hittables::TranslationType(t) => t.object.spec_pdf_value(origin, direction),
            _ => 0,
        }
    }

    pub fn pdf_value(&self, origin: &Vec3, direction: &Vec3) -> (res: i64)
        requires
            self.wf(),
            self.spec_sampleable(),
            vec_within(*origin, crate::ORIGIN_BOUND as int),
        ensures
            res == self.spec_pdf_value(*origin, *direction),
            0 <= res <= crate::UNIT as int * crate::UNIT as int,
        decreases *self,
    {
        match self {
            Hittables::HittableListType(l) => {
                let sum = list_pdf_sum(&l.objects, origin, direction);
                proof {
                    crate::geo::lemma_tdiv_bound(
                        sum as int,
                        l.objects@.len() as int,
                        crate::UNIT as int * crate::UNIT as int,
                    );
                    crate::geo::lemma_abs_mul_le(
                        l.objects@.len() as int,
                        crate::UNIT as int * crate::UNIT as int,
                        l.objects@.len() as int,
                        crate::UNIT as int * crate::UNIT as int,
                    );
                }
                crate::geo::div_i128(sum, l.objects.len() as i128) as i64
            },
            Hittables::SphereType(s) => s.pdf_value(origin, direction),
            Hittables::QuadType(qd) => qd.pdf_value(origin, direction),
            Hittables::MotionBlurType(m) => m.object.pdf_value(origin, direction),
            Hittables::RotationYType(rot) => rot.object.pdf_value(origin, direction),
            Hittables::TranslationType(t) => t.object.pdf_value(origin, direction),
            _ => 0,
        }
    }

    /// A direction drawn toward this light: a list delegates to a
    /// uniformly chosen child, and every decorator hands the draw to
    /// the shape it wraps, unchanged. Never the zero direction. The
    /// contract states only bounds: an exact statement would need a
    /// full deterministic model of the rejection sampler over the
    /// generator state.
    pub fn random_direction(&self, origin: &Vec3, rng: &mut crate::rng::RngState) -> (res: Vec3)
        requires
            self.wf(),
            self.spec_sampleable(),
            vec_within(*origin, crate::ORIGIN_BOUND as int),
        ensures
            vec_within(res, 0x400_0000_0000),
            res.spec_norm2() != 0,
        decreases *self,
    {
        match self {
            Hittables::HittableListType(l) => {
                let n = l.objects.len();
                let draw = rng.next_u64();
                proof {
                    assert(n as u64 > 0);
                    assert(draw % (n as u64) < n as u64) by (nonlinear_arith)
                        requires
                            n as u64 > 0;
                }
                let idx = (draw % (n as u64)) as usize;
                assert(idx < l.objects@.len());
                assert(all_hittables_wf(l.objects@));
                assert(all_sampleable(l.objects@));
                assert(l.objects@[idx as int].wf());
                assert(l.objects@[idx as int].spec_sampleable());
                l.objects[idx].random_direction(origin, rng)
            },
            Hittables::SphereType(s) => s.random_direction(origin, rng),
            Hittables::QuadType(qd) => qd.random_direction(origin, rng),
            Hittables::MotionBlurType(m) => m.object.random_direction(origin, rng),
            Hittables::RotationYType(rot) => rot.object.random_direction(origin, rng),
            Hittables::TranslationType(t) => t.object.random_direction(origin, rng),
            _ => {
                let r = Vec3 { x: crate::UNIT, y: 0, z: 0 };
                proof {
                    crate::geo::lemma_vec_nonzero_norm2(r);
                }
                r
            },
        }
    }
}

/// Sums the children's light-sampling densities.
fn list_pdf_sum(objects: &Vec<Hittables>, origin: &Vec3, direction: &Vec3) -> (sum: i128)
    requires
        all_hittables_wf(objects@),
        all_sampleable(objects@),
        vec_within(*origin, crate::ORIGIN_BOUND as int),
    ensures
        sum == sum_pdf_values(objects@, *origin, *direction),
        0 <= sum <= objects@.len() as int * (crate::UNIT as int * crate::UNIT as int),
    decreases objects@,
{
    let mut sum: i128 = 0;
    let mut i: usize = 0;
    let ghost cap: int = crate::UNIT as int * crate::UNIT as int;
    while i < objects.len()
        invariant
            0 <= i <= objects@.len(),
            all_hittables_wf(objects@),
            all_sampleable(objects@),
            vec_within(*origin, crate::ORIGIN_BOUND as int),
            cap == crate::UNIT as int * crate::UNIT as int,
            sum == sum_pdf_values(objects@.take(i as int), *origin, *direction),
            0 <= sum <= i as int * cap,
        decreases objects@.len() - i,
    {
        assert(objects@[i as int].wf());
        assert(objects@[i as int].spec_sampleable());
        let v = objects[i].pdf_value(origin, direction);
        proof {
            assert(objects@.take(i as int + 1).drop_last() =~= objects@.take(i as int));
            assert(objects@.take(i as int + 1).last() == objects@[i as int]);
            assert(sum + v <= (i as int + 1) * cap) by (nonlinear_arith)
                requires
                    sum <= i as int * cap,
                    0 <= v <= cap,
                    0 <= i;
        }
        sum = sum + v as i128;
        i = i + 1;
    }
    proof {
        assert(objects@.take(objects@.len() as int) =~= objects@);
    }
    sum
}

/// Sum of the children's light-sampling densities.
pub open spec fn sum_pdf_values(s: Seq<Hittables>, origin: Vec3, direction: Vec3) -> int
    decreases s, s.len(),
{
    if s.len() == 0 {
        0
    } else {
        sum_pdf_values(s.drop_last(), origin, direction) + s.last().spec_pdf_value(
            origin,
            direction,
        ) as int
    }
}

pub open spec fn all_hittables_wf(s: Seq<Hittables>) -> bool
    decreases s, s.len(),
{
    forall|i: int| 0 <= i < s.len() ==> (#[trigger] s[i]).wf()
}

pub open spec fn all_sampleable(s: Seq<Hittables>) -> bool
    decreases s, s.len(),
{
    forall|i: int| 0 <= i < s.len() ==> (#[trigger] s[i]).spec_sampleable()
}

/// The union box of a run of children; a zero box when there are
/// none yet.
pub open spec fn list_boxes(s: Seq<Hittables>) -> Aabb
    decreases s.len(),
{
    if s.len() == 0 {
        Aabb {
            min: Vec3 { x: 0, y: 0, z: 0 },
            max: Vec3 { x: 0, y: 0, z: 0 },
        }
    } else {
        Aabb::spec_combine(list_boxes(s.drop_last()), s.last().spec_bounding_box())
    }
}

/// Brute-force nearest hit over a run of children, shrinking the far
/// end of the interval at every hit.
pub open spec fn scan_hittables(s: Seq<Hittables>, r: Ray, ray_length: Interval) -> Option<
    HitRecord,
>
    decreases s, s.len(),
{
    if s.len() == 0 {
        None
    } else {
        match s[0].spec_hit(r, ray_length) {
            None => scan_hittables(s.drop_first(), r, ray_length),
            Some(h) => match scan_hittables(
                s.drop_first(),
                r,
                Interval { min: ray_length.min, max: h.ray_length },
            ) {
                None => Some(h),
                Some(h2) => Some(h2),
            },
        }
    }
}

/// Brute force over bare triangles and brute force over the same
/// triangles as scene objects agree: so the tree's contract — equal
/// to a scan of its triangles — really is equality with a container
/// holding the same triangles.
pub proof fn lemma_triangle_list_scan(tris: Seq<triangle::Triangle>, r: Ray, ray_length: Interval)
    ensures
        scan_hittables(
            tris.map_values(|t: triangle::Triangle| Hittables::TriangleType(t)),
            r,
            ray_length,
        ) == crate::hittable::bvh::scan_triangles(tris, r, ray_length),
    decreases tris.len(),
{
    let m = tris.map_values(|t: triangle::Triangle| Hittables::TriangleType(t));
    assert(m.len() == tris.len());
    if tris.len() > 0 {
        assert(m[0] == Hittables::TriangleType(tris[0]));
        assert(m[0].spec_hit(r, ray_length) == tris[0].spec_hit(r, ray_length));
        assert(m.drop_first() =~= tris.drop_first().map_values(
            |t: triangle::Triangle| Hittables::TriangleType(t),
        ));
        match tris[0].spec_hit(r, ray_length) {
            None => {
                lemma_triangle_list_scan(tris.drop_first(), r, ray_length);
            },
            Some(h) => {
                lemma_triangle_list_scan(
                    tris.drop_first(),
                    r,
                    Interval { min: ray_length.min, max: h.ray_length },
                );
            },
        }
    }
}

} // verus!
