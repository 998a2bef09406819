//! Axis-aligned bounding boxes. A box must enclose every point its
//! object can be hit at; combining two boxes yields the smallest box
//! enclosing both. The ray test is a slab test kept exact by comparing
//! cross-multiplied integer fractions instead of dividing.
use vstd::prelude::*;

verus! {

use crate::geo::{Vec3, Ray, vec_within, ray_within_bounds, wide_mul};
use crate::{GEOM_BOUND, BOX_BOUND, ORIGIN_BOUND};

#[derive(Clone, Copy, Debug, PartialEq, Eq, Structural)]
pub struct Aabb {
    pub min: Vec3,
    pub max: Vec3,
}

/// Corners ordered and small enough for the slab products.
pub open spec fn aabb_within_bounds(b: Aabb) -> bool {
    &&& vec_within(b.min, BOX_BOUND as int)
    &&& vec_within(b.max, BOX_BOUND as int)
}

/// `outer` encloses `inner` componentwise.
pub open spec fn box_contains_box(outer: Aabb, inner: Aabb) -> bool {
    &&& outer.min.x <= inner.min.x && outer.min.y <= inner.min.y && outer.min.z <= inner.min.z
    &&& inner.max.x <= outer.max.x && inner.max.y <= outer.max.y && inner.max.z <= outer.max.z
}

/// Numerator of the slab entry fraction along one axis, after
/// normalising the denominator to `|d|`.
pub open spec fn slab_n0(o: int, d: int, lo: int, hi: int) -> int {
    if d >= 0 {
        lo - o
    } else {
        o - hi
    }
}

/// Numerator of the slab exit fraction along one axis.
pub open spec fn slab_n1(o: int, d: int, lo: int, hi: int) -> int {
    if d >= 0 {
        hi - o
    } else {
        o - lo
    }
}

/// Normalised (positive) slab denominator.
pub open spec fn slab_den(d: int) -> int {
    if d >= 0 {
        d
    } else {
        -d
    }
}

/// Entry fraction of axis `a` at or before exit fraction of axis `b`:
/// `n0_a / den_a <= n1_b / den_b`, cross-multiplied.
pub open spec fn slab_pair_le(n0a: int, dena: int, n1b: int, denb: int) -> bool {
    n0a * denb <= n1b * dena
}

impl Aabb {
    pub fn new(min: Vec3, max: Vec3) -> (r: Aabb)
        ensures
            r == (Aabb { min, max }),
    {
        Aabb { min, max }
    }

    /// The smallest box enclosing both arguments: componentwise
    /// minimum and maximum.
    pub open spec fn spec_combine(a: Aabb, b: Aabb) -> Aabb {
        Aabb {
            min: Vec3 {
                x: if a.min.x <= b.min.x { a.min.x } else { b.min.x },
                y: if a.min.y <= b.min.y { a.min.y } else { b.min.y },
                z: if a.min.z <= b.min.z { a.min.z } else { b.min.z },
            },
            max: Vec3 {
                x: if a.max.x >= b.max.x { a.max.x } else { b.max.x },
                y: if a.max.y >= b.max.y { a.max.y } else { b.max.y },
                z: if a.max.z >= b.max.z { a.max.z } else { b.max.z },
            },
        }
    }

    pub fn combine_aabbs(a: &Aabb, b: &Aabb) -> (r: Aabb)
        ensures
            r == Aabb::spec_combine(*a, *b),
            box_contains_box(r, *a),
            box_contains_box(r, *b),
    {
        Aabb {
            min: Vec3 {
                x: if a.min.x <= b.min.x { a.min.x } else { b.min.x },
                y: if a.min.y <= b.min.y { a.min.y } else { b.min.y },
                z: if a.min.z <= b.min.z { a.min.z } else { b.min.z },
            },
            max: Vec3 {
                x: if a.max.x >= b.max.x { a.max.x } else { b.max.x },
                y: if a.max.y >= b.max.y { a.max.y } else { b.max.y },
                z: if a.max.z >= b.max.z { a.max.z } else { b.max.z },
            },
        }
    }

    /// The smallest box enclosing three points.
    pub open spec fn spec_from_points(p0: Vec3, p1: Vec3, p2: Vec3) -> Aabb {
        Aabb::spec_combine(
            Aabb::spec_combine(Aabb { min: p0, max: p0 }, Aabb { min: p1, max: p1 }),
            Aabb { min: p2, max: p2 },
        )
    }

    pub fn from_points(p0: Vec3, p1: Vec3, p2: Vec3) -> (r: Aabb)
        ensures
            r == Aabb::spec_from_points(p0, p1, p2),
    {
        let b0 = Aabb { min: p0, max: p0 };
        let b1 = Aabb { min: p1, max: p1 };
        let b2 = Aabb { min: p2, max: p2 };
        Aabb::combine_aabbs(&Aabb::combine_aabbs(&b0, &b1), &b2)
    }

    /// The box moved rigidly by an offset.
    pub open spec fn spec_shifted(self, offset: Vec3) -> Aabb {
        Aabb {
            min: Vec3 {
                x: (self.min.x + offset.x) as i64,
                y: (self.min.y + offset.y) as i64,
                z: (self.min.z + offset.z) as i64,
            },
            max: Vec3 {
                x: (self.max.x + offset.x) as i64,
                y: (self.max.y + offset.y) as i64,
                z: (self.max.z + offset.z) as i64,
            },
        }
    }

    pub fn shifted(&self, offset: &Vec3) -> (r: Aabb)
        requires
            vec_within(self.min, GEOM_BOUND as int),
            vec_within(self.max, GEOM_BOUND as int),
            vec_within(*offset, GEOM_BOUND as int),
        ensures
            r == self.spec_shifted(*offset),
            aabb_within_bounds(r),
    {
        Aabb { min: self.min.add(offset), max: self.max.add(offset) }
    }

    /// Whether the ray meets the box at some parameter `t >= 0`: for
    /// every axis with zero direction the origin lies inside the slab,
    /// every slab exit is at a nonnegative parameter, and every slab
    /// entry precedes every slab exit.
    pub open spec fn spec_hit(self, r: Ray) -> bool {
        let ox = r.origin.x as int;
        let oy = r.origin.y as int;
        let oz = r.origin.z as int;
        let dx = r.direction.x as int;
        let dy = r.direction.y as int;
        let dz = r.direction.z as int;
        let n0x = slab_n0(ox, dx, self.min.x as int, self.max.x as int);
        let n1x = slab_n1(ox, dx, self.min.x as int, self.max.x as int);
        let n0y = slab_n0(oy, dy, self.min.y as int, self.max.y as int);
        let n1y = slab_n1(oy, dy, self.min.y as int, self.max.y as int);
        let n0z = slab_n0(oz, dz, self.min.z as int, self.max.z as int);
        let n1z = slab_n1(oz, dz, self.min.z as int, self.max.z as int);
        let ax = slab_den(dx);
        let ay = slab_den(dy);
        let az = slab_den(dz);
        &&& dx == 0 ==> self.min.x <= r.origin.x <= self.max.x
        &&& dy == 0 ==> self.min.y <= r.origin.y <= self.max.y
        &&& dz == 0 ==> self.min.z <= r.origin.z <= self.max.z
        &&& dx != 0 ==> n1x >= 0 && slab_pair_le(n0x, ax, n1x, ax)
        &&& dy != 0 ==> n1y >= 0 && slab_pair_le(n0y, ay, n1y, ay)
        &&& dz != 0 ==> n1z >= 0 && slab_pair_le(n0z, az, n1z, az)
        &&& dx != 0 && dy != 0 ==> slab_pair_le(n0x, ax, n1y, ay) && slab_pair_le(n0y, ay, n1x, ax)
        &&& dx != 0 && dz != 0 ==> slab_pair_le(n0x, ax, n1z, az) && slab_pair_le(n0z, az, n1x, ax)
        &&& dy != 0 && dz != 0 ==> slab_pair_le(n0y, ay, n1z, az) && slab_pair_le(n0z, az, n1y, ay)
    }

    /// Slab test against the ray, exact over the fixed-point inputs.
    pub fn hit(&self, r: &Ray) -> (res: bool)
        requires
            aabb_within_bounds(*self),
            ray_within_bounds(*r),
        ensures
            res == self.spec_hit(*r),
    {
        let n0x = axis_n0(r.origin.x, r.direction.x, self.min.x, self.max.x);
        let n1x = axis_n1(r.origin.x, r.direction.x, self.min.x, self.max.x);
        let n0y = axis_n0(r.origin.y, r.direction.y, self.min.y, self.max.y);
        let n1y = axis_n1(r.origin.y, r.direction.y, self.min.y, self.max.y);
        let n0z = axis_n0(r.origin.z, r.direction.z, self.min.z, self.max.z);
        let n1z = axis_n1(r.origin.z, r.direction.z, self.min.z, self.max.z);
        let ax = axis_den(r.direction.x);
        let ay = axis_den(r.direction.y);
        let az = axis_den(r.direction.z);
        let cx = r.direction.x != 0;
        let cy = r.direction.y != 0;
        let cz = r.direction.z != 0;
        let mut ok: bool = true;
        if !cx && !(self.min.x <= r.origin.x && r.origin.x <= self.max.x) {
            ok = false;
        }
        if !cy && !(self.min.y <= r.origin.y && r.origin.y <= self.max.y) {
            ok = false;
        }
        if !cz && !(self.min.z <= r.origin.z && r.origin.z <= self.max.z) {
            ok = false;
        }
        if cx && !(n1x >= 0 && wide_mul(n0x, ax) <= wide_mul(n1x, ax)) {
            ok = false;
        }
        if cy && !(n1y >= 0 && wide_mul(n0y, ay) <= wide_mul(n1y, ay)) {
            ok = false;
        }
        if cz && !(n1z >= 0 && wide_mul(n0z, az) <= wide_mul(n1z, az)) {
            ok = false;
        }
        if cx && cy && !(wide_mul(n0x, ay) <= wide_mul(n1y, ax) && wide_mul(n0y, ax) <= wide_mul(
            n1x,
            ay,
        )) {
            ok = false;
        }
        if cx && cz && !(wide_mul(n0x, az) <= wide_mul(n1z, ax) && wide_mul(n0z, ax) <= wide_mul(
            n1x,
            az,
        )) {
            ok = false;
        }
        if cy && cz && !(wide_mul(n0y, az) <= wide_mul(n1z, ay) && wide_mul(n0z, ay) <= wide_mul(
            n1y,
            az,
        )) {
            ok = false;
        }
        ok
    }
}

/// Entry numerator along one axis, as executable code.
fn axis_n0(o: i64, d: i64, lo: i64, hi: i64) -> (r: i64)
    requires
        -BOX_BOUND <= lo <= BOX_BOUND,
        -BOX_BOUND <= hi <= BOX_BOUND,
        -ORIGIN_BOUND <= o <= ORIGIN_BOUND,
    ensures
        r == slab_n0(o as int, d as int, lo as int, hi as int),
{
    if d >= 0 {
        lo - o
    } else {
        o - hi
    }
}

/// Exit numerator along one axis, as executable code.
fn axis_n1(o: i64, d: i64, lo: i64, hi: i64) -> (r: i64)
    requires
        -BOX_BOUND <= lo <= BOX_BOUND,
        -BOX_BOUND <= hi <= BOX_BOUND,
        -ORIGIN_BOUND <= o <= ORIGIN_BOUND,
    ensures
        r == slab_n1(o as int, d as int, lo as int, hi as int),
{
    if d >= 0 {
        hi - o
    } else {
        o - lo
    }
}

fn axis_den(d: i64) -> (r: i64)
    requires
        -GEOM_BOUND <= d <= GEOM_BOUND,
    ensures
        r == slab_den(d as int),
{
    if d >= 0 {
        d
    } else {
        -d
    }
}

/// One cross-multiplied comparison survives enlarging the box: the
/// entry numerator can only fall and the exit numerator only rise.
proof fn lemma_pair_le_mono(n0o: int, n0i: int, n1i: int, n1o: int, dena: int, denb: int)
    by (nonlinear_arith)
    requires
        n0o <= n0i,
        n1i <= n1o,
        dena >= 0,
        denb >= 0,
        n0i * denb <= n1i * dena,
    ensures
        n0o * denb <= n1o * dena,
{
}

/// A ray that hits a box also hits every enclosing box. This is what
/// makes bounding-volume pruning sound: missing a node's box rules out
/// a hit on anything whose box the node's box encloses.
pub proof fn lemma_hit_monotone(inner: Aabb, outer: Aabb, r: Ray)
    requires
        box_contains_box(outer, inner),
        inner.spec_hit(r),
    ensures
        outer.spec_hit(r),
{
    let ox = r.origin.x as int;
    let oy = r.origin.y as int;
    let oz = r.origin.z as int;
    let dx = r.direction.x as int;
    let dy = r.direction.y as int;
    let dz = r.direction.z as int;
    let n0xi = slab_n0(ox, dx, inner.min.x as int, inner.max.x as int);
    let n1xi = slab_n1(ox, dx, inner.min.x as int, inner.max.x as int);
    let n0yi = slab_n0(oy, dy, inner.min.y as int, inner.max.y as int);
    let n1yi = slab_n1(oy, dy, inner.min.y as int, inner.max.y as int);
    let n0zi = slab_n0(oz, dz, inner.min.z as int, inner.max.z as int);
    let n1zi = slab_n1(oz, dz, inner.min.z as int, inner.max.z as int);
    let n0xo = slab_n0(ox, dx, outer.min.x as int, outer.max.x as int);
    let n1xo = slab_n1(ox, dx, outer.min.x as int, outer.max.x as int);
    let n0yo = slab_n0(oy, dy, outer.min.y as int, outer.max.y as int);
    let n1yo = slab_n1(oy, dy, outer.min.y as int, outer.max.y as int);
    let n0zo = slab_n0(oz, dz, outer.min.z as int, outer.max.z as int);
    let n1zo = slab_n1(oz, dz, outer.min.z as int, outer.max.z as int);
    let ax = slab_den(dx);
    let ay = slab_den(dy);
    let az = slab_den(dz);
    assert(n0xo <= n0xi && n1xi <= n1xo);
    assert(n0yo <= n0yi && n1yi <= n1yo);
    assert(n0zo <= n0zi && n1zi <= n1zo);
    if dx != 0 {
        lemma_pair_le_mono(n0xo, n0xi, n1xi, n1xo, ax, ax);
    }
    if dy != 0 {
        lemma_pair_le_mono(n0yo, n0yi, n1yi, n1yo, ay, ay);
    }
    if dz != 0 {
        lemma_pair_le_mono(n0zo, n0zi, n1zi, n1zo, az, az);
    }
    if dx != 0 && dy != 0 {
        lemma_pair_le_mono(n0xo, n0xi, n1yi, n1yo, ax, ay);
        lemma_pair_le_mono(n0yo, n0yi, n1xi, n1xo, ay, ax);
    }
    if dx != 0 && dz != 0 {
        lemma_pair_le_mono(n0xo, n0xi, n1zi, n1zo, ax, az);
        lemma_pair_le_mono(n0zo, n0zi, n1xi, n1xo, az, ax);
    }
    if dy != 0 && dz != 0 {
        lemma_pair_le_mono(n0yo, n0yi, n1zi, n1zo, ay, az);
        lemma_pair_le_mono(n0zo, n0zi, n1yi, n1yo, az, ay);
    }
}

} // verus!
