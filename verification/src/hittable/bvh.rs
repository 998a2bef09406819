//! Bounding volume hierarchy: a binary tree built once over a flat
//! list of triangles. Every node carries the union box of its
//! subtree, so traversal can discard a whole subtree as soon as the
//! ray misses its box. The traversal contract says the result equals
//! a brute-force scan over the tree's triangles, and a public lemma
//! states that a missed node box means the whole subtree misses.
use vstd::prelude::*;

verus! {

use vstd::seq_lib::lemma_multiset_commutative;
use crate::geo::{Ray, ray_within_bounds, tdiv};
use crate::aabb::{Aabb, box_contains_box, lemma_hit_monotone};
use crate::interval::Interval;
use crate::material::HitRecord;
use crate::hittable::triangle::Triangle;

/// Nearest-hit of a brute-force left-to-right scan: each hit shrinks
/// the far end of the search interval, and a later equally-near hit
/// replaces an earlier one.
pub open spec fn scan_triangles(s: Seq<Triangle>, r: Ray, ray_length: Interval) -> Option<
    HitRecord,
>
    decreases s.len(),
{
    if s.len() == 0 {
        None
    } else {
        match s[0].spec_hit(r, ray_length) {
            None => scan_triangles(s.drop_first(), r, ray_length),
            Some(h) => match scan_triangles(
                s.drop_first(),
                r,
                Interval { min: ray_length.min, max: h.ray_length },
            ) {
                None => Some(h),
                Some(h2) => Some(h2),
            },
        }
    }
}

/// Scanning a concatenation is scanning the first part, then the
/// second across the interval the first part left over.
pub proof fn lemma_scan_append(s1: Seq<Triangle>, s2: Seq<Triangle>, r: Ray, ray_length: Interval)
    ensures
        scan_triangles(s1 + s2, r, ray_length) == (match scan_triangles(s1, r, ray_length) {
            None => scan_triangles(s2, r, ray_length),
            Some(h) => match scan_triangles(
                s2,
                r,
                Interval { min: ray_length.min, max: h.ray_length },
            ) {
                None => Some(h),
                Some(h2) => Some(h2),
            },
        }),
    decreases s1.len(),
{
    if s1.len() == 0 {
        assert(s1 + s2 =~= s2);
    } else {
        assert((s1 + s2).drop_first() =~= s1.drop_first() + s2);
        assert((s1 + s2)[0] == s1[0]);
        match s1[0].spec_hit(r, ray_length) {
            None => {
                lemma_scan_append(s1.drop_first(), s2, r, ray_length);
            },
            Some(h) => {
                lemma_scan_append(
                    s1.drop_first(),
                    s2,
                    r,
                    Interval { min: ray_length.min, max: h.ray_length },
                );
            },
        }
    }
}

/// If every triangle of the sequence misses, the scan reports no hit.
pub proof fn lemma_scan_all_miss(s: Seq<Triangle>, r: Ray, ray_length: Interval)
    requires
        forall|i: int| 0 <= i < s.len() ==> (#[trigger] s[i].spec_hit(r, ray_length)) is None,
    ensures
        scan_triangles(s, r, ray_length) is None,
    decreases s.len(),
{
    if s.len() > 0 {
        assert(s[0].spec_hit(r, ray_length) is None);
        assert(forall|i: int|
            0 <= i < s.drop_first().len() ==> s.drop_first()[i] == s[i + 1]);
        lemma_scan_all_miss(s.drop_first(), r, ray_length);
    }
}

/// Union box of a non-empty run of triangles.
pub open spec fn boxes_union(s: Seq<Triangle>) -> Aabb
    decreases s.len(),
{
    if s.len() <= 1 {
        s[0].b_box
    } else {
        Aabb::spec_combine(boxes_union(s.drop_last()), s.last().b_box)
    }
}

proof fn lemma_boxes_union_append(s1: Seq<Triangle>, s2: Seq<Triangle>)
    requires
        s1.len() >= 1,
        s2.len() >= 1,
    ensures
        boxes_union(s1 + s2) == Aabb::spec_combine(boxes_union(s1), boxes_union(s2)),
    decreases s2.len(),
{
    if s2.len() == 1 {
        assert((s1 + s2).drop_last() =~= s1);
        assert((s1 + s2).last() == s2[0]);
    } else {
        assert((s1 + s2).drop_last() =~= s1 + s2.drop_last());
        assert((s1 + s2).last() == s2.last());
        lemma_boxes_union_append(s1, s2.drop_last());
        let a = boxes_union(s1);
        let b = boxes_union(s2.drop_last());
        let c = s2.last().b_box;
        assert(Aabb::spec_combine(Aabb::spec_combine(a, b), c) == Aabb::spec_combine(
            a,
            Aabb::spec_combine(b, c),
        ));
    }
}

/// One side of a node: a subtree or a single triangle.
pub enum BvhItem {
    Node(Bvh),
    Leaf(Triangle),
}

/// Bounding Volume Hierarchy node: two children and the union box of
/// everything below. `dup` marks the one-triangle node whose single
/// leaf is duplicated into both children.
pub struct Bvh {
    pub left: Box<BvhItem>,
    pub right: Box<BvhItem>,
    pub b_box: Aabb,
    pub dup: Ghost<bool>,
}

pub open spec fn item_tris(it: BvhItem) -> Seq<Triangle>
    decreases it,
{
    match it {
        BvhItem::Node(b) => b.tris(),
        BvhItem::Leaf(t) => seq![t],
    }
}

pub open spec fn item_box(it: BvhItem) -> Aabb {
    match it {
        BvhItem::Node(b) => b.b_box,
        BvhItem::Leaf(t) => t.b_box,
    }
}

pub open spec fn item_wf(it: BvhItem) -> bool
    decreases it,
{
    match it {
        BvhItem::Node(b) => b.wf(),
        BvhItem::Leaf(t) => t.wf(),
    }
}

impl Bvh {
    /// The subtree's triangles, left to right. The duplicated single
    /// leaf counts once.
    pub open spec fn tris(self) -> Seq<Triangle>
        decreases self,
    {
        if self.dup@ {
            item_tris(*self.left)
        } else {
            item_tris(*self.left) + item_tris(*self.right)
        }
    }

    /// Children are well-formed, the node box is exactly the union of
    /// the children's boxes, and a duplicated node repeats one leaf.
    pub open spec fn wf(self) -> bool
        decreases self,
    {
        &&& item_wf(*self.left)
        &&& item_wf(*self.right)
        &&& self.b_box == Aabb::spec_combine(item_box(*self.left), item_box(*self.right))
        &&& crate::aabb::aabb_within_bounds(self.b_box)
        &&& self.dup@ ==> self.left == self.right && (*self.left) is Leaf
    }

    /// Every triangle below a well-formed node is well-formed and its
    /// box is enclosed by the node's box: the invariant that makes
    /// pruning sound.
    pub proof fn lemma_leaf_boxes(self)
        requires
            self.wf(),
        ensures
            forall|i: int|
                0 <= i < self.tris().len() ==> (#[trigger] self.tris()[i]).wf()
                    && box_contains_box(self.b_box, self.tris()[i].b_box),
        decreases self,
    {
        lemma_item_leaf_boxes(*self.left);
        lemma_item_leaf_boxes(*self.right);
        if !self.dup@ {
            assert(forall|i: int|
                0 <= i < self.tris().len() ==> self.tris()[i] == (if i < item_tris(
                    *self.left,
                ).len() {
                    item_tris(*self.left)[i]
                } else {
                    item_tris(*self.right)[i - item_tris(*self.left).len()]
                }));
        }
    }

    /// The root box of a well-formed tree is exactly the union of its
    /// leaf boxes.
    pub proof fn lemma_root_box_is_leaf_union(self)
        requires
            self.wf(),
        ensures
            self.tris().len() >= 1,
            self.b_box == boxes_union(self.tris()),
        decreases self,
    {
        lemma_item_union(*self.left);
        lemma_item_union(*self.right);
        if self.dup@ {
            let t = (*self.left)->Leaf_0;
            assert(self.tris() =~= seq![t]);
        } else {
            lemma_boxes_union_append(item_tris(*self.left), item_tris(*self.right));
        }
    }
}

proof fn lemma_item_leaf_boxes(it: BvhItem)
    requires
        item_wf(it),
    ensures
        forall|i: int|
            0 <= i < item_tris(it).len() ==> (#[trigger] item_tris(it)[i]).wf()
                && box_contains_box(item_box(it), item_tris(it)[i].b_box),
    decreases it,
{
    match it {
        BvhItem::Node(b) => {
            b.lemma_leaf_boxes();
            assert(item_tris(it) == b.tris());
            assert(item_box(it) == b.b_box);
        },
        BvhItem::Leaf(t) => {
            assert(item_tris(it) =~= seq![t]);
        },
    }
}

proof fn lemma_item_union(it: BvhItem)
    requires
        item_wf(it),
    ensures
        item_tris(it).len() >= 1,
        item_box(it) == boxes_union(item_tris(it)),
    decreases it,
{
    match it {
        BvhItem::Node(b) => {
            b.lemma_root_box_is_leaf_union();
        },
        BvhItem::Leaf(t) => {
            assert(item_tris(it) =~= seq![t]);
        },
    }
}

/// A ray that misses a well-formed node's box gets no hit from any
/// triangle of that node's subtree: pruning never hides a hit.
pub proof fn lemma_prune(b: Bvh, r: Ray, ray_length: Interval)
    requires
        b.wf(),
        !b.b_box.spec_hit(r),
    ensures
        scan_triangles(b.tris(), r, ray_length) is None,
{
    b.lemma_leaf_boxes();
    assert forall|i: int| 0 <= i < b.tris().len() implies (#[trigger] b.tris()[i].spec_hit(
        r,
        ray_length,
    )) is None by {
        let t = b.tris()[i];
        if t.b_box.spec_hit(r) {
            lemma_hit_monotone(t.b_box, b.b_box, r);
        }
        t.lemma_miss_box(r, ray_length);
    }
    lemma_scan_all_miss(b.tris(), r, ray_length);
}


/// Scanning one triangle is just testing it.
proof fn lemma_scan_single(t: Triangle, r: Ray, ray_length: Interval)
    ensures
        scan_triangles(seq![t], r, ray_length) == t.spec_hit(r, ray_length),
{
    reveal_with_fuel(scan_triangles, 3);
    assert(seq![t].drop_first() =~= Seq::<Triangle>::empty());
    match t.spec_hit(r, ray_length) {
        None => {
        },
        Some(h) => {
            assert(scan_triangles(
                Seq::<Triangle>::empty(),
                r,
                Interval { min: ray_length.min, max: h.ray_length },
            ) is None);
        },
    }
}

/// Truncating average of two scalars: the split threshold.
fn avg2(a: i64, b: i64) -> (r: i64)
    requires
        -0x1_0000_0000_0000 <= a <= 0x1_0000_0000_0000,
        -0x1_0000_0000_0000 <= b <= 0x1_0000_0000_0000,
    ensures
        r == tdiv(a + b as int, 2),
{
    let s = a + b;
    if s >= 0 {
        s / 2
    } else {
        -((-s) / 2)
    }
}

/// All triangles of a vector are well-formed.
pub open spec fn all_wf(s: Seq<Triangle>) -> bool {
    forall|i: int| 0 <= i < s.len() ==> (#[trigger] s[i]).wf()
}

/// Least center along an axis over a non-empty run of triangles.
pub open spec fn centers_min(s: Seq<Triangle>, axis: u8) -> int
    decreases s.len(),
{
    if s.len() <= 1 {
        s[0].spec_center(axis) as int
    } else {
        let m = centers_min(s.drop_last(), axis);
        let c = s.last().spec_center(axis) as int;
        if c < m {
            c
        } else {
            m
        }
    }
}

/// Greatest center along an axis over a non-empty run of triangles.
pub open spec fn centers_max(s: Seq<Triangle>, axis: u8) -> int
    decreases s.len(),
{
    if s.len() <= 1 {
        s[0].spec_center(axis) as int
    } else {
        let m = centers_max(s.drop_last(), axis);
        let c = s.last().spec_center(axis) as int;
        if c > m {
            c
        } else {
            m
        }
    }
}

/// How far the centers spread along an axis.
pub open spec fn spec_spread(s: Seq<Triangle>, axis: u8) -> int {
    centers_max(s, axis) - centers_min(s, axis)
}

/// Midpoint of the centers' range along an axis: the split threshold.
pub open spec fn spec_threshold(s: Seq<Triangle>, axis: u8) -> int {
    tdiv(centers_min(s, axis) + centers_max(s, axis), 2)
}

/// The axis with the widest spread of centers; ties favor x, then y,
/// then z.
pub open spec fn spec_widest_axis(s: Seq<Triangle>) -> u8 {
    if spec_spread(s, 0) >= spec_spread(s, 1) && spec_spread(s, 0) >= spec_spread(s, 2) {
        0
    } else if spec_spread(s, 1) >= spec_spread(s, 0) && spec_spread(s, 1) >= spec_spread(s, 2) {
        1
    } else {
        2
    }
}

/// Ascending by center along the axis.
pub open spec fn sorted_by_center(s: Seq<Triangle>, axis: u8) -> bool {
    forall|i: int, j: int|
        0 <= i < j < s.len() ==> #[trigger] s[i].spec_center(axis) <= #[trigger] s[j].spec_center(
            axis,
        )
}

/// Index of the first triangle whose center is at or past the
/// threshold; the length when there is none.
pub open spec fn first_at_or_past(s: Seq<Triangle>, axis: u8, center: i64) -> int
    decreases s.len(),
{
    if s.len() == 0 {
        0
    } else if s[0].spec_center(axis) >= center {
        0
    } else {
        1 + first_at_or_past(s.drop_first(), axis, center)
    }
}

/// A prefix of centers below the threshold followed by one at or past
/// it pins the first-at-or-past index.
proof fn lemma_first_at(s: Seq<Triangle>, axis: u8, center: i64, k: int)
    requires
        0 <= k <= s.len(),
        forall|m: int| 0 <= m < k ==> (#[trigger] s[m].spec_center(axis)) < center,
        k < s.len() ==> s[k].spec_center(axis) >= center,
    ensures
        first_at_or_past(s, axis, center) == k,
    decreases k,
{
    if k == 0 {
    } else {
        assert(s[0].spec_center(axis) < center);
        assert(forall|m: int|
            0 <= m < s.drop_first().len() ==> s.drop_first()[m] == s[m + 1]);
        lemma_first_at(s.drop_first(), axis, center, k - 1);
    }
}

/// Smallest and widest spread of the triangle centers along an axis:
/// returns the spread and the midpoint of the center range.
fn bounding_box_spread(list: &Vec<Triangle>, axis: u8) -> (res: (i64, i64))
    requires
        list@.len() >= 1,
        all_wf(list@),
    ensures
        res.0 == spec_spread(list@, axis),
        res.1 == spec_threshold(list@, axis),
        res.0 >= 0,
{
    let mut min: i64 = list[0].center(axis);
    let mut max: i64 = min;
    let mut i: usize = 1;
    proof {
        crate::geo::lemma_tdiv_bound(
            list@[0].b_box.min.spec_axis(axis) + list@[0].b_box.max.spec_axis(axis),
            2,
            0x2_0000_0000,
        );
        assert(list@.take(1)[0] == list@[0]);
    }
    while i < list.len()
        invariant
            1 <= i <= list@.len(),
            all_wf(list@),
            -0x2_0000_0000 <= min <= max <= 0x2_0000_0000,
            min == centers_min(list@.take(i as int), axis),
            max == centers_max(list@.take(i as int), axis),
        decreases list@.len() - i,
    {
        let c = list[i].center(axis);
        proof {
            crate::geo::lemma_tdiv_bound(
                list@[i as int].b_box.min.spec_axis(axis) + list@[i as int].b_box.max.spec_axis(
                    axis,
                ),
                2,
                0x2_0000_0000,
            );
            assert(list@.take(i as int + 1).drop_last() =~= list@.take(i as int));
            assert(list@.take(i as int + 1).last() == list@[i as int]);
        }
        if c < min {
            min = c;
        }
        if c > max {
            max = c;
        }
        i = i + 1;
    }
    proof {
        assert(list@.take(list@.len() as int) =~= list@);
    }
    (max - min, avg2(min, max))
}

/// Selection sort of the triangles by center along an axis, followed
/// by a scan for the first index at or past the threshold center.
/// Returns the sorted list and that index.
fn sort_triangles_by_center(list: Vec<Triangle>, center: i64, axis: u8) -> (res: (
    Vec<Triangle>,
    usize,
))
    requires
        all_wf(list@),
    ensures
        res.0@.to_multiset() == list@.to_multiset(),
        res.0@.len() == list@.len(),
        all_wf(res.0@),
        sorted_by_center(res.0@, axis),
        res.1 as int == first_at_or_past(res.0@, axis, center),
        res.1 <= res.0@.len(),
{
    broadcast use vstd::seq_lib::group_to_multiset_ensures;

    let mut rem = list;
    let mut out: Vec<Triangle> = Vec::new();
    proof {
        assert(out@.to_multiset().add(rem@.to_multiset()) =~= list@.to_multiset());
    }
    while rem.len() > 0
        invariant
            out@.to_multiset().add(rem@.to_multiset()) == list@.to_multiset(),
            out@.len() + rem@.len() == list@.len(),
            all_wf(out@),
            all_wf(rem@),
            sorted_by_center(out@, axis),
            forall|a: int, c: int|
                0 <= a < out@.len() && 0 <= c < rem@.len() ==> #[trigger] out@[a].spec_center(axis)
                    <= #[trigger] rem@[c].spec_center(axis),
        decreases rem@.len(),
    {
        let mut j: usize = 1;
        let mut best: usize = 0;
        while j < rem.len()
            invariant
                best < rem@.len(),
                1 <= j <= rem@.len(),
                rem@.len() > 0,
                all_wf(rem@),
                forall|k: int|
                    0 <= k < j ==> rem@[best as int].spec_center(axis) <= (
                    #[trigger] rem@[k].spec_center(axis)),
            decreases rem@.len() - j,
        {
            if rem[j].center(axis) < rem[best].center(axis) {
                best = j;
            }
            j = j + 1;
        }
        let ghost rem_prev = rem@;
        let ghost out_prev = out@;
        let t = rem.remove(best);
        out.push(t);
        proof {
            broadcast use vstd::seq_lib::group_to_multiset_ensures;

            assert(rem_prev.contains(rem_prev[best as int]));
            assert(rem_prev.remove(best as int).to_multiset() =~= rem_prev.to_multiset().remove(
                rem_prev[best as int],
            ));
            assert(out_prev.push(t).to_multiset() =~= out_prev.to_multiset().insert(t));
            assert(rem_prev.to_multiset().count(t) > 0);
            assert(out@.to_multiset().add(rem@.to_multiset()) =~= list@.to_multiset());
            // The popped minimum sits between everything already
            // emitted and everything left.
            assert(forall|k: int|
                0 <= k < rem@.len() ==> rem@[k] == (if k < best as int {
                    rem_prev[k]
                } else {
                    rem_prev[k + 1]
                }));
            assert(forall|k: int|
                0 <= k < rem@.len() ==> t.spec_center(axis) <= (#[trigger] rem@[k].spec_center(
                    axis,
                )));
            assert(forall|a: int|
                0 <= a < out@.len() ==> out@[a] == (if a < out_prev.len() as int {
                    out_prev[a]
                } else {
                    t
                }));
            assert(sorted_by_center(out@, axis));
        }
    }
    let mut k: usize = 0;
    while k < out.len()
        invariant
            k <= out@.len(),
            all_wf(out@),
            out@.to_multiset() == list@.to_multiset(),
            out@.len() == list@.len(),
            sorted_by_center(out@, axis),
            forall|m: int| 0 <= m < k ==> (#[trigger] out@[m].spec_center(axis)) < center,
        decreases out@.len() - k,
    {
        if out[k].center(axis) >= center {
            proof {
                lemma_first_at(out@, axis, center, k as int);
            }
            return (out, k);
        }
        k = k + 1;
    }
    proof {
        lemma_first_at(out@, axis, center, out@.len() as int);
    }
    let n = out.len();
    (out, n)
}

/// Sorts by the axis with the widest spread of triangle centers
/// (ties favor x, then y, then z) and picks the split index at the
/// midpoint of that spread; if every center falls on one side, the
/// list is split at its middle so both halves stay non-empty.
fn sort_triangles_by_most_spread_axis(list: Vec<Triangle>) -> (res: (Vec<Triangle>, usize))
    requires
        list@.len() >= 2,
        all_wf(list@),
    ensures
        res.0@.to_multiset() == list@.to_multiset(),
        res.0@.len() == list@.len(),
        all_wf(res.0@),
        sorted_by_center(res.0@, spec_widest_axis(list@)),
        ({
            let axis = spec_widest_axis(list@);
            let raw = first_at_or_past(res.0@, axis, spec_threshold(list@, axis) as i64);
            res.1 as int == (if raw == 0 || raw == list@.len() as int {
                list@.len() as int / 2
            } else {
                raw
            })
        }),
        1 <= res.1 < res.0@.len(),
{
    let (x_spread, x_center) = bounding_box_spread(&list, 0);
    let (y_spread, y_center) = bounding_box_spread(&list, 1);
    let (z_spread, z_center) = bounding_box_spread(&list, 2);
    let n = list.len();
    let (sorted, mut center) = if x_spread >= y_spread && x_spread >= z_spread {
        sort_triangles_by_center(list, x_center, 0)
    } else if y_spread >= x_spread && y_spread >= z_spread {
        sort_triangles_by_center(list, y_center, 1)
    } else {
        sort_triangles_by_center(list, z_center, 2)
    };
    // Could not split with triangles on both sides: split at the
    // middle index instead.
    if center == 0 || center == n {
        center = n / 2;
    }
    (sorted, center)
}

/// Builds the tree: one triangle is a duplicated leaf, two become
/// one leaf each, and a longer list is sorted along its widest axis,
/// split, and built recursively; every node's box is the union of
/// its children's boxes.
pub fn create_bvh(list: Vec<Triangle>) -> (r: Bvh)
    requires
        list@.len() >= 1,
        all_wf(list@),
    ensures
        r.wf(),
        r.tris().to_multiset() == list@.to_multiset(),
        list@.len() == 1 ==> (*r.left == BvhItem::Leaf(list@[0]) && *r.right == BvhItem::Leaf(
            list@[0],
        ) && r.b_box == list@[0].b_box),
        list@.len() == 2 ==> (*r.left == BvhItem::Leaf(list@[0]) && *r.right == BvhItem::Leaf(
            list@[1],
        ) && r.b_box == Aabb::spec_combine(list@[0].b_box, list@[1].b_box)),
    decreases list@.len(),
{
    broadcast use vstd::seq_lib::group_to_multiset_ensures;

    if list.len() == 1 {
        let t = list[0];
        let r = Bvh {
            left: Box::new(BvhItem::Leaf(t)),
            right: Box::new(BvhItem::Leaf(t)),
            b_box: t.b_box,
            dup: Ghost(true),
        };
        proof {
            assert(r.tris() =~= seq![t]);
            assert(list@ =~= seq![t]);
            assert(r.b_box == Aabb::spec_combine(t.b_box, t.b_box));
        }
        r
    } else if list.len() == 2 {
        let t0 = list[0];
        let t1 = list[1];
        let b_box = Aabb::combine_aabbs(t0.bounding_box(), t1.bounding_box());
        let r = Bvh {
            left: Box::new(BvhItem::Leaf(t0)),
            right: Box::new(BvhItem::Leaf(t1)),
            b_box,
            dup: Ghost(false),
        };
        proof {
            assert(r.tris() =~= seq![t0, t1]);
            assert(list@ =~= seq![t0, t1]);
            assert(seq![t0, t1] =~= seq![t0] + seq![t1]);
            lemma_multiset_commutative(seq![t0], seq![t1]);
            assert(r.tris().to_multiset() =~= list@.to_multiset());
        }
        r
    } else {
        let (mut sorted, mid) = sort_triangles_by_most_spread_axis(list);
        let ghost sorted_view = sorted@;
        let right_part = sorted.split_off(mid);
        proof {
            assert(sorted@ + right_part@ =~= sorted_view);
            assert(all_wf(sorted@));
            assert(all_wf(right_part@));
        }
        let left = create_bvh(sorted);
        let right = create_bvh(right_part);
        let b_box = Aabb::combine_aabbs(&left.b_box, &right.b_box);
        let r = Bvh {
            left: Box::new(BvhItem::Node(left)),
            right: Box::new(BvhItem::Node(right)),
            b_box,
            dup: Ghost(false),
        };
        proof {
            lemma_multiset_commutative(left.tris(), right.tris());
            lemma_multiset_commutative(sorted_view.subrange(0, mid as int), sorted_view.subrange(mid as int, sorted_view.len() as int));
            assert(r.tris().to_multiset() =~= list@.to_multiset());
        }
        r
    }
}

impl Bvh {
    /// Builds the acceleration tree over a non-empty triangle list
    /// and wraps it as a scene object. The tree is well-formed and
    /// holds exactly the given triangles; handing it an empty list is
    /// a scene-assembly bug, excluded by precondition.
    pub fn new(list: Vec<Triangle>) -> (r: crate::hittable::Hittables)
        requires
            list@.len() >= 1,
            all_wf(list@),
        ensures
            r matches crate::hittable::Hittables::BvhType(b) && b.wf()
                && b.tris().to_multiset() == list@.to_multiset(),
            r.wf(),
            list@.len() == 1 ==> (r matches crate::hittable::Hittables::BvhType(b) && *b.left
                == BvhItem::Leaf(list@[0]) && *b.right == BvhItem::Leaf(list@[0]) && b.b_box
                == list@[0].b_box),
            list@.len() == 2 ==> (r matches crate::hittable::Hittables::BvhType(b) && *b.left
                == BvhItem::Leaf(list@[0]) && *b.right == BvhItem::Leaf(list@[1]) && b.b_box
                == Aabb::spec_combine(list@[0].b_box, list@[1].b_box)),
    {
        crate::hittable::Hittables::BvhType(create_bvh(list))
    }

    fn left_hit(&self, r: &Ray, ray_length: &Interval) -> (res: Option<HitRecord>)
        requires
            item_wf(*self.left),
            ray_within_bounds(*r),
        ensures
            res == scan_triangles(item_tris(*self.left), *r, *ray_length),
        decreases *self, 0int,
    {
        match &*self.left {
            BvhItem::Node(i) => i.hit(r, ray_length),
            BvhItem::Leaf(i) => {
                proof {
                    lemma_scan_single(*i, *r, *ray_length);
                }
                i.hit(r, ray_length)
            },
        }
    }

    fn right_hit(&self, r: &Ray, ray_length: &Interval) -> (res: Option<HitRecord>)
        requires
            item_wf(*self.right),
            ray_within_bounds(*r),
        ensures
            res == scan_triangles(item_tris(*self.right), *r, *ray_length),
        decreases *self, 0int,
    {
        match &*self.right {
            BvhItem::Node(i) => i.hit(r, ray_length),
            BvhItem::Leaf(i) => {
                proof {
                    lemma_scan_single(*i, *r, *ray_length);
                }
                i.hit(r, ray_length)
            },
        }
    }

    /// Nearest hit of the ray among this subtree's triangles: equal
    /// to the brute-force scan over the same triangles. A missed
    /// node box prunes the subtree at once; otherwise the left side
    /// is probed first and the right side can only return a hit at
    /// least as near.
    pub fn hit(&self, r: &Ray, ray_length: &Interval) -> (res: Option<HitRecord>)
        requires
            self.wf(),
            ray_within_bounds(*r),
        ensures
            res == scan_triangles(self.tris(), *r, *ray_length),
        decreases *self, 1int,
    {
        if !self.b_box.hit(r) {
            proof {
                lemma_prune(*self, *r, *ray_length);
            }
            return None;
        }
        let lh = self.left_hit(r, ray_length);
        proof {
            if !self.dup@ {
                lemma_scan_append(item_tris(*self.left), item_tris(*self.right), *r, *ray_length);
            }
        }
        match lh {
            None => self.right_hit(r, ray_length),
            Some(rec) => {
                let shrunk = Interval::new(ray_length.min, rec.ray_length);
                let rh = self.right_hit(r, &shrunk);
                proof {
                    if self.dup@ {
                        let t = (*self.left)->Leaf_0;
                        lemma_scan_single(t, *r, *ray_length);
                        lemma_scan_single(t, *r, shrunk);
                        t.lemma_hit_in_interval(*r, *ray_length);
                        t.lemma_hit_shrink_keep(*r, *ray_length, shrunk);
                    }
                }
                match rh {
                    None => Some(rec),
                    Some(r2) => Some(r2),
                }
            },
        }
    }
}

} // verus!
