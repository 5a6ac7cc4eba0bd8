//! The bounding-volume-hierarchy builder.
//!
//! `BVHTree::build_bvh_tree` consumes the scene's sphere list, reorders it in
//! place, and produces a flattened node array: for `N` primitives exactly
//! `max(1, 2N - 1)` nodes, whose leaf ranges partition `[0, N)` and whose
//! internal boxes contain their children's boxes. The whole build is pinned
//! to the functional model `spec_build`, so it is deterministic: equal inputs
//! give equal node arrays and equal primitive permutations.
//!
//! The split rule is median-of-largest-axis: the range's box picks its widest
//! axis, and the range is stably partitioned around the box's centre on that
//! axis; if every primitive falls on one side, the range is split at its
//! middle index instead, unreordered.

use vstd::prelude::*;
use crate::sphere::{all_bounded, sphere_bounded, Sphere, COORD_LIMIT};
use crate::vecmath::{Vec3Fp, V3};

verus! {

/// An axis-aligned bounding box over unbounded integers, for specifications.
pub struct BoxS {
    pub lo: V3,
    pub hi: V3,
}

/// An axis-aligned bounding box in fixed-point coordinates.
#[derive(Clone, Copy, PartialEq, Eq, Structural, Debug)]
pub struct Aabb {
    pub min: Vec3Fp,
    pub max: Vec3Fp,
}

impl Aabb {
    pub open spec fn spec_view(self) -> BoxS {
        BoxS { lo: self.min.spec_view(), hi: self.max.spec_view() }
    }
}

pub open spec fn min2(a: int, b: int) -> int {
    if a <= b {
        a
    } else {
        b
    }
}

pub open spec fn max2(a: int, b: int) -> int {
    if a >= b {
        a
    } else {
        b
    }
}

pub open spec fn v3_axis(v: V3, a: int) -> int {
    if a == 0 {
        v.x
    } else if a == 1 {
        v.y
    } else {
        v.z
    }
}

/// The bounding box of a single sphere: its center offset by its radius.
pub open spec fn sphere_box(s: Sphere) -> BoxS {
    BoxS {
        lo: V3 {
            x: s.center.x - s.radius,
            y: s.center.y - s.radius,
            z: s.center.z - s.radius,
        },
        hi: V3 {
            x: s.center.x + s.radius,
            y: s.center.y + s.radius,
            z: s.center.z + s.radius,
        },
    }
}

pub open spec fn box_union(a: BoxS, b: BoxS) -> BoxS {
    BoxS {
        lo: V3 { x: min2(a.lo.x, b.lo.x), y: min2(a.lo.y, b.lo.y), z: min2(a.lo.z, b.lo.z) },
        hi: V3 { x: max2(a.hi.x, b.hi.x), y: max2(a.hi.y, b.hi.y), z: max2(a.hi.z, b.hi.z) },
    }
}

/// `outer` contains `inner`.
pub open spec fn box_contains(outer: BoxS, inner: BoxS) -> bool {
    &&& outer.lo.x <= inner.lo.x
    &&& outer.lo.y <= inner.lo.y
    &&& outer.lo.z <= inner.lo.z
    &&& inner.hi.x <= outer.hi.x
    &&& inner.hi.y <= outer.hi.y
    &&& inner.hi.z <= outer.hi.z
}

/// The bounding box of a non-empty sphere sequence (the fold of `box_union`
/// over the spheres' own boxes). For the empty sequence, a degenerate point
/// box at the origin.
pub open spec fn seq_box(s: Seq<Sphere>) -> BoxS
    decreases s.len(),
{
    if s.len() == 0 {
        BoxS { lo: V3 { x: 0, y: 0, z: 0 }, hi: V3 { x: 0, y: 0, z: 0 } }
    } else if s.len() == 1 {
        sphere_box(s[0])
    } else {
        box_union(seq_box(s.drop_last()), sphere_box(s.last()))
    }
}

/// All box coordinates within twice the sphere coordinate limit, so that
/// centroid sums and extents fit in 64 bits.
pub open spec fn box_bounded(b: BoxS) -> bool {
    &&& -2 * COORD_LIMIT <= b.lo.x <= 2 * COORD_LIMIT
    &&& -2 * COORD_LIMIT <= b.lo.y <= 2 * COORD_LIMIT
    &&& -2 * COORD_LIMIT <= b.lo.z <= 2 * COORD_LIMIT
    &&& -2 * COORD_LIMIT <= b.hi.x <= 2 * COORD_LIMIT
    &&& -2 * COORD_LIMIT <= b.hi.y <= 2 * COORD_LIMIT
    &&& -2 * COORD_LIMIT <= b.hi.z <= 2 * COORD_LIMIT
}

/// Extent of a box along an axis.
pub open spec fn extent(b: BoxS, a: int) -> int {
    v3_axis(b.hi, a) - v3_axis(b.lo, a)
}

/// The axis with the largest extent; ties resolve to the lowest axis index,
/// so the choice is deterministic.
pub open spec fn largest_extent_axis(b: BoxS) -> int {
    if extent(b, 0) >= extent(b, 1) && extent(b, 0) >= extent(b, 2) {
        0
    } else if extent(b, 1) >= extent(b, 2) {
        1
    } else {
        2
    }
}

/// The split predicate: a sphere goes to the left half when its centroid
/// along axis `a` lies strictly below the range box's centre, i.e.
/// `2 * center < lo + hi` (written without division).
pub open spec fn goes_left(s: Sphere, a: int, t: int) -> bool {
    2 * s.center.spec_axis(a) < t
}

/// The subsequence of `s` whose members fall on the given side of the split:
/// a stable selection, keeping input order.
pub open spec fn sel(s: Seq<Sphere>, a: int, t: int, left: bool) -> Seq<Sphere>
    decreases s.len(),
{
    if s.len() == 0 {
        Seq::empty()
    } else if goes_left(s.last(), a, t) == left {
        sel(s.drop_last(), a, t, left).push(s.last())
    } else {
        sel(s.drop_last(), a, t, left)
    }
}

/// The two sides of the stable partition together have the length of the
/// input.
pub proof fn lemma_sel_len(s: Seq<Sphere>, a: int, t: int)
    ensures
        sel(s, a, t, true).len() + sel(s, a, t, false).len() == s.len(),
        sel(s, a, t, true).len() <= s.len(),
        sel(s, a, t, false).len() <= s.len(),
    decreases s.len(),
{
    if s.len() > 0 {
        lemma_sel_len(s.drop_last(), a, t);
    }
}

/// Every member of a selection is a member of the input.
pub proof fn lemma_sel_contains(s: Seq<Sphere>, a: int, t: int, left: bool)
    ensures
        forall|i: int|
            0 <= i < sel(s, a, t, left).len() ==> s.contains(#[trigger] sel(s, a, t, left)[i]),
    decreases s.len(),
{
    if s.len() > 0 {
        lemma_sel_contains(s.drop_last(), a, t, left);
        assert forall|i: int| 0 <= i < sel(s, a, t, left).len() implies s.contains(
            #[trigger] sel(s, a, t, left)[i],
        ) by {
            let v = sel(s, a, t, left)[i];
            if i < sel(s.drop_last(), a, t, left).len() {
                assert(s.drop_last().contains(v));
                let j = choose|j: int| 0 <= j < s.drop_last().len() && s.drop_last()[j] == v;
                assert(s[j] == v);
            } else {
                assert(v == s.last());
                assert(s[s.len() - 1] == v);
            }
        }
    }
}

/// The selection of a bounded sequence is bounded.
pub proof fn lemma_sel_bounded(s: Seq<Sphere>, a: int, t: int, left: bool)
    requires
        all_bounded(s),
    ensures
        all_bounded(sel(s, a, t, left)),
{
    lemma_sel_contains(s, a, t, left);
    assert forall|i: int| 0 <= i < sel(s, a, t, left).len() implies sphere_bounded(
        #[trigger] sel(s, a, t, left)[i],
    ) by {
        let v = sel(s, a, t, left)[i];
        assert(s.contains(v));
        let j = choose|j: int| 0 <= j < s.len() && s[j] == v;
        assert(sphere_bounded(s[j]));
    }
}

/// The two sides of the stable partition carry exactly the input's members:
/// their multisets add up to the input's multiset.
pub proof fn lemma_sel_multiset(s: Seq<Sphere>, a: int, t: int)
    ensures
        sel(s, a, t, true).to_multiset().add(sel(s, a, t, false).to_multiset())
            == s.to_multiset(),
    decreases s.len(),
{
    if s.len() == 0 {
        s.to_multiset_ensures();
        sel(s, a, t, true).to_multiset_ensures();
        sel(s, a, t, false).to_multiset_ensures();
        assert(s.to_multiset() =~= sel(s, a, t, true).to_multiset().add(
            sel(s, a, t, false).to_multiset(),
        ));
    } else {
        lemma_sel_multiset(s.drop_last(), a, t);
        let d = s.drop_last();
        let x = s.last();
        assert(s =~= d.push(x));
        d.to_multiset_ensures();
        lemma_to_multiset_push(d, x);
        if goes_left(x, a, t) {
            lemma_to_multiset_push(sel(d, a, t, true), x);
            assert(sel(s, a, t, true).to_multiset().add(sel(s, a, t, false).to_multiset())
                =~= s.to_multiset());
        } else {
            lemma_to_multiset_push(sel(d, a, t, false), x);
            assert(sel(s, a, t, true).to_multiset().add(sel(s, a, t, false).to_multiset())
                =~= s.to_multiset());
        }
    }
}

/// Pushing one element adds exactly that element to a sequence's multiset.
pub proof fn lemma_to_multiset_push(s: Seq<Sphere>, x: Sphere)
    ensures
        s.push(x).to_multiset() == s.to_multiset().insert(x),
{
    s.to_multiset_ensures();
}

/// The box of a non-empty sequence contains the box of each of its spheres.
pub proof fn lemma_seq_box_contains_elems(s: Seq<Sphere>)
    requires
        s.len() >= 1,
    ensures
        forall|i: int| 0 <= i < s.len() ==> box_contains(seq_box(s), sphere_box(#[trigger] s[i])),
    decreases s.len(),
{
    if s.len() > 1 {
        lemma_seq_box_contains_elems(s.drop_last());
        assert forall|i: int| 0 <= i < s.len() implies box_contains(
            seq_box(s),
            sphere_box(#[trigger] s[i]),
        ) by {
            if i < s.len() - 1 {
                assert(s.drop_last()[i] == s[i]);
                assert(box_contains(seq_box(s.drop_last()), sphere_box(s[i])));
            } else {
                assert(s[i] == s.last());
            }
        }
    }
}

/// A box that contains the box of each sphere of a non-empty sequence
/// contains the sequence's box.
pub proof fn lemma_seq_box_minimal(s: Seq<Sphere>, b: BoxS)
    requires
        s.len() >= 1,
        forall|i: int| 0 <= i < s.len() ==> box_contains(b, sphere_box(#[trigger] s[i])),
    ensures
        box_contains(b, seq_box(s)),
    decreases s.len(),
{
    if s.len() > 1 {
        lemma_seq_box_minimal(s.drop_last(), b);
    }
}

/// The box of a bounded sphere sequence is bounded.
pub proof fn lemma_seq_box_bounded(s: Seq<Sphere>)
    requires
        all_bounded(s),
    ensures
        box_bounded(seq_box(s)),
    decreases s.len(),
{
    if s.len() > 1 {
        lemma_seq_box_bounded(s.drop_last());
    }
}

/// A flattened BVH node over unbounded integers, for specifications. A node
/// with `count > 0` is a leaf covering the primitive range
/// `[first, first + count)`; a node with `count == 0` is internal, and `left`
/// and `right` are the indices of its children in the node array.
pub struct NodeS {
    pub lo: V3,
    pub hi: V3,
    pub left: int,
    pub right: int,
    pub count: int,
}

pub open spec fn node_box(n: NodeS) -> BoxS {
    BoxS { lo: n.lo, hi: n.hi }
}

pub open spec fn mk_leaf(b: BoxS, first: int, count: int) -> NodeS {
    NodeS { lo: b.lo, hi: b.hi, left: first, right: 0, count: count }
}

pub open spec fn mk_internal(b: BoxS, left: int, right: int) -> NodeS {
    NodeS { lo: b.lo, hi: b.hi, left, right, count: 0 }
}

/// The leaf ranges of `ns`, read in array order, tile `[lo, hi)`: the first
/// leaf starts at `lo`, each next leaf starts where the previous one ended,
/// and the last one ends at `hi`. Internal nodes are passed over. This is the
/// "leaf ranges partition the primitive range exactly" invariant.
pub open spec fn leaves_tile(ns: Seq<NodeS>, lo: int, hi: int) -> bool
    decreases ns.len(),
{
    if ns.len() == 0 {
        lo == hi
    } else if ns[0].count > 0 {
        ns[0].left == lo && leaves_tile(ns.skip(1), lo + ns[0].count, hi)
    } else {
        leaves_tile(ns.skip(1), lo, hi)
    }
}

/// Tilings compose: nodes tiling `[lo, m)` followed by nodes tiling `[m, hi)`
/// tile `[lo, hi)`.
pub proof fn lemma_tile_concat(xs: Seq<NodeS>, ys: Seq<NodeS>, lo: int, m: int, hi: int)
    requires
        leaves_tile(xs, lo, m),
        leaves_tile(ys, m, hi),
    ensures
        leaves_tile(xs + ys, lo, hi),
    decreases xs.len(),
{
    if xs.len() == 0 {
        assert(xs + ys =~= ys);
    } else {
        assert((xs + ys).skip(1) =~= xs.skip(1) + ys);
        if xs[0].count > 0 {
            lemma_tile_concat(xs.skip(1), ys, lo + xs[0].count, m, hi);
        } else {
            lemma_tile_concat(xs.skip(1), ys, lo, m, hi);
        }
    }
}

/// Appending an internal node does not change what the leaves tile.
pub proof fn lemma_tile_push_internal(ns: Seq<NodeS>, x: NodeS, lo: int, hi: int)
    requires
        leaves_tile(ns, lo, hi),
        x.count == 0,
    ensures
        leaves_tile(ns.push(x), lo, hi),
    decreases ns.len(),
{
    if ns.len() == 0 {
        assert(ns.push(x)[0] == x);
        assert(ns.push(x).skip(1) =~= Seq::<NodeS>::empty());
        assert(leaves_tile(Seq::<NodeS>::empty(), lo, hi));
    } else {
        assert(ns.push(x).skip(1) =~= ns.skip(1).push(x));
        if ns[0].count > 0 {
            lemma_tile_push_internal(ns.skip(1), x, lo + ns[0].count, hi);
        } else {
            lemma_tile_push_internal(ns.skip(1), x, lo, hi);
        }
    }
}

/// The functional model of one build step over the index range
/// `[start, end)`: the box of the range picks the split axis; the range is
/// stably partitioned around the box centre on that axis, or split at its
/// middle index (order kept) when the partition would leave a side empty.
/// Returns the split index and the sphere sequence after the reorder.
pub open spec fn split_spec(s: Seq<Sphere>, start: int, end: int) -> (int, Seq<Sphere>) {
    let sub = s.subrange(start, end);
    let b = seq_box(sub);
    let a = largest_extent_axis(b);
    let t = v3_axis(b.lo, a) + v3_axis(b.hi, a);
    let lpart = sel(sub, a, t, true);
    let rpart = sel(sub, a, t, false);
    let nl = lpart.len() as int;
    if 0 < nl < end - start {
        (start + nl, s.subrange(0, start) + lpart + rpart + s.subrange(end, s.len() as int))
    } else {
        (start + (end - start) / 2, s)
    }
}

/// The functional model of the recursive build over `[start, end)`, emitting
/// nodes at array positions `base, base + 1, ...` in postorder (children
/// before parents, left subtree first). Returns the emitted nodes and the
/// sphere sequence after all reorders. The root of the emitted subtree is its
/// last node.
pub open spec fn spec_build_range(s: Seq<Sphere>, start: int, end: int, base: int) -> (
    Seq<NodeS>,
    Seq<Sphere>,
)
    decreases end - start,
{
    if start < 0 || end <= start || end > s.len() {
        (Seq::empty(), s)
    } else if end - start == 1 {
        (seq![mk_leaf(seq_box(s.subrange(start, end)), start, 1)], s)
    } else {
        let b = seq_box(s.subrange(start, end));
        let split = split_spec(s, start, end);
        let mid = split.0;
        let s1 = split.1;
        let left = spec_build_range(s1, start, mid, base);
        let ln = left.0;
        let s2 = left.1;
        let right = spec_build_range(s2, mid, end, base + ln.len());
        let rn = right.0;
        let s3 = right.1;
        (
            ln + rn + seq![
                mk_internal(b, base + ln.len() - 1, base + ln.len() + rn.len() - 1),
            ],
            s3,
        )
    }
}

/// Well-formedness of the node at position `j` of a subtree emitted at array
/// positions `base, base + 1, ...` over the primitive range `[start, end)`:
/// a leaf's range lies inside `[start, end)`; an internal node's children
/// precede it in the array, and its box contains both children's boxes.
pub open spec fn node_wf(ns: Seq<NodeS>, j: int, base: int, start: int, end: int) -> bool {
    let n = ns[j];
    if n.count > 0 {
        start <= n.left && n.left + n.count <= end
    } else {
        &&& base <= n.left < base + j
        &&& base <= n.right < base + j
        &&& box_contains(node_box(n), node_box(ns[n.left - base]))
        &&& box_contains(node_box(n), node_box(ns[n.right - base]))
    }
}

/// Bounded sequences stay bounded on subranges.
pub proof fn lemma_all_bounded_subrange(s: Seq<Sphere>, a: int, b: int)
    requires
        all_bounded(s),
        0 <= a <= b <= s.len(),
    ensures
        all_bounded(s.subrange(a, b)),
{
}

/// A box containing the box of every sphere of `sub` contains the box of any
/// sequence all of whose members come from `sub`.
proof fn lemma_box_covers_members(sub: Seq<Sphere>, part: Seq<Sphere>, b: BoxS)
    requires
        sub.len() >= 1,
        part.len() >= 1,
        forall|i: int| 0 <= i < part.len() ==> sub.contains(#[trigger] part[i]),
        b == seq_box(sub),
    ensures
        box_contains(b, seq_box(part)),
{
    lemma_seq_box_contains_elems(sub);
    assert forall|i: int| 0 <= i < part.len() implies box_contains(
        b,
        sphere_box(#[trigger] part[i]),
    ) by {
        let j = choose|j: int| 0 <= j < sub.len() && sub[j] == part[i];
        assert(box_contains(b, sphere_box(sub[j])));
    }
    lemma_seq_box_minimal(part, b);
}

/// The structural properties of one build step, proved by induction over the
/// range: node count `2 * count - 1`, spheres permuted within `[start, end)`
/// and untouched outside it, leaves tiling the range, every node well formed,
/// and the subtree root's box being exactly the range's box.
pub proof fn lemma_build_range_props(s: Seq<Sphere>, start: int, end: int, base: int)
    requires
        0 <= start < end <= s.len(),
        all_bounded(s),
    ensures
        ({
            let (ns, s2) = spec_build_range(s, start, end, base);
            &&& ns.len() == 2 * (end - start) - 1
            &&& s2.len() == s.len()
            &&& (forall|i: int| 0 <= i < s.len() && !(start <= i < end) ==> s2[i] == s[i])
            &&& s2.subrange(start, end).to_multiset() == s.subrange(start, end).to_multiset()
            &&& all_bounded(s2)
            &&& leaves_tile(ns, start, end)
            &&& (forall|j: int| 0 <= j < ns.len() ==> node_wf(ns, j, base, start, end))
            &&& node_box(ns.last()) == seq_box(s.subrange(start, end))
            &&& (forall|j: int| 0 <= j < ns.len() ==> box_bounded(node_box(#[trigger] ns[j])))
        }),
    decreases end - start,
{
    let sub = s.subrange(start, end);
    let count = end - start;
    lemma_all_bounded_subrange(s, start, end);
    lemma_seq_box_bounded(sub);
    if count == 1 {
        let ns = spec_build_range(s, start, end, base).0;
        assert(ns.len() == 1);
        assert(leaves_tile(ns, start, end)) by {
            assert(ns[0].count == 1 && ns[0].left == start);
            assert(ns.skip(1) =~= Seq::<NodeS>::empty());
            assert(leaves_tile(Seq::<NodeS>::empty(), start + 1, end));
        }
    } else {
        let b = seq_box(sub);
        let a = largest_extent_axis(b);
        let t = v3_axis(b.lo, a) + v3_axis(b.hi, a);
        let lpart = sel(sub, a, t, true);
        let rpart = sel(sub, a, t, false);
        let nl = lpart.len() as int;
        lemma_sel_len(sub, a, t);
        lemma_sel_contains(sub, a, t, true);
        lemma_sel_contains(sub, a, t, false);
        lemma_sel_bounded(sub, a, t, true);
        lemma_sel_bounded(sub, a, t, false);
        let split = split_spec(s, start, end);
        let mid = split.0;
        let s1 = split.1;
        assert(start < mid < end);
        // The reordered sequence agrees with the original outside the range,
        // has the same length, and its range is a permutation of the
        // original range.
        assert(s1.len() == s.len() && s1.subrange(start, end).to_multiset() == sub.to_multiset()
            && (forall|i: int| 0 <= i < s.len() && !(start <= i < end) ==> s1[i] == s[i])
            && all_bounded(s1) && s1.subrange(start, mid).len() >= 1 && (forall|i: int|
            0 <= i < s1.subrange(start, mid).len() ==> sub.contains(
                #[trigger] s1.subrange(start, mid)[i],
            )) && (forall|i: int|
            0 <= i < s1.subrange(mid, end).len() ==> sub.contains(
                #[trigger] s1.subrange(mid, end)[i],
            ))) by {
            if 0 < nl < count {
                let pre = s.subrange(0, start);
                let post = s.subrange(end, s.len() as int);
                assert(s1 =~= pre + lpart + rpart + post);
                assert(s1.subrange(start, end) =~= lpart + rpart);
                vstd::seq_lib::lemma_multiset_commutative(lpart, rpart);
                lemma_sel_multiset(sub, a, t);
                assert(s1.subrange(start, mid) =~= lpart);
                assert(s1.subrange(mid, end) =~= rpart);
            } else {
                assert(s1 == s);
                assert(forall|i: int|
                    0 <= i < s1.subrange(start, mid).len() ==> s1.subrange(start, mid)[i]
                        == sub[i]);
                assert(forall|i: int|
                    0 <= i < s1.subrange(mid, end).len() ==> s1.subrange(mid, end)[i] == sub[
                    i + (mid - start)]);
            }
        }
        let left = spec_build_range(s1, start, mid, base);
        let ln = left.0;
        let s2 = left.1;
        lemma_build_range_props(s1, start, mid, base);
        let right = spec_build_range(s2, mid, end, base + ln.len());
        let rn = right.0;
        let s3 = right.1;
        assert(s2.subrange(mid, end) =~= s1.subrange(mid, end));
        lemma_build_range_props(s2, mid, end, base + ln.len());
        let parent = mk_internal(b, base + ln.len() - 1, base + ln.len() + rn.len() - 1);
        let ns = spec_build_range(s, start, end, base).0;
        assert(ns =~= ln + rn + seq![parent]);
        assert(spec_build_range(s, start, end, base).1 == s3);
        // Spheres: length, untouched outside, permutation inside.
        assert(s3.subrange(start, mid) =~= s2.subrange(start, mid));
        assert(s3.subrange(start, end).to_multiset() == sub.to_multiset()) by {
            assert(s3.subrange(start, end) =~= s3.subrange(start, mid) + s3.subrange(mid, end));
            vstd::seq_lib::lemma_multiset_commutative(
                s3.subrange(start, mid),
                s3.subrange(mid, end),
            );
            assert(s1.subrange(start, end) =~= s1.subrange(start, mid) + s1.subrange(mid, end));
            vstd::seq_lib::lemma_multiset_commutative(
                s1.subrange(start, mid),
                s1.subrange(mid, end),
            );
        }
        // Leaves of the postorder subtree tile the range.
        assert(leaves_tile(ln, start, mid));
        assert(leaves_tile(rn, mid, end));
        lemma_tile_concat(ln, rn, start, mid, end);
        assert(leaves_tile(ln + rn, start, end));
        lemma_tile_push_internal(ln + rn, parent, start, end);
        assert(leaves_tile((ln + rn).push(parent), start, end));
        assert(ns =~= (ln + rn).push(parent));
        assert(leaves_tile(ns, start, end));
        // Child boxes are contained in the parent box.
        let lroot = ln.last();
        let rroot = rn.last();
        assert(box_contains(b, node_box(lroot))) by {
            lemma_box_covers_members(sub, s1.subrange(start, mid), b);
        }
        assert(box_contains(b, node_box(rroot))) by {
            lemma_box_covers_members(sub, s1.subrange(mid, end), b);
        }
        // Every emitted node is well formed.
        assert forall|j: int| 0 <= j < ns.len() implies node_wf(ns, j, base, start, end) by {
            if j < ln.len() {
                assert(ns[j] == ln[j]);
                assert(node_wf(ln, j, base, start, mid));
                if ln[j].count == 0 {
                    assert(ns[ln[j].left - base] == ln[ln[j].left - base]);
                    assert(ns[ln[j].right - base] == ln[ln[j].right - base]);
                }
            } else if j < ln.len() + rn.len() {
                let j2 = j - ln.len();
                assert(ns[j] == rn[j2]);
                assert(node_wf(rn, j2, base + ln.len(), mid, end));
                if rn[j2].count == 0 {
                    assert(ns[rn[j2].left - base] == rn[rn[j2].left - (base + ln.len())]);
                    assert(ns[rn[j2].right - base] == rn[rn[j2].right - (base + ln.len())]);
                }
            } else {
                assert(ns[j] == parent);
                assert(ns[parent.left - base] == lroot);
                assert(ns[parent.right - base] == rroot);
            }
        }
        // Every emitted box is bounded.
        assert forall|j: int| 0 <= j < ns.len() implies box_bounded(
            node_box(#[trigger] ns[j]),
        ) by {
            if j < ln.len() {
                assert(ns[j] == ln[j]);
            } else if j < ln.len() + rn.len() {
                assert(ns[j] == rn[j - ln.len()]);
            } else {
                assert(ns[j] == parent);
            }
        }
        assert(node_box(ns.last()) == b);
    }
}

/// The functional model of the whole build: for an empty scene a single
/// degenerate node, otherwise the recursive build over `[0, N)` emitting from
/// position 0.
pub open spec fn spec_build(s: Seq<Sphere>) -> (Seq<NodeS>, Seq<Sphere>) {
    if s.len() == 0 {
        (
            seq![
                mk_leaf(BoxS { lo: V3 { x: 0, y: 0, z: 0 }, hi: V3 { x: 0, y: 0, z: 0 } }, 0, 0),
            ],
            s,
        )
    } else {
        spec_build_range(s, 0, s.len() as int, 0)
    }
}

/// Node count of a well-formed BVH over `n` primitives.
pub open spec fn node_count(n: int) -> int {
    if n == 0 {
        1
    } else {
        2 * n - 1
    }
}

/// Well-formedness of a whole node array over `n` primitives: exactly
/// `max(1, 2n - 1)` nodes, leaf ranges partitioning `[0, n)` exactly, and
/// (for non-empty scenes) every internal node's box containing its children's
/// boxes, the children standing earlier in the array.
pub open spec fn wf_bvh(ns: Seq<NodeS>, n: int) -> bool {
    &&& ns.len() == node_count(n)
    &&& leaves_tile(ns, 0, n)
    &&& n > 0 ==> (forall|j: int| 0 <= j < ns.len() ==> node_wf(ns, j, 0, 0, n))
}

/// Law: for any bounded sphere sequence with `N >= 0` members, the build
/// model yields exactly `max(1, 2N - 1)` nodes, its leaf ranges partition
/// `[0, N)` exactly, every internal box contains the union of its children's
/// boxes, and the primitive array comes back as a permutation of the input.
pub proof fn lemma_build_well_formed(s: Seq<Sphere>)
    requires
        all_bounded(s),
    ensures
        wf_bvh(spec_build(s).0, s.len() as int),
        spec_build(s).1.to_multiset() == s.to_multiset(),
        spec_build(s).1.len() == s.len(),
{
    if s.len() == 0 {
        let ns = spec_build(s).0;
        assert(leaves_tile(ns, 0, 0)) by {
            assert(ns[0].count == 0);
            assert(ns.skip(1) =~= Seq::<NodeS>::empty());
            assert(leaves_tile(Seq::<NodeS>::empty(), 0, 0));
        }
    } else {
        let n = s.len() as int;
        lemma_build_range_props(s, 0, n, 0);
        let s2 = spec_build(s).1;
        assert(s.subrange(0, n) =~= s);
        assert(s2.subrange(0, n) =~= s2);
    }
}

/// Law: the build is deterministic. Its outcome is the value of the spec
/// function `spec_build` of the input sequence alone, so equal inputs give
/// equal node arrays and equal primitive permutations; the executable
/// builder's contract pins its results to the same function.
pub proof fn lemma_build_deterministic(s1: Seq<Sphere>, s2: Seq<Sphere>)
    requires
        s1 == s2,
    ensures
        spec_build(s1) == spec_build(s2),
{
}

/// A flattened BVH node in fixed-point coordinates. `count > 0` marks a
/// leaf over primitives `[left, left + count)`; `count == 0` marks an
/// internal node with children `left` and `right`.
#[derive(Clone, Copy, PartialEq, Eq, Structural, Debug)]
pub struct BvhNode {
    pub min: Vec3Fp,
    pub max: Vec3Fp,
    pub left: usize,
    pub right: usize,
    pub count: usize,
}

impl BvhNode {
    /// The node as its specification-level value.
    pub open spec fn spec_view(self) -> NodeS {
        NodeS {
            lo: self.min.spec_view(),
            hi: self.max.spec_view(),
            left: self.left as int,
            right: self.right as int,
            count: self.count as int,
        }
    }
}

/// The node array as its specification-level value.
pub open spec fn nodes_view(ns: Seq<BvhNode>) -> Seq<NodeS> {
    ns.map_values(|n: BvhNode| n.spec_view())
}

proof fn lemma_nodes_view_push(ns: Seq<BvhNode>, x: BvhNode)
    ensures
        nodes_view(ns.push(x)) == nodes_view(ns).push(x.spec_view()),
{
    assert(nodes_view(ns.push(x)) =~= nodes_view(ns).push(x.spec_view()));
}

fn imin(a: i64, b: i64) -> (r: i64)
    ensures
        r as int == min2(a as int, b as int),
{
    if a <= b {
        a
    } else {
        b
    }
}

fn imax(a: i64, b: i64) -> (r: i64)
    ensures
        r as int == max2(a as int, b as int),
{
    if a >= b {
        a
    } else {
        b
    }
}

/// The bounding box of one sphere: center offset by radius on each axis.
fn sphere_box_exec(s: &Sphere) -> (r: Aabb)
    requires
        sphere_bounded(*s),
    ensures
        r.spec_view() == sphere_box(*s),
{
    Aabb {
        min: Vec3Fp {
            x: s.center.x - s.radius,
            y: s.center.y - s.radius,
            z: s.center.z - s.radius,
        },
        max: Vec3Fp {
            x: s.center.x + s.radius,
            y: s.center.y + s.radius,
            z: s.center.z + s.radius,
        },
    }
}

fn box_union_exec(a: Aabb, b: Aabb) -> (r: Aabb)
    ensures
        r.spec_view() == box_union(a.spec_view(), b.spec_view()),
{
    Aabb {
        min: Vec3Fp {
            x: imin(a.min.x, b.min.x),
            y: imin(a.min.y, b.min.y),
            z: imin(a.min.z, b.min.z),
        },
        max: Vec3Fp {
            x: imax(a.max.x, b.max.x),
            y: imax(a.max.y, b.max.y),
            z: imax(a.max.z, b.max.z),
        },
    }
}

/// The bounding box of the primitive range `[start, end)`.
fn range_box(spheres: &Vec<Sphere>, start: usize, end: usize) -> (r: Aabb)
    requires
        start < end <= spheres@.len(),
        all_bounded(spheres@),
    ensures
        r.spec_view() == seq_box(spheres@.subrange(start as int, end as int)),
{
    let mut r = sphere_box_exec(&spheres[start]);
    proof {
        let sub1 = spheres@.subrange(start as int, start + 1);
        assert(sub1.len() == 1 && sub1[0] == spheres@[start as int]);
    }
    let mut i = start + 1;
    while i < end
        invariant
            start < i <= end <= spheres@.len(),
            all_bounded(spheres@),
            r.spec_view() == seq_box(spheres@.subrange(start as int, i as int)),
        decreases end - i,
    {
        r = box_union_exec(r, sphere_box_exec(&spheres[i]));
        proof {
            let subn = spheres@.subrange(start as int, i + 1);
            assert(subn.drop_last() =~= spheres@.subrange(start as int, i as int));
            assert(subn.last() == spheres@[i as int]);
        }
        i = i + 1;
    }
    r
}

/// The axis along which the box is widest, ties resolving to the lowest
/// axis index.
fn largest_axis_exec(b: &Aabb) -> (a: usize)
    requires
        box_bounded(b.spec_view()),
    ensures
        a < 3,
        a as int == largest_extent_axis(b.spec_view()),
{
    let ex = b.max.x - b.min.x;
    let ey = b.max.y - b.min.y;
    let ez = b.max.z - b.min.z;
    if ex >= ey && ex >= ez {
        0
    } else if ey >= ez {
        1
    } else {
        2
    }
}

/// Stable in-place partition of the range `[start, end)` around the split
/// value `t` on the given axis: primitives whose doubled centroid lies below
/// `t` move to the front, keeping their relative order, the rest follow,
/// keeping theirs. When every primitive falls on one side the range is left
/// untouched and the split is the middle index.
fn split_range(spheres: &mut Vec<Sphere>, start: usize, end: usize, axisv: usize, t: i64) -> (mid:
    usize)
    requires
        axisv < 3,
        start < end <= old(spheres)@.len(),
        end - start >= 2,
        all_bounded(old(spheres)@),
    ensures
        start < mid < end,
        final(spheres)@.len() == old(spheres)@.len(),
        ({
            let sub = old(spheres)@.subrange(start as int, end as int);
            let lp = sel(sub, axisv as int, t as int, true);
            let rp = sel(sub, axisv as int, t as int, false);
            if 0 < lp.len() < end - start {
                mid == start + lp.len() && final(spheres)@ == old(spheres)@.subrange(0, start as int)
                    + lp + rp + old(spheres)@.subrange(end as int, old(spheres)@.len() as int)
            } else {
                mid == start + (end - start) / 2 && final(spheres)@ == old(spheres)@
            }
        }),
{
    let ghost a = axisv as int;
    let ghost tt = t as int;
    let mut ltmp: Vec<Sphere> = Vec::new();
    let mut rtmp: Vec<Sphere> = Vec::new();
    let mut i = start;
    while i < end
        invariant
            start <= i <= end <= spheres@.len(),
            axisv < 3,
            a == axisv as int,
            tt == t as int,
            all_bounded(spheres@),
            spheres@ == old(spheres)@,
            ltmp@ == sel(spheres@.subrange(start as int, i as int), a, tt, true),
            rtmp@ == sel(spheres@.subrange(start as int, i as int), a, tt, false),
        decreases end - i,
    {
        let s = spheres[i];
        let c = s.center.axis(axisv);
        if 2 * c < t {
            ltmp.push(s);
        } else {
            rtmp.push(s);
        }
        proof {
            let prev = spheres@.subrange(start as int, i as int);
            let subn = spheres@.subrange(start as int, i + 1);
            assert(subn.drop_last() =~= prev);
            assert(subn.last() == spheres@[i as int]);
            assert(s == spheres@[i as int]);
            assert(c == s.center.spec_axis(a));
            assert((2 * (c as int) < tt) == goes_left(spheres@[i as int], a, tt));
            if goes_left(spheres@[i as int], a, tt) {
                assert(sel(subn, a, tt, true) == sel(prev, a, tt, true).push(subn.last()));
                assert(sel(subn, a, tt, false) == sel(prev, a, tt, false));
            } else {
                assert(sel(subn, a, tt, true) == sel(prev, a, tt, true));
                assert(sel(subn, a, tt, false) == sel(prev, a, tt, false).push(subn.last()));
            }
        }
        i = i + 1;
    }
    proof {
        assert(spheres@.subrange(start as int, end as int) == old(spheres)@.subrange(
            start as int,
            end as int,
        ));
        lemma_sel_len(old(spheres)@.subrange(start as int, end as int), a, tt);
        lemma_sel_bounded(old(spheres)@.subrange(start as int, end as int), a, tt, true);
        lemma_sel_bounded(old(spheres)@.subrange(start as int, end as int), a, tt, false);
    }
    let nl = ltmp.len();
    let count = end - start;
    if nl == 0 || nl == count {
        return start + count / 2;
    }
    let mut j: usize = 0;
    while j < nl
        invariant
            j <= nl,
            nl < count,
            start < end <= spheres@.len(),
            count == end - start,
            nl == ltmp@.len(),
            nl + rtmp@.len() == count,
            spheres@.len() == old(spheres)@.len(),
            forall|k: int|
                0 <= k < spheres@.len() && !(start <= k < start + j) ==> spheres@[k] == old(
                    spheres,
                )@[k],
            forall|k: int| 0 <= k < j ==> spheres@[start + k] == ltmp@[k],
            all_bounded(ltmp@),
            all_bounded(rtmp@),
            all_bounded(old(spheres)@),
        decreases nl - j,
    {
        spheres.set(start + j, ltmp[j]);
        j = j + 1;
    }
    let mut j2: usize = 0;
    while j2 < count - nl
        invariant
            j2 <= count - nl,
            0 < nl < count,
            start < end <= spheres@.len(),
            count == end - start,
            nl == ltmp@.len(),
            nl + rtmp@.len() == count,
            spheres@.len() == old(spheres)@.len(),
            forall|k: int|
                0 <= k < spheres@.len() && !(start <= k < start + nl + j2) ==> spheres@[k] == old(
                    spheres,
                )@[k],
            forall|k: int| 0 <= k < nl ==> spheres@[start + k] == ltmp@[k],
            forall|k: int| 0 <= k < j2 ==> spheres@[start + nl + k] == rtmp@[k],
        decreases count - nl - j2,
    {
        spheres.set(start + nl + j2, rtmp[j2]);
        j2 = j2 + 1;
    }
    proof {
        let pre = old(spheres)@.subrange(0, start as int);
        let post = old(spheres)@.subrange(end as int, old(spheres)@.len() as int);
        assert(spheres@ =~= pre + ltmp@ + rtmp@ + post);
    }
    start + nl
}

/// The recursive build over `[start, end)`: emits the subtree's nodes in
/// postorder onto `nodes` and returns the index of the subtree's root (its
/// last node). The result is pinned to the functional model
/// `spec_build_range`.
fn build_range(spheres: &mut Vec<Sphere>, nodes: &mut Vec<BvhNode>, start: usize, end: usize) -> (
    root: usize)
    requires
        start < end <= old(spheres)@.len(),
        all_bounded(old(spheres)@),
        old(nodes)@.len() + 2 * (end - start) <= usize::MAX,
    ensures
        ({
            let r = spec_build_range(old(spheres)@, start as int, end as int, old(nodes)@.len() as int);
            &&& nodes_view(final(nodes)@) == nodes_view(old(nodes)@) + r.0
            &&& final(spheres)@ == r.1
            &&& final(nodes)@.len() == old(nodes)@.len() + 2 * (end - start) - 1
            &&& root == final(nodes)@.len() - 1
        }),
    decreases end - start,
{
    let ghost s0 = spheres@;
    let ghost base = nodes@.len() as int;
    proof {
        lemma_build_range_props(s0, start as int, end as int, base);
    }
    let bbox = range_box(spheres, start, end);
    if end - start == 1 {
        let node = BvhNode { min: bbox.min, max: bbox.max, left: start, right: 0, count: 1 };
        nodes.push(node);
        proof {
            let r = spec_build_range(s0, start as int, end as int, base);
            assert(node.spec_view() == mk_leaf(
                seq_box(s0.subrange(start as int, end as int)),
                start as int,
                1,
            ));
            lemma_nodes_view_push(old(nodes)@, node);
            assert(nodes_view(nodes@) =~= nodes_view(old(nodes)@) + r.0);
        }
        return nodes.len() - 1;
    }
    let axisv = largest_axis_exec(&bbox);
    proof {
        lemma_seq_box_bounded(s0.subrange(start as int, end as int));
    }
    let t = bbox.min.axis(axisv) + bbox.max.axis(axisv);
    let mid = split_range(spheres, start, end, axisv, t);
    let ghost s1 = spheres@;
    proof {
        let sub = s0.subrange(start as int, end as int);
        let split = split_spec(s0, start as int, end as int);
        assert(split.0 == mid as int && split.1 == s1) by {
            let b = seq_box(sub);
            assert(bbox.spec_view() == b);
            assert(axisv as int == largest_extent_axis(b));
            assert(t as int == v3_axis(b.lo, axisv as int) + v3_axis(b.hi, axisv as int));
        }
        lemma_sel_bounded(sub, axisv as int, t as int, true);
        lemma_sel_bounded(sub, axisv as int, t as int, false);
        lemma_sel_len(sub, axisv as int, t as int);
        assert(all_bounded(s1)) by {
            let lp = sel(sub, axisv as int, t as int, true);
            let rp = sel(sub, axisv as int, t as int, false);
            if 0 < lp.len() < end - start {
                let pre = s0.subrange(0, start as int);
                let post = s0.subrange(end as int, s0.len() as int);
                assert(s1 == pre + lp + rp + post);
                assert forall|k: int| 0 <= k < s1.len() implies sphere_bounded(
                    #[trigger] s1[k],
                ) by {
                    if k < start as int {
                        assert(s1[k] == s0[k]);
                    } else if k < start + lp.len() {
                        assert(s1[k] == lp[k - start]);
                    } else if k < start + lp.len() + rp.len() {
                        assert(s1[k] == rp[k - start - lp.len()]);
                    } else {
                        assert(s1[k] == s0[k]);
                    }
                }
            }
        }
        lemma_build_range_props(s1, start as int, mid as int, base);
    }
    let left_root = build_range(spheres, nodes, start, mid);
    let ghost s2 = spheres@;
    let right_root = build_range(spheres, nodes, mid, end);
    let node = BvhNode {
        min: bbox.min,
        max: bbox.max,
        left: left_root,
        right: right_root,
        count: 0,
    };
    proof {
        let r = spec_build_range(s0, start as int, end as int, base);
        let lres = spec_build_range(s1, start as int, mid as int, base);
        let rres = spec_build_range(s2, mid as int, end as int, base + lres.0.len());
        let nv = node.spec_view();
        assert(nv == mk_internal(
            seq_box(s0.subrange(start as int, end as int)),
            base + lres.0.len() - 1,
            base + lres.0.len() + rres.0.len() - 1,
        ));
        assert(r.0 == lres.0 + rres.0 + seq![nv]);
        lemma_nodes_view_push(nodes@, node);
        assert(nodes_view(nodes@) == nodes_view(old(nodes)@) + lres.0 + rres.0);
        assert((nodes_view(old(nodes)@) + lres.0 + rres.0).push(nv) =~= nodes_view(old(nodes)@) + (
        lres.0 + rres.0 + seq![nv]));
    }
    nodes.push(node);
    nodes.len() - 1
}

/// The flattened BVH over a scene's primitives.
pub struct BVHTree {
    pub nodes: Vec<BvhNode>,
    pub num_primitives: usize,
}

impl BVHTree {
    /// An empty tree prepared for `n` primitives.
    pub fn new(n: usize) -> (r: BVHTree)
        ensures
            r.nodes@.len() == 0,
            r.num_primitives == n,
    {
        BVHTree { nodes: Vec::new(), num_primitives: n }
    }

    /// Build the tree, reordering `spheres` in place. The node array and the
    /// final sphere order are exactly the values of the functional model
    /// `spec_build` of the input, so the build is deterministic; by
    /// `lemma_build_well_formed` the node array is well formed and the
    /// spheres come back as a permutation of the input.
    pub fn build_bvh_tree(&mut self, spheres: &mut Vec<Sphere>)
        requires
            old(self).nodes@.len() == 0,
            old(spheres)@.len() == old(self).num_primitives,
            all_bounded(old(spheres)@),
            2 * old(spheres)@.len() <= usize::MAX,
        ensures
            nodes_view(final(self).nodes@) == spec_build(old(spheres)@).0,
            final(spheres)@ == spec_build(old(spheres)@).1,
            final(self).num_primitives == old(self).num_primitives,
            final(self).nodes@.len() == node_count(old(spheres)@.len() as int),
            wf_bvh(nodes_view(final(self).nodes@), old(spheres)@.len() as int),
            final(spheres)@.to_multiset() == old(spheres)@.to_multiset(),
    {
        proof {
            lemma_build_well_formed(spheres@);
        }
        let n = spheres.len();
        if n == 0 {
            let node = BvhNode {
                min: Vec3Fp { x: 0, y: 0, z: 0 },
                max: Vec3Fp { x: 0, y: 0, z: 0 },
                left: 0,
                right: 0,
                count: 0,
            };
            self.nodes.push(node);
            proof {
                assert(nodes_view(self.nodes@) =~= spec_build(spheres@).0);
            }
        } else {
            proof {
                lemma_build_range_props(spheres@, 0, n as int, 0);
            }
            build_range(spheres, &mut self.nodes, 0, n);
            proof {
                assert(nodes_view(old(self).nodes@) =~= Seq::<NodeS>::empty());
                assert(nodes_view(self.nodes@) =~= Seq::<NodeS>::empty() + spec_build(
                    old(spheres)@,
                ).0);
                assert(Seq::<NodeS>::empty() + spec_build(old(spheres)@).0 =~= spec_build(
                    old(spheres)@,
                ).0);
            }
        }
    }
}

} // verus!
