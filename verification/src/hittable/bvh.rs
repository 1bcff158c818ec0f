//! The bounding-volume hierarchy: a binary tree of nested boxes over a set of
//! objects, built once and then searched many times.
use vstd::prelude::*;
use vstd::seq_lib::lemma_multiset_commutative;
use crate::random::Random;
use crate::scalar::Scalar;
use super::aabb::{lemma_surrounding_box_contains, Aabb};
use super::{closest_so_far, later_or, HitRecord};

verus! {

/// An object together with the box round it, `None` where it has none.
#[derive(Debug)]
pub struct Bounded<T> {
    pub object: T,
    pub bbox: Option<Aabb>,
}

/// A node of the hierarchy: a leaf with one object, or two subtrees and the
/// box round both.
#[derive(Debug)]
pub enum BvhNode<T> {
    Node { left: Box<BvhNode<T>>, right: Box<BvhNode<T>>, bb: Aabb },
    Leaf(Bounded<T>),
}

/// The rank by which an object is ordered along an axis (0 for x, 1 for y,
/// anything else for z): that of the minimum corner of its box, and 0 for an
/// object without a box.
pub open spec fn axis_key<T>(item: Bounded<T>, axis: int) -> int {
    match item.bbox {
        Some(bb) => bb.minimum.component(axis)@,
        None => 0,
    }
}

/// Whether every object has a box.
pub open spec fn all_bounded<T>(objects: Seq<Bounded<T>>) -> bool {
    forall|i: int| 0 <= i < objects.len() ==> (#[trigger] objects[i]).bbox is Some
}

/// Whether the objects stand in the order of their keys along an axis.
pub open spec fn ordered_along<T>(objects: Seq<Bounded<T>>, axis: int) -> bool {
    forall|i: int, j: int|
        0 <= i <= j < objects.len() ==> axis_key(#[trigger] objects[i], axis) <= axis_key(
            #[trigger] objects[j],
            axis,
        )
}

/// Whether no object of `low` has a larger key along the axis than any object
/// of `high`.
pub open spec fn separated_along<T>(
    low: Seq<Bounded<T>>,
    high: Seq<Bounded<T>>,
    axis: int,
) -> bool {
    forall|i: int, j: int|
        0 <= i < low.len() && 0 <= j < high.len() ==> axis_key(#[trigger] low[i], axis)
            <= axis_key(#[trigger] high[j], axis)
}

/// Two to the power `n`.
pub open spec fn pow2(n: nat) -> nat
    decreases n,
{
    if n == 0 {
        1
    } else {
        2 * pow2((n - 1) as nat)
    }
}

impl<T> Bounded<T> {
    /// An object with its box.
    pub fn new(object: T, bbox: Option<Aabb>) -> (r: Bounded<T>)
        ensures
            r.object == object,
            r.bbox == bbox,
    {
        Bounded { object, bbox }
    }

    /// The rank by which the object is ordered along an axis.
    pub fn key(&self, axis: usize) -> (k: i64)
        ensures
            k == axis_key(*self, axis as int),
    {
        match &self.bbox {
            Some(bb) => bb.minimum.axis(axis).rank(),
            None => 0,
        }
    }
}

/// Sorts the objects by their keys along an axis.
///
/// This is std's `sort_by_cached_key` on the whole list with `Bounded::key` as
/// the key: afterwards the list holds the same objects, each as often as
/// before, in the order of their keys. That objects with equal keys keep their
/// order, which std also promises, is not stated.
#[verifier::external_body]
fn sort_by_axis<T>(objects: &mut Vec<Bounded<T>>, axis: usize)
    ensures
        final(objects)@.to_multiset() == old(objects)@.to_multiset(),
        ordered_along(final(objects)@, axis as int),
{
    objects.sort_by_cached_key(|o| o.key(axis));
}

impl<T> BvhNode<T> {
    /// The objects at the leaves, from left to right.
    pub open spec fn leaves(self) -> Seq<Bounded<T>>
        decreases self,
    {
        match self {
            BvhNode::Node { left, right, bb } => left.leaves() + right.leaves(),
            BvhNode::Leaf(item) => seq![item],
        }
    }

    /// The box of the node: the cached box of an inner node, the object's box
    /// at a leaf.
    pub open spec fn bbox(self) -> Option<Aabb> {
        match self {
            BvhNode::Node { left, right, bb } => Some(bb),
            BvhNode::Leaf(item) => item.bbox,
        }
    }

    /// The number of nodes on the longest way from this node down to a leaf,
    /// the leaf not counted.
    pub open spec fn height(self) -> nat
        decreases self,
    {
        match self {
            BvhNode::Node { left, right, bb } => {
                if left.height() >= right.height() {
                    left.height() + 1
                } else {
                    right.height() + 1
                }
            },
            BvhNode::Leaf(item) => 0,
        }
    }

    /// Whether every leaf has a box and every inner node caches the union of
    /// the boxes of its two children.
    pub open spec fn well_formed(self) -> bool
        decreases self,
    {
        match self {
            BvhNode::Node { left, right, bb } => {
                &&& left.well_formed()
                &&& right.well_formed()
                &&& left.bbox() is Some
                &&& right.bbox() is Some
                &&& bb == left.bbox().unwrap().union(right.bbox().unwrap())
            },
            BvhNode::Leaf(item) => item.bbox is Some,
        }
    }

    /// Whether every inner node has half of its objects, rounded down, in its
    /// left subtree.
    pub open spec fn split_at_midpoint(self) -> bool
        decreases self,
    {
        match self {
            BvhNode::Node { left, right, bb } => {
                &&& left.split_at_midpoint()
                &&& right.split_at_midpoint()
                &&& left.leaves().len() == (left.leaves().len() + right.leaves().len()) / 2
            },
            BvhNode::Leaf(item) => true,
        }
    }

    /// Whether every inner node parts its objects along one of the three axes:
    /// no object on the left has a larger key than an object on the right.
    pub open spec fn split_along_axis(self) -> bool
        decreases self,
    {
        match self {
            BvhNode::Node { left, right, bb } => {
                &&& left.split_along_axis()
                &&& right.split_along_axis()
                &&& exists|axis: int|
                    0 <= axis < 3 && #[trigger] separated_along(
                        left.leaves(),
                        right.leaves(),
                        axis,
                    )
            },
            BvhNode::Leaf(item) => true,
        }
    }

    /// What a search of the tree may return. At a leaf the object is probed.
    /// At an inner node the box is probed first, and a miss ends the search
    /// there; else the left subtree is searched, then the right one on the
    /// stretch that ends at the left one's hit, and a hit on the right is
    /// preferred.
    pub open spec fn traversed<
        M,
        B: Fn(&Aabb, Scalar, Scalar) -> bool,
        L: Fn(&T, Scalar, Scalar) -> Option<HitRecord<M>>,
    >(
        self,
        box_probe: B,
        probe: L,
        t_min: Scalar,
        t_max: Scalar,
        rec: Option<HitRecord<M>>,
    ) -> bool
        decreases self,
    {
        match self {
            BvhNode::Node { left, right, bb } => {
                ||| call_ensures(box_probe, (&bb, t_min, t_max), false) && rec is None
                ||| call_ensures(box_probe, (&bb, t_min, t_max), true) && exists|
                    rec_l: Option<HitRecord<M>>,
                    rec_r: Option<HitRecord<M>>,
                |
                    {
                        &&& left.traversed(box_probe, probe, t_min, t_max, rec_l)
                        &&& right.traversed(
                            box_probe,
                            probe,
                            t_min,
                            closest_so_far(t_max, rec_l),
                            rec_r,
                        )
                        &&& rec == later_or(rec_r, rec_l)
                    }
            },
            BvhNode::Leaf(item) => call_ensures(probe, (&item.object, t_min, t_max), rec),
        }
    }

    /// Builds the hierarchy over a set of objects.
    ///
    /// Nothing is built for an empty set or where an object has no box. One
    /// object becomes a leaf. More are sorted by the minimum corner of their
    /// boxes along an axis drawn at random, parted at the midpoint, and each
    /// half is built in the same way; the node caches the union of the two
    /// halves' boxes.
    pub fn new(objects: Vec<Bounded<T>>, rng: &mut Random) -> (tree: Option<BvhNode<T>>)
        ensures
            tree is None <==> objects@.len() == 0 || !all_bounded(objects@),
            tree matches Some(t) ==> {
                &&& t.leaves().to_multiset() == objects@.to_multiset()
                &&& t.well_formed()
                &&& t.split_at_midpoint()
                &&& t.split_along_axis()
            },
    {
        if objects.len() == 0 {
            return None;
        }
        let mut i: usize = 0;
        while i < objects.len()
            invariant
                i <= objects.len(),
                forall|k: int| 0 <= k < i ==> (#[trigger] objects@[k]).bbox is Some,
            decreases objects.len() - i,
        {
            if objects[i].bbox.is_none() {
                return None;
            }
            i += 1;
        }
        Some(BvhNode::build(objects, rng))
    }

    /// Builds the hierarchy over objects that all have a box.
    fn build(objects: Vec<Bounded<T>>, rng: &mut Random) -> (tree: BvhNode<T>)
        requires
            objects@.len() > 0,
            all_bounded(objects@),
        ensures
            tree.leaves().to_multiset() == objects@.to_multiset(),
            tree.leaves().len() == objects@.len(),
            tree.well_formed(),
            tree.split_at_midpoint(),
            tree.split_along_axis(),
        decreases objects@.len(),
    {
        let mut objects = objects;
        let ghost given = objects@;
        let len: usize = objects.len();
        if len == 1 {
            let item = objects.pop().unwrap();
            proof {
                assert(given =~= seq![item]);
            }
            return BvhNode::Leaf(item);
        }
        let axis: usize = match rng.range_i32(0, 3) {
            0 => 0,
            1 => 1,
            _ => 2,
        };
        sort_by_axis(&mut objects, axis);
        let ghost sorted = objects@;
        proof {
            sorted.to_multiset_ensures();
            given.to_multiset_ensures();
            assert forall|i: int| 0 <= i < sorted.len() implies (#[trigger] sorted[i]).bbox
                is Some by {
                lemma_same_members(sorted, given, sorted[i]);
            }
        }
        let right_half = objects.split_off(len / 2);
        let ghost low = objects@;
        let ghost high = right_half@;
        proof {
            assert(sorted =~= low + high);
            lemma_multiset_commutative(low, high);
            assert(separated_along(low, high, axis as int)) by {
                assert forall|i: int, j: int|
                    0 <= i < low.len() && 0 <= j < high.len() implies axis_key(
                    #[trigger] low[i],
                    axis as int,
                ) <= axis_key(#[trigger] high[j], axis as int) by {
                    assert(low[i] == sorted[i]);
                    assert(high[j] == sorted[low.len() + j]);
                }
            }
        }
        let left = BvhNode::build(objects, rng);
        let right = BvhNode::build(right_half, rng);
        proof {
            lemma_multiset_commutative(left.leaves(), right.leaves());
            lemma_separated_by_members(low, high, left.leaves(), right.leaves(), axis as int);
        }
        proof {
            lemma_well_formed_has_box(left);
            lemma_well_formed_has_box(right);
        }
        let bb = left.bounding_box().unwrap().surrounding_box(&right.bounding_box().unwrap());
        BvhNode::Node { left: Box::new(left), right: Box::new(right), bb }
    }

    /// The box round everything below this node.
    pub fn bounding_box(&self) -> (bb: Option<Aabb>)
        ensures
            bb == self.bbox(),
    {
        match self {
            BvhNode::Node { left, right, bb } => Some(*bb),
            BvhNode::Leaf(item) => item.bbox,
        }
    }

    /// The nearest hit below this node between `t_min` and `t_max`, as the two
    /// probes report hits: `box_probe` for a box, `probe` for an object. A
    /// subtree whose box is missed is not searched.
    pub fn hit<
        M,
        B: Fn(&Aabb, Scalar, Scalar) -> bool,
        L: Fn(&T, Scalar, Scalar) -> Option<HitRecord<M>>,
    >(&self, box_probe: &B, probe: &L, t_min: Scalar, t_max: Scalar) -> (rec: Option<
        HitRecord<M>,
    >)
        requires
            forall|bb: &Aabb, a: Scalar, b: Scalar| call_requires(*box_probe, (bb, a, b)),
            forall|i: int, a: Scalar, b: Scalar|
                0 <= i < self.leaves().len() ==> call_requires(
                    *probe,
                    (&self.leaves()[i].object, a, b),
                ),
        ensures
            self.traversed(*box_probe, *probe, t_min, t_max, rec),
        decreases self,
    {
        match self {
            BvhNode::Node { left, right, bb } => {
                if !box_probe(bb, t_min, t_max) {
                    return None;
                }
                proof {
                    let low = left.leaves();
                    let high = right.leaves();
                    assert forall|i: int, a: Scalar, b: Scalar| 0 <= i < low.len() implies call_requires(
                        *probe,
                        (&low[i].object, a, b),
                    ) by {
                        assert(self.leaves()[i] == low[i]);
                    }
                    assert forall|i: int, a: Scalar, b: Scalar| 0 <= i < high.len() implies call_requires(
                        *probe,
                        (&high[i].object, a, b),
                    ) by {
                        assert(self.leaves()[low.len() + i] == high[i]);
                    }
                }
                let rec_l = left.hit(box_probe, probe, t_min, t_max);
                let closest = match &rec_l {
                    Some(found) => found.t,
                    None => t_max,
                };
                let rec_r = right.hit(box_probe, probe, t_min, closest);
                proof {
                    assert(self.traversed(
                        *box_probe,
                        *probe,
                        t_min,
                        t_max,
                        later_or(rec_r, rec_l),
                    ));
                }
                if rec_r.is_some() {
                    rec_r
                } else {
                    rec_l
                }
            },
            BvhNode::Leaf(item) => {
                proof {
                    assert(self.leaves()[0] == *item);
                }
                probe(&item.object, t_min, t_max)
            },
        }
    }
}

/// A well-formed tree has a box.
pub proof fn lemma_well_formed_has_box<T>(tree: BvhNode<T>)
    requires
        tree.well_formed(),
    ensures
        tree.bbox() is Some,
{
}

/// A tree has at least one leaf.
pub proof fn lemma_tree_has_leaves<T>(tree: BvhNode<T>)
    ensures
        tree.leaves().len() >= 1,
    decreases tree,
{
    match tree {
        BvhNode::Node { left, right, bb } => {
            lemma_tree_has_leaves(*left);
            lemma_tree_has_leaves(*right);
        },
        BvhNode::Leaf(item) => {},
    }
}

/// Powers of two grow with the exponent.
proof fn lemma_pow2_monotonic(m: nat, n: nat)
    requires
        m <= n,
    ensures
        pow2(m) <= pow2(n),
        pow2(m) >= 1,
    decreases n,
{
    if m == 0 {
        if n > 0 {
            lemma_pow2_monotonic(0, (n - 1) as nat);
        }
    } else {
        lemma_pow2_monotonic((m - 1) as nat, (n - 1) as nat);
    }
}

/// A tree that parts its objects at the midpoint is as low as a binary tree
/// over that many objects can be: its height is the binary logarithm of the
/// number of its objects, rounded up.
pub proof fn lemma_height_is_log2<T>(tree: BvhNode<T>)
    requires
        tree.split_at_midpoint(),
    ensures
        tree.leaves().len() <= pow2(tree.height()),
        tree.height() > 0 ==> pow2((tree.height() - 1) as nat) < tree.leaves().len(),
    decreases tree,
{
    match tree {
        BvhNode::Node { left, right, bb } => {
            lemma_height_is_log2(*left);
            lemma_height_is_log2(*right);
            lemma_tree_has_leaves(*left);
            lemma_tree_has_leaves(*right);
            let hl = left.height();
            let hr = right.height();
            let h = tree.height();
            lemma_pow2_monotonic(hl, (h - 1) as nat);
            lemma_pow2_monotonic(hr, (h - 1) as nat);
            if hl > 0 {
                assert(pow2(hl) == 2 * pow2((hl - 1) as nat));
            }
            if hr > 0 {
                assert(pow2(hr) == 2 * pow2((hr - 1) as nat));
            }
            assert(pow2(h) == 2 * pow2((h - 1) as nat));
        },
        BvhNode::Leaf(item) => {},
    }
}

/// In a well-formed tree whose objects have ordered boxes, the box of the tree
/// is ordered and contains the box of every object below.
pub proof fn lemma_box_contains_leaves<T>(tree: BvhNode<T>)
    requires
        tree.well_formed(),
        forall|i: int|
            0 <= i < tree.leaves().len() ==> ((#[trigger] tree.leaves()[i]).bbox matches Some(bb)
                ==> bb.is_ordered()),
    ensures
        tree.bbox() is Some,
        tree.bbox().unwrap().is_ordered(),
        forall|i: int|
            0 <= i < tree.leaves().len() ==> ((#[trigger] tree.leaves()[i]).bbox matches Some(bb)
                ==> tree.bbox().unwrap().contains_box(bb)),
    decreases tree,
{
    match tree {
        BvhNode::Node { left, right, bb } => {
            let low = left.leaves();
            let high = right.leaves();
            assert forall|i: int| 0 <= i < low.len() implies ((#[trigger] low[i]).bbox matches Some(
                b,
            ) ==> b.is_ordered()) by {
                assert(tree.leaves()[i] == low[i]);
            }
            assert forall|i: int| 0 <= i < high.len() implies ((
            #[trigger] high[i]).bbox matches Some(b) ==> b.is_ordered()) by {
                assert(tree.leaves()[low.len() + i] == high[i]);
            }
            lemma_box_contains_leaves(*left);
            lemma_box_contains_leaves(*right);
            let lb = left.bbox().unwrap();
            let rb = right.bbox().unwrap();
            lemma_surrounding_box_contains(lb, rb);
            assert forall|i: int| 0 <= i < tree.leaves().len() implies ((
            #[trigger] tree.leaves()[i]).bbox matches Some(b) ==> bb.contains_box(b)) by {
                if tree.leaves()[i].bbox is Some {
                    let b = tree.leaves()[i].bbox.unwrap();
                    if i < low.len() {
                        assert(tree.leaves()[i] == low[i]);
                        assert(lb.contains_box(b));
                        lemma_contains_box_transitive(bb, lb, b);
                    } else {
                        assert(tree.leaves()[i] == high[i - low.len()]);
                        assert(rb.contains_box(b));
                        lemma_contains_box_transitive(bb, rb, b);
                    }
                }
            }
        },
        BvhNode::Leaf(item) => {
            assert(tree.leaves()[0] == item);
        },
    }
}

/// A box that contains an ordered box contains every box inside that one.
pub proof fn lemma_contains_box_transitive(outer: Aabb, middle: Aabb, inner: Aabb)
    requires
        outer.contains_box(middle),
        middle.contains_box(inner),
    ensures
        outer.contains_box(inner),
{
    assert(outer.contains_point(middle.corner(0)));
    assert(outer.contains_point(middle.corner(7)));
    assert forall|which: int| 0 <= which < 8 implies outer.contains_point(
        #[trigger] inner.corner(which),
    ) by {
        assert(middle.contains_point(inner.corner(which)));
    }
}

/// Lists that hold the same items, each as often, have the same members.
pub proof fn lemma_same_members<A>(a: Seq<A>, b: Seq<A>, x: A)
    requires
        a.to_multiset() == b.to_multiset(),
    ensures
        a.contains(x) <==> b.contains(x),
{
    a.to_multiset_ensures();
    b.to_multiset_ensures();
    assert(a.contains(x) <==> a.to_multiset().count(x) > 0);
    assert(b.contains(x) <==> b.to_multiset().count(x) > 0);
}

/// Two lists that are parted along an axis stay parted when each is put into
/// another order.
proof fn lemma_separated_by_members<T>(
    low: Seq<Bounded<T>>,
    high: Seq<Bounded<T>>,
    low2: Seq<Bounded<T>>,
    high2: Seq<Bounded<T>>,
    axis: int,
)
    requires
        separated_along(low, high, axis),
        low2.to_multiset() == low.to_multiset(),
        high2.to_multiset() == high.to_multiset(),
    ensures
        separated_along(low2, high2, axis),
{
    assert forall|i: int, j: int| 0 <= i < low2.len() && 0 <= j < high2.len() implies axis_key(
        #[trigger] low2[i],
        axis,
    ) <= axis_key(#[trigger] high2[j], axis) by {
        lemma_same_members(low2, low, low2[i]);
        lemma_same_members(high2, high, high2[j]);
        let a = choose|a: int| 0 <= a < low.len() && low[a] == low2[i];
        let b = choose|b: int| 0 <= b < high.len() && high[b] == high2[j];
        assert(axis_key(low[a], axis) <= axis_key(high[b], axis));
    }
}

impl<T: Clone> Clone for Bounded<T> {
    /// A clone of the object with the same box.
    fn clone(&self) -> (r: Self)
        ensures
            r.bbox == self.bbox,
            cloned(self.object, r.object),
    {
        Bounded { bbox: self.bbox, object: self.object.clone() }
    }
}

} // verus!
