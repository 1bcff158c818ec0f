//! The nearest hit among a set of objects, and the proof that the linear
//! search and the search of the hierarchy both find it.
//!
//! Both searches are stated over what a probe may return. Here the probe is
//! taken to follow a *model*: a function that gives, for an object and a
//! stretch of the ray, the one hit that the probe reports. A model is
//! *consistent* when shortening the stretch at its far end never changes a hit
//! that is still inside and never brings a new one. That holds of an object
//! that reports the first of a fixed set of crossings inside the stretch.
use vstd::prelude::*;
use crate::scalar::{lemma_scalar_equal_by_rank, Scalar};
use super::aabb::Aabb;
use super::bvh::{lemma_box_contains_leaves, lemma_same_members, Bounded, BvhNode};
use super::hittable_list::searched;
use super::sphere::{chosen_root, lemma_chosen_root_restricts, on_stretch};
use super::{closest_so_far, hit_parameter, later_or, HitRecord};

verus! {

/// Whether `probe` returns what `model` says, and nothing else.
pub open spec fn follows<T, M, L: Fn(&T, Scalar, Scalar) -> Option<HitRecord<M>>>(
    probe: L,
    model: spec_fn(T, Scalar, Scalar) -> Option<HitRecord<M>>,
) -> bool {
    forall|object: T, a: Scalar, b: Scalar, rec: Option<HitRecord<M>>|
        #[trigger] call_ensures(probe, (&object, a, b), rec) ==> rec == model(object, a, b)
}

/// A finding cut off at `limit`: a hit beyond the limit is no hit.
pub open spec fn restricted<M>(found: Option<HitRecord<M>>, limit: Scalar) -> Option<
    HitRecord<M>,
> {
    match found {
        Some(rec) => if rec.t@ <= limit@ {
            found
        } else {
            None
        },
        None => None,
    }
}

/// A parameter cut off at `limit`.
pub open spec fn restricted_parameter(t: Option<Scalar>, limit: Scalar) -> Option<Scalar> {
    match t {
        Some(s) => if s@ <= limit@ {
            t
        } else {
            None
        },
        None => None,
    }
}

/// Whether the hit on a shorter stretch is the hit on the longer one, cut off
/// at the shorter one's end.
pub open spec fn consistent<T, M>(
    model: spec_fn(T, Scalar, Scalar) -> Option<HitRecord<M>>,
) -> bool {
    forall|object: T, a: Scalar, b1: Scalar, b2: Scalar|
        b1@ <= b2@ ==> #[trigger] model(object, a, b1) == restricted(
            #[trigger] model(object, a, b2),
            b1,
        )
}

/// The nearer of two parameters, either of which may be missing.
pub open spec fn nearer(s: Option<Scalar>, t: Option<Scalar>) -> Option<Scalar> {
    match (s, t) {
        (None, _) => t,
        (_, None) => s,
        (Some(x), Some(y)) => Some(Scalar::min_of(x, y)),
    }
}

/// The smallest parameter at which any of the objects is hit between `a` and
/// `b`, `None` where none is hit.
pub open spec fn nearest_parameter<T, M>(
    objects: Seq<T>,
    model: spec_fn(T, Scalar, Scalar) -> Option<HitRecord<M>>,
    a: Scalar,
    b: Scalar,
) -> Option<Scalar>
    decreases objects.len(),
{
    if objects.len() == 0 {
        None
    } else {
        nearer(
            nearest_parameter(objects.drop_last(), model, a, b),
            hit_parameter(model(objects.last(), a, b)),
        )
    }
}

/// The objects of a list of objects with boxes.
pub open spec fn objects_of<T>(items: Seq<Bounded<T>>) -> Seq<T> {
    Seq::new(items.len(), |i: int| items[i].object)
}

/// Whether the box of every inner node is hit whenever an object below the
/// node is: a miss of the box, as `box_probe` may report it, means that the
/// model has no hit for any object below.
pub open spec fn conservative<T, M, B: Fn(&Aabb, Scalar, Scalar) -> bool>(
    tree: BvhNode<T>,
    box_probe: B,
    model: spec_fn(T, Scalar, Scalar) -> Option<HitRecord<M>>,
) -> bool
    decreases tree,
{
    match tree {
        BvhNode::Node { left, right, bb } => {
            &&& conservative(*left, box_probe, model)
            &&& conservative(*right, box_probe, model)
            &&& forall|a: Scalar, b: Scalar, i: int|
                #![trigger call_ensures(box_probe, (&bb, a, b), false), tree.leaves()[i]]
                call_ensures(box_probe, (&bb, a, b), false) && 0 <= i < tree.leaves().len()
                    ==> model(tree.leaves()[i].object, a, b) is None
        },
        BvhNode::Leaf(item) => true,
    }
}

/// What the nearest parameter is: `None` exactly where no object is hit, else
/// the parameter of some object's hit that no other object's hit lies before.
pub proof fn lemma_nearest_parameter<T, M>(
    objects: Seq<T>,
    model: spec_fn(T, Scalar, Scalar) -> Option<HitRecord<M>>,
    a: Scalar,
    b: Scalar,
)
    ensures
        nearest_parameter(objects, model, a, b) is None <==> forall|i: int|
            0 <= i < objects.len() ==> model(#[trigger] objects[i], a, b) is None,
        nearest_parameter(objects, model, a, b) matches Some(t) ==> {
            &&& exists|i: int|
                0 <= i < objects.len() && hit_parameter(model(#[trigger] objects[i], a, b))
                    == Some(t)
            &&& forall|i: int|
                0 <= i < objects.len() ==> (model(#[trigger] objects[i], a, b) matches Some(rec)
                    ==> t@ <= rec.t@)
        },
    decreases objects.len(),
{
    if objects.len() > 0 {
        let front = objects.drop_last();
        lemma_nearest_parameter(front, model, a, b);
        assert forall|i: int| 0 <= i < front.len() implies front[i] == objects[i] by {}
        let n = nearest_parameter(objects, model, a, b);
        let nf = nearest_parameter(front, model, a, b);
        let last = objects.len() - 1;
        if n is None {
            assert forall|i: int| 0 <= i < objects.len() implies model(
                #[trigger] objects[i],
                a,
                b,
            ) is None by {
                if i < last {
                    assert(front[i] == objects[i]);
                }
            }
        } else {
            if forall|i: int| 0 <= i < objects.len() ==> model(#[trigger] objects[i], a, b)
                is None {
                assert forall|i: int| 0 <= i < front.len() implies model(
                    #[trigger] front[i],
                    a,
                    b,
                ) is None by {
                    assert(front[i] == objects[i]);
                }
                assert(model(objects[last], a, b) is None);
                assert(false);
            }
            let t = n.unwrap();
            if nf is Some {
                let i = choose|i: int|
                    0 <= i < front.len() && hit_parameter(model(#[trigger] front[i], a, b)) == nf;
                assert(front[i] == objects[i]);
            }
            if hit_parameter(model(objects[last], a, b)) == Some(t) {
                assert(hit_parameter(model(objects[last], a, b)) == Some(t));
            } else {
                assert(nf == Some(t));
                let i = choose|i: int|
                    0 <= i < front.len() && hit_parameter(model(#[trigger] front[i], a, b))
                        == Some(t);
                assert(front[i] == objects[i]);
                assert(0 <= i < objects.len() && hit_parameter(model(objects[i], a, b)) == Some(
                    t,
                ));
            }
            assert forall|i: int| 0 <= i < objects.len() implies (model(
                #[trigger] objects[i],
                a,
                b,
            ) matches Some(rec) ==> t@ <= rec.t@) by {
                if i < last {
                    assert(front[i] == objects[i]);
                }
            }
        }
    }
}

/// The nearest parameter among objects depends on which objects there are, and
/// not on their order or number.
pub proof fn lemma_nearest_by_members<T, M>(
    first: Seq<T>,
    second: Seq<T>,
    model: spec_fn(T, Scalar, Scalar) -> Option<HitRecord<M>>,
    a: Scalar,
    b: Scalar,
)
    requires
        forall|object: T| first.contains(object) <==> second.contains(object),
    ensures
        nearest_parameter(first, model, a, b) == nearest_parameter(second, model, a, b),
{
    broadcast use lemma_scalar_equal_by_rank;

    lemma_nearest_parameter(first, model, a, b);
    lemma_nearest_parameter(second, model, a, b);
    let n1 = nearest_parameter(first, model, a, b);
    let n2 = nearest_parameter(second, model, a, b);
    assert forall|i: int| 0 <= i < first.len() implies second.contains(#[trigger] first[i]) by {
        assert(first.contains(first[i]));
    }
    assert forall|i: int| 0 <= i < second.len() implies first.contains(#[trigger] second[i]) by {
        assert(second.contains(second[i]));
    }
    if n1 is Some {
        let t1 = n1.unwrap();
        let i = choose|i: int|
            0 <= i < first.len() && hit_parameter(model(#[trigger] first[i], a, b)) == Some(t1);
        assert(second.contains(first[i]));
        let j = choose|j: int| 0 <= j < second.len() && second[j] == first[i];
        assert(model(second[j], a, b) is Some);
        assert(n2 is Some);
        let t2 = n2.unwrap();
        assert(t2@ <= t1@);
        let k = choose|k: int|
            0 <= k < second.len() && hit_parameter(model(#[trigger] second[k], a, b)) == Some(
                t2,
            );
        assert(first.contains(second[k]));
        let l = choose|l: int| 0 <= l < first.len() && first[l] == second[k];
        assert(model(first[l], a, b) is Some);
        assert(t1@ <= t2@);
        assert(t1 == t2);
    } else {
        if n2 is Some {
            let t2 = n2.unwrap();
            let k = choose|k: int|
                0 <= k < second.len() && hit_parameter(model(#[trigger] second[k], a, b))
                    == Some(t2);
            assert(first.contains(second[k]));
            let l = choose|l: int| 0 <= l < first.len() && first[l] == second[k];
            assert(model(first[l], a, b) is Some);
            assert(false);
        }
    }
}

/// The nearest parameter of two lists put together is the nearer of the two
/// lists' own.
pub proof fn lemma_nearest_of_concat<T, M>(
    first: Seq<T>,
    second: Seq<T>,
    model: spec_fn(T, Scalar, Scalar) -> Option<HitRecord<M>>,
    a: Scalar,
    b: Scalar,
)
    ensures
        nearest_parameter(first + second, model, a, b) == nearer(
            nearest_parameter(first, model, a, b),
            nearest_parameter(second, model, a, b),
        ),
    decreases second.len(),
{
    broadcast use lemma_scalar_equal_by_rank;

    if second.len() == 0 {
        assert(first + second =~= first);
    } else {
        lemma_nearest_of_concat(first, second.drop_last(), model, a, b);
        assert((first + second).drop_last() =~= first + second.drop_last());
        assert((first + second).last() == second.last());
    }
}

/// On a shorter stretch the nearest parameter is that of the longer stretch,
/// cut off at the shorter one's end.
pub proof fn lemma_nearest_restricted<T, M>(
    objects: Seq<T>,
    model: spec_fn(T, Scalar, Scalar) -> Option<HitRecord<M>>,
    a: Scalar,
    b1: Scalar,
    b2: Scalar,
)
    requires
        consistent(model),
        b1@ <= b2@,
    ensures
        nearest_parameter(objects, model, a, b1) == restricted_parameter(
            nearest_parameter(objects, model, a, b2),
            b1,
        ),
    decreases objects.len(),
{
    if objects.len() > 0 {
        lemma_nearest_restricted(objects.drop_last(), model, a, b1, b2);
        assert(model(objects.last(), a, b1) == restricted(model(objects.last(), a, b2), b1));
    }
}

/// A hit that a consistent model reports does not lie beyond the end of the
/// stretch.
pub proof fn lemma_hit_within_stretch<T, M>(
    model: spec_fn(T, Scalar, Scalar) -> Option<HitRecord<M>>,
    object: T,
    a: Scalar,
    b: Scalar,
)
    requires
        consistent(model),
    ensures
        model(object, a, b) matches Some(rec) ==> rec.t@ <= b@,
{
    assert(model(object, a, b) == restricted(model(object, a, b), b));
}

/// The linear search finds the nearest hit: what it returns has the smallest
/// parameter at which any object of the list is hit, and it returns nothing
/// only where nothing is hit.
pub proof fn lemma_list_finds_nearest<T, M, L: Fn(&T, Scalar, Scalar) -> Option<HitRecord<M>>>(
    objects: Seq<T>,
    probe: L,
    model: spec_fn(T, Scalar, Scalar) -> Option<HitRecord<M>>,
    t_min: Scalar,
    t_max: Scalar,
    rec: Option<HitRecord<M>>,
)
    requires
        follows(probe, model),
        consistent(model),
        searched(objects, probe, t_min, t_max, rec),
    ensures
        hit_parameter(rec) == nearest_parameter(objects, model, t_min, t_max),
    decreases objects.len(),
{
    broadcast use lemma_scalar_equal_by_rank;

    if objects.len() > 0 {
        let (before, found): (Option<HitRecord<M>>, Option<HitRecord<M>>) = choose|
            before: Option<HitRecord<M>>,
            found: Option<HitRecord<M>>,
        |
            {
                &&& searched(objects.drop_last(), probe, t_min, t_max, before)
                &&& call_ensures(
                    probe,
                    (&objects.last(), t_min, closest_so_far(t_max, before)),
                    found,
                )
                &&& rec == later_or(found, before)
            };
        lemma_list_finds_nearest(objects.drop_last(), probe, model, t_min, t_max, before);
        lemma_nearest_parameter(objects.drop_last(), model, t_min, t_max);
        let limit = closest_so_far(t_max, before);
        if before is Some {
            let i = choose|i: int|
                0 <= i < objects.drop_last().len() && hit_parameter(
                    model(#[trigger] objects.drop_last()[i], t_min, t_max),
                ) == hit_parameter(before);
            lemma_hit_within_stretch(model, objects.drop_last()[i], t_min, t_max);
        }
        assert(limit@ <= t_max@);
        assert(found == model(objects.last(), t_min, limit));
        assert(model(objects.last(), t_min, limit) == restricted(
            model(objects.last(), t_min, t_max),
            limit,
        ));
    }
}

/// The search of the hierarchy finds the nearest hit among the objects at its
/// leaves, provided that no box is missed while an object inside it is hit.
pub proof fn lemma_tree_finds_nearest<
    T,
    M,
    B: Fn(&Aabb, Scalar, Scalar) -> bool,
    L: Fn(&T, Scalar, Scalar) -> Option<HitRecord<M>>,
>(
    tree: BvhNode<T>,
    box_probe: B,
    probe: L,
    model: spec_fn(T, Scalar, Scalar) -> Option<HitRecord<M>>,
    t_min: Scalar,
    t_max: Scalar,
    rec: Option<HitRecord<M>>,
)
    requires
        follows(probe, model),
        consistent(model),
        conservative(tree, box_probe, model),
        tree.traversed(box_probe, probe, t_min, t_max, rec),
    ensures
        hit_parameter(rec) == nearest_parameter(
            objects_of(tree.leaves()),
            model,
            t_min,
            t_max,
        ),
    decreases tree,
{
    broadcast use lemma_scalar_equal_by_rank;

    let objects = objects_of(tree.leaves());
    match tree {
        BvhNode::Node { left, right, bb } => {
            let low = objects_of(left.leaves());
            let high = objects_of(right.leaves());
            assert(objects =~= low + high);
            lemma_nearest_of_concat(low, high, model, t_min, t_max);
            if call_ensures(box_probe, (&bb, t_min, t_max), false) && rec is None {
                lemma_nearest_parameter(objects, model, t_min, t_max);
                assert forall|i: int| 0 <= i < objects.len() implies model(
                    #[trigger] objects[i],
                    t_min,
                    t_max,
                ) is None by {
                    assert(objects[i] == tree.leaves()[i].object);
                }
            } else {
                let (rec_l, rec_r): (Option<HitRecord<M>>, Option<HitRecord<M>>) = choose|
                    rec_l: Option<HitRecord<M>>,
                    rec_r: Option<HitRecord<M>>,
                |
                    {
                        &&& left.traversed(box_probe, probe, t_min, t_max, rec_l)
                        &&& right.traversed(
                            box_probe,
                            probe,
                            t_min,
                            closest_so_far(t_max, rec_l),
                            rec_r,
                        )
                        &&& rec == later_or(rec_r, rec_l)
                    };
                let limit = closest_so_far(t_max, rec_l);
                lemma_tree_finds_nearest(*left, box_probe, probe, model, t_min, t_max, rec_l);
                lemma_tree_finds_nearest(*right, box_probe, probe, model, t_min, limit, rec_r);
                lemma_nearest_parameter(low, model, t_min, t_max);
                if rec_l is Some {
                    let i = choose|i: int|
                        0 <= i < low.len() && hit_parameter(
                            model(#[trigger] low[i], t_min, t_max),
                        ) == hit_parameter(rec_l);
                    lemma_hit_within_stretch(model, low[i], t_min, t_max);
                }
                assert(limit@ <= t_max@);
                lemma_nearest_restricted(high, model, t_min, limit, t_max);
                lemma_nearest_restricted(high, model, t_min, t_max, t_max);
            }
        },
        BvhNode::Leaf(item) => {
            assert(objects =~= seq![item.object]);
            assert(objects.drop_last() =~= Seq::<T>::empty());
            assert(rec == model(item.object, t_min, t_max));
            assert(nearest_parameter(objects.drop_last(), model, t_min, t_max) is None);
            assert(objects.last() == item.object);
        },
    }
}

/// The hierarchy built over a set of objects and the linear search through the
/// same objects find a hit at the same parameter, or both find none.
pub proof fn lemma_tree_and_list_agree<
    T,
    M,
    B: Fn(&Aabb, Scalar, Scalar) -> bool,
    L: Fn(&T, Scalar, Scalar) -> Option<HitRecord<M>>,
>(
    items: Seq<Bounded<T>>,
    tree: BvhNode<T>,
    box_probe: B,
    probe: L,
    model: spec_fn(T, Scalar, Scalar) -> Option<HitRecord<M>>,
    t_min: Scalar,
    t_max: Scalar,
    by_tree: Option<HitRecord<M>>,
    by_list: Option<HitRecord<M>>,
)
    requires
        tree.leaves().to_multiset() == items.to_multiset(),
        follows(probe, model),
        consistent(model),
        conservative(tree, box_probe, model),
        tree.traversed(box_probe, probe, t_min, t_max, by_tree),
        searched(objects_of(items), probe, t_min, t_max, by_list),
    ensures
        hit_parameter(by_tree) == hit_parameter(by_list),
{
    lemma_tree_finds_nearest(tree, box_probe, probe, model, t_min, t_max, by_tree);
    lemma_list_finds_nearest(objects_of(items), probe, model, t_min, t_max, by_list);
    let first = objects_of(tree.leaves());
    let second = objects_of(items);
    assert forall|object: T| first.contains(object) <==> second.contains(object) by {
        if first.contains(object) {
            let i = choose|i: int| 0 <= i < first.len() && first[i] == object;
            assert(tree.leaves().contains(tree.leaves()[i]));
            lemma_same_members(tree.leaves(), items, tree.leaves()[i]);
            let j = choose|j: int| 0 <= j < items.len() && items[j] == tree.leaves()[i];
            assert(second[j] == object);
        }
        if second.contains(object) {
            let j = choose|j: int| 0 <= j < second.len() && second[j] == object;
            assert(items.contains(items[j]));
            lemma_same_members(tree.leaves(), items, items[j]);
            let i = choose|i: int|
                0 <= i < tree.leaves().len() && tree.leaves()[i] == items[j];
            assert(first[i] == object);
        }
    }
    lemma_nearest_by_members(first, second, model, t_min, t_max);
}

/// The model of an object that the ray's line crosses at two fixed
/// parameters, `near` and `far`, and that reports the first of them which
/// lies on the stretch; `at` gives the record of a crossing.
pub open spec fn two_crossings<T, M>(
    near: spec_fn(T) -> Scalar,
    far: spec_fn(T) -> Scalar,
    at: spec_fn(T, Scalar) -> HitRecord<M>,
) -> spec_fn(T, Scalar, Scalar) -> Option<HitRecord<M>> {
    |object: T, a: Scalar, b: Scalar|
        match chosen_root(near(object), far(object), a, b) {
            Some(t) => Some(at(object, t)),
            None => None,
        }
}

/// The model of an object that the ray's line crosses at one fixed parameter:
/// the crossing is reported where it lies on the stretch and `counts`, as for
/// a point inside a rectangle or a triangle.
pub open spec fn one_crossing<T, M>(
    crossing: spec_fn(T) -> Scalar,
    counts: spec_fn(T) -> bool,
    at: spec_fn(T) -> HitRecord<M>,
) -> spec_fn(T, Scalar, Scalar) -> Option<HitRecord<M>> {
    |object: T, a: Scalar, b: Scalar|
        if on_stretch(crossing(object), a, b) && counts(object) {
            Some(at(object))
        } else {
            None
        }
}

/// An object that reports the first of its two crossings on the stretch, as a
/// sphere does, is consistent.
pub proof fn lemma_two_crossings_consistent<T, M>(
    near: spec_fn(T) -> Scalar,
    far: spec_fn(T) -> Scalar,
    at: spec_fn(T, Scalar) -> HitRecord<M>,
)
    requires
        forall|object: T| (#[trigger] near(object))@ <= far(object)@,
        forall|object: T, t: Scalar| (#[trigger] at(object, t)).t == t,
    ensures
        consistent(two_crossings(near, far, at)),
{
    let model = two_crossings(near, far, at);
    assert forall|object: T, a: Scalar, b1: Scalar, b2: Scalar| b1@ <= b2@ implies #[trigger] model(
        object,
        a,
        b1,
    ) == restricted(#[trigger] model(object, a, b2), b1) by {
        assert(near(object)@ <= far(object)@);
        lemma_chosen_root_restricts(near(object), far(object), a, b1, b2);
        match chosen_root(near(object), far(object), a, b2) {
            Some(t) => {
                assert(at(object, t).t == t);
            },
            None => {},
        }
    }
}

/// An object that reports its one crossing where it lies on the stretch, as a
/// rectangle or a triangle does, is consistent.
pub proof fn lemma_one_crossing_consistent<T, M>(
    crossing: spec_fn(T) -> Scalar,
    counts: spec_fn(T) -> bool,
    at: spec_fn(T) -> HitRecord<M>,
)
    requires
        forall|object: T| (#[trigger] at(object)).t == crossing(object),
    ensures
        consistent(one_crossing(crossing, counts, at)),
{
    let model = one_crossing(crossing, counts, at);
    assert forall|object: T, a: Scalar, b1: Scalar, b2: Scalar| b1@ <= b2@ implies #[trigger] model(
        object,
        a,
        b1,
    ) == restricted(#[trigger] model(object, a, b2), b1) by {
        assert(at(object).t == crossing(object));
    }
}

/// Whether `box_probe` returns what `box_model` says, and nothing else.
pub open spec fn box_follows<B: Fn(&Aabb, Scalar, Scalar) -> bool>(
    box_probe: B,
    box_model: spec_fn(Aabb, Scalar, Scalar) -> bool,
) -> bool {
    forall|bb: Aabb, a: Scalar, b: Scalar, hit: bool|
        #[trigger] call_ensures(box_probe, (&bb, a, b), hit) ==> hit == box_model(bb, a, b)
}

/// What the linear search returns for a probe that follows `model`.
pub open spec fn linear_search<T, M>(
    objects: Seq<T>,
    model: spec_fn(T, Scalar, Scalar) -> Option<HitRecord<M>>,
    a: Scalar,
    b: Scalar,
) -> Option<HitRecord<M>>
    decreases objects.len(),
{
    if objects.len() == 0 {
        None
    } else {
        let before = linear_search(objects.drop_last(), model, a, b);
        later_or(model(objects.last(), a, closest_so_far(b, before)), before)
    }
}

/// What the search of a tree returns for probes that follow `box_model` and
/// `model`.
pub open spec fn tree_search<T, M>(
    tree: BvhNode<T>,
    box_model: spec_fn(Aabb, Scalar, Scalar) -> bool,
    model: spec_fn(T, Scalar, Scalar) -> Option<HitRecord<M>>,
    a: Scalar,
    b: Scalar,
) -> Option<HitRecord<M>>
    decreases tree,
{
    match tree {
        BvhNode::Node { left, right, bb } => {
            if box_model(bb, a, b) {
                let rec_l = tree_search(*left, box_model, model, a, b);
                let rec_r = tree_search(*right, box_model, model, a, closest_so_far(b, rec_l));
                later_or(rec_r, rec_l)
            } else {
                None
            }
        },
        BvhNode::Leaf(item) => model(item.object, a, b),
    }
}

/// With a probe that is a function of its arguments, the linear search
/// returns one record and no other.
pub proof fn lemma_list_search_is_determined<
    T,
    M,
    L: Fn(&T, Scalar, Scalar) -> Option<HitRecord<M>>,
>(
    objects: Seq<T>,
    probe: L,
    model: spec_fn(T, Scalar, Scalar) -> Option<HitRecord<M>>,
    t_min: Scalar,
    t_max: Scalar,
    rec: Option<HitRecord<M>>,
)
    requires
        follows(probe, model),
        searched(objects, probe, t_min, t_max, rec),
    ensures
        rec == linear_search(objects, model, t_min, t_max),
    decreases objects.len(),
{
    if objects.len() > 0 {
        let (before, found): (Option<HitRecord<M>>, Option<HitRecord<M>>) = choose|
            before: Option<HitRecord<M>>,
            found: Option<HitRecord<M>>,
        |
            {
                &&& searched(objects.drop_last(), probe, t_min, t_max, before)
                &&& call_ensures(
                    probe,
                    (&objects.last(), t_min, closest_so_far(t_max, before)),
                    found,
                )
                &&& rec == later_or(found, before)
            };
        lemma_list_search_is_determined(
            objects.drop_last(),
            probe,
            model,
            t_min,
            t_max,
            before,
        );
    }
}

/// With probes that are functions of their arguments, the search of a tree
/// returns one record and no other.
pub proof fn lemma_tree_search_is_determined<
    T,
    M,
    B: Fn(&Aabb, Scalar, Scalar) -> bool,
    L: Fn(&T, Scalar, Scalar) -> Option<HitRecord<M>>,
>(
    tree: BvhNode<T>,
    box_probe: B,
    probe: L,
    box_model: spec_fn(Aabb, Scalar, Scalar) -> bool,
    model: spec_fn(T, Scalar, Scalar) -> Option<HitRecord<M>>,
    t_min: Scalar,
    t_max: Scalar,
    rec: Option<HitRecord<M>>,
)
    requires
        box_follows(box_probe, box_model),
        follows(probe, model),
        tree.traversed(box_probe, probe, t_min, t_max, rec),
    ensures
        rec == tree_search(tree, box_model, model, t_min, t_max),
    decreases tree,
{
    match tree {
        BvhNode::Node { left, right, bb } => {
            if call_ensures(box_probe, (&bb, t_min, t_max), false) && rec is None {
            } else {
                let (rec_l, rec_r): (Option<HitRecord<M>>, Option<HitRecord<M>>) = choose|
                    rec_l: Option<HitRecord<M>>,
                    rec_r: Option<HitRecord<M>>,
                |
                    {
                        &&& left.traversed(box_probe, probe, t_min, t_max, rec_l)
                        &&& right.traversed(
                            box_probe,
                            probe,
                            t_min,
                            closest_so_far(t_max, rec_l),
                            rec_r,
                        )
                        &&& rec == later_or(rec_r, rec_l)
                    };
                lemma_tree_search_is_determined(
                    *left,
                    box_probe,
                    probe,
                    box_model,
                    model,
                    t_min,
                    t_max,
                    rec_l,
                );
                lemma_tree_search_is_determined(
                    *right,
                    box_probe,
                    probe,
                    box_model,
                    model,
                    t_min,
                    closest_so_far(t_max, rec_l),
                    rec_r,
                );
            }
        },
        BvhNode::Leaf(item) => {},
    }
}

/// Whether the box test never misses a box while it hits a box inside it.
pub open spec fn grows_with_box(box_model: spec_fn(Aabb, Scalar, Scalar) -> bool) -> bool {
    forall|outer: Aabb, inner: Aabb, a: Scalar, b: Scalar|
        outer.contains_box(inner) && #[trigger] box_model(inner, a, b) ==> #[trigger] box_model(
            outer,
            a,
            b,
        )
}

/// Whether the box of every object at a leaf is hit whenever the object is.
pub open spec fn leaves_inside_boxes<T, M>(
    tree: BvhNode<T>,
    box_model: spec_fn(Aabb, Scalar, Scalar) -> bool,
    model: spec_fn(T, Scalar, Scalar) -> Option<HitRecord<M>>,
) -> bool {
    forall|i: int, a: Scalar, b: Scalar|
        0 <= i < tree.leaves().len() && (#[trigger] model(tree.leaves()[i].object, a, b)) is Some
            ==> (tree.leaves()[i].bbox matches Some(bb) && box_model(bb, a, b))
}

/// No box of a tree is missed while an object below it is hit, provided that
/// this holds of each object and its own box, and that the box test never
/// misses a box while it hits a box inside it. The rest follows from the
/// nesting of the boxes.
pub proof fn lemma_nested_boxes_are_conservative<T, M, B: Fn(&Aabb, Scalar, Scalar) -> bool>(
    tree: BvhNode<T>,
    box_probe: B,
    box_model: spec_fn(Aabb, Scalar, Scalar) -> bool,
    model: spec_fn(T, Scalar, Scalar) -> Option<HitRecord<M>>,
)
    requires
        tree.well_formed(),
        forall|i: int|
            0 <= i < tree.leaves().len() ==> ((#[trigger] tree.leaves()[i]).bbox matches Some(bb)
                ==> bb.is_ordered()),
        box_follows(box_probe, box_model),
        grows_with_box(box_model),
        leaves_inside_boxes(tree, box_model, model),
    ensures
        conservative(tree, box_probe, model),
    decreases tree,
{
    match tree {
        BvhNode::Node { left, right, bb } => {
            let low = left.leaves();
            let high = right.leaves();
            assert forall|i: int| 0 <= i < low.len() implies tree.leaves()[i] == #[trigger] low[i] by {}
            assert forall|i: int| 0 <= i < high.len() implies tree.leaves()[low.len() + i]
                == #[trigger] high[i] by {}
            assert(leaves_inside_boxes(*left, box_model, model)) by {
                assert forall|i: int, a: Scalar, b: Scalar|
                    0 <= i < low.len() && (#[trigger] model(low[i].object, a, b)) is Some implies (
                low[i].bbox matches Some(bb) && box_model(bb, a, b)) by {
                    assert(tree.leaves()[i] == low[i]);
                    assert(model(tree.leaves()[i].object, a, b) is Some);
                }
            }
            assert(leaves_inside_boxes(*right, box_model, model)) by {
                assert forall|i: int, a: Scalar, b: Scalar|
                    0 <= i < high.len() && (#[trigger] model(high[i].object, a, b)) is Some implies (
                high[i].bbox matches Some(bb) && box_model(bb, a, b)) by {
                    assert(tree.leaves()[low.len() + i] == high[i]);
                    assert(model(tree.leaves()[low.len() + i].object, a, b) is Some);
                }
            }
            assert forall|i: int| 0 <= i < low.len() implies ((#[trigger] low[i]).bbox matches Some(
                b,
            ) ==> b.is_ordered()) by {
                assert(tree.leaves()[i] == low[i]);
            }
            assert forall|i: int| 0 <= i < high.len() implies ((
            #[trigger] high[i]).bbox matches Some(b) ==> b.is_ordered()) by {
                assert(tree.leaves()[low.len() + i] == high[i]);
            }
            lemma_nested_boxes_are_conservative(*left, box_probe, box_model, model);
            lemma_nested_boxes_are_conservative(*right, box_probe, box_model, model);
            lemma_box_contains_leaves(tree);
            assert forall|a: Scalar, b: Scalar, i: int|
                #![trigger call_ensures(box_probe, (&bb, a, b), false), tree.leaves()[i]]
                call_ensures(box_probe, (&bb, a, b), false) && 0 <= i
                    < tree.leaves().len() implies model(tree.leaves()[i].object, a, b) is None by {
                if model(tree.leaves()[i].object, a, b) is Some {
                    let own = tree.leaves()[i].bbox.unwrap();
                    assert(box_model(own, a, b));
                    assert(bb.contains_box(own));
                    assert(box_model(bb, a, b));
                    assert(!box_model(bb, a, b));
                }
            }
        },
        BvhNode::Leaf(item) => {},
    }
}

} // verus!
