//! A flat collection of objects, searched one by one.
use vstd::prelude::*;
use crate::scalar::Scalar;
use super::aabb::Aabb;
use super::{closest_so_far, later_or, HitRecord};

verus! {

/// Objects in the order in which they were added.
#[derive(Debug)]
pub struct HittableList<T> {
    objects: Vec<T>,
}

/// What a search through `objects` from first to last may return. Each object
/// is probed on the stretch from `t_min` to the nearest hit found before it
/// (to `t_max` while there is none), and a hit replaces what was found
/// before.
pub open spec fn searched<T, M, F: Fn(&T, Scalar, Scalar) -> Option<HitRecord<M>>>(
    objects: Seq<T>,
    probe: F,
    t_min: Scalar,
    t_max: Scalar,
    rec: Option<HitRecord<M>>,
) -> bool
    decreases objects.len(),
{
    if objects.len() == 0 {
        rec is None
    } else {
        exists|before: Option<HitRecord<M>>, found: Option<HitRecord<M>>|
            {
                &&& searched(objects.drop_last(), probe, t_min, t_max, before)
                &&& call_ensures(
                    probe,
                    (&objects.last(), t_min, closest_so_far(t_max, before)),
                    found,
                )
                &&& rec == later_or(found, before)
            }
    }
}

/// What folding the boxes of `objects` from first to last may give: the union
/// of all their boxes (`None` for no objects), or `None` at the first object
/// that has no box, the objects behind it not being asked.
pub open spec fn gathered<T, F: Fn(&T) -> Option<Aabb>>(
    objects: Seq<T>,
    bound: F,
    bb: Option<Aabb>,
) -> bool {
    ||| gathered_prefix(objects, bound, bb)
    ||| {
        &&& bb is None
        &&& exists|n: int, before: Option<Aabb>|
            {
                &&& 0 <= n < objects.len()
                &&& #[trigger] gathered_prefix(objects.take(n), bound, before)
                &&& call_ensures(bound, (&objects[n],), None::<Aabb>)
            }
    }
}

/// What folding the boxes of `objects` gives while every object so far had
/// one.
pub open spec fn gathered_prefix<T, F: Fn(&T) -> Option<Aabb>>(
    objects: Seq<T>,
    bound: F,
    bb: Option<Aabb>,
) -> bool
    decreases objects.len(),
{
    if objects.len() == 0 {
        bb is None
    } else {
        exists|before: Option<Aabb>, own: Aabb|
            {
                &&& gathered_prefix(objects.drop_last(), bound, before)
                &&& call_ensures(bound, (&objects.last(),), Some(own))
                &&& bb == Some(own.merged(before))
            }
    }
}

impl<T> View for HittableList<T> {
    type V = Seq<T>;

    /// The objects, from first to last.
    closed spec fn view(&self) -> Seq<T> {
        self.objects@
    }
}

impl<T> HittableList<T> {
    /// A list of no objects.
    pub fn new() -> (list: HittableList<T>)
        ensures
            list@ == Seq::<T>::empty(),
    {
        HittableList { objects: Vec::new() }
    }

    /// Removes every object.
    pub fn clear(&mut self)
        ensures
            final(self)@ == Seq::<T>::empty(),
    {
        self.objects.clear();
    }

    /// Adds an object behind the others.
    pub fn add(&mut self, object: T)
        ensures
            final(self)@ == old(self)@.push(object),
    {
        self.objects.push(object);
    }

    /// The number of objects.
    pub fn len(&self) -> (n: usize)
        ensures
            n == self@.len(),
    {
        self.objects.len()
    }

    /// The object at a position.
    pub fn get(&self, i: usize) -> (object: &T)
        requires
            i < self@.len(),
        ensures
            *object == self@[i as int],
    {
        &self.objects[i]
    }

    /// The nearest hit among the objects between `t_min` and `t_max`, as the
    /// probe reports hits: every object is probed in turn, on the stretch that
    /// ends at the nearest hit so far.
    pub fn hit<M, F: Fn(&T, Scalar, Scalar) -> Option<HitRecord<M>>>(
        &self,
        probe: &F,
        t_min: Scalar,
        t_max: Scalar,
    ) -> (rec: Option<HitRecord<M>>)
        requires
            forall|i: int, a: Scalar, b: Scalar|
                0 <= i < self@.len() ==> call_requires(*probe, (&self@[i], a, b)),
        ensures
            searched(self@, *probe, t_min, t_max, rec),
    {
        let mut rec: Option<HitRecord<M>> = None;
        let mut closest: Scalar = t_max;
        let mut i: usize = 0;
        while i < self.objects.len()
            invariant
                i <= self.objects.len(),
                forall|k: int, a: Scalar, b: Scalar|
                    0 <= k < self@.len() ==> call_requires(*probe, (&self@[k], a, b)),
                searched(self.objects@.take(i as int), *probe, t_min, t_max, rec),
                closest == closest_so_far(t_max, rec),
            decreases self.objects.len() - i,
        {
            let ghost before = rec;
            proof {
                assert(self@[i as int] == self.objects@[i as int]);
            }
            let found = probe(&self.objects[i], t_min, closest);
            proof {
                let upto = self.objects@.take(i as int + 1);
                assert(upto.drop_last() =~= self.objects@.take(i as int));
                assert(upto.last() == self.objects@[i as int]);
                assert(searched(upto, *probe, t_min, t_max, later_or(found, before)));
            }
            if let Some(hit) = found {
                closest = hit.t;
                rec = Some(hit);
            }
            i += 1;
        }
        proof {
            assert(self.objects@.take(i as int) =~= self.objects@);
        }
        rec
    }

    /// The box round all the objects, as `bound` gives the box of each: `None`
    /// for an empty list, and `None` as soon as one object has no box.
    pub fn bounding_box<F: Fn(&T) -> Option<Aabb>>(&self, bound: &F) -> (bb: Option<Aabb>)
        requires
            forall|i: int| 0 <= i < self@.len() ==> call_requires(*bound, (&self@[i],)),
        ensures
            gathered(self@, *bound, bb),
    {
        let mut bb: Option<Aabb> = None;
        let mut i: usize = 0;
        while i < self.objects.len()
            invariant
                i <= self.objects.len(),
                forall|k: int| 0 <= k < self@.len() ==> call_requires(*bound, (&self@[k],)),
                gathered_prefix(self.objects@.take(i as int), *bound, bb),
            decreases self.objects.len() - i,
        {
            let ghost before = bb;
            proof {
                assert(self@[i as int] == self.objects@[i as int]);
            }
            let own = bound(&self.objects[i]);
            proof {
                let upto = self.objects@.take(i as int + 1);
                assert(upto.drop_last() =~= self.objects@.take(i as int));
                assert(upto.last() == self.objects@[i as int]);
            }
            match own {
                Some(b) => {
                    bb = b.merge(&bb);
                    proof {
                        assert(gathered_prefix(
                            self.objects@.take(i as int + 1),
                            *bound,
                            bb,
                        ));
                    }
                },
                None => {
                    proof {
                        assert(gathered_prefix(self.objects@.take(i as int), *bound, before));
                    }
                    return None;
                },
            }
            i += 1;
        }
        proof {
            assert(self.objects@.take(i as int) =~= self.objects@);
        }
        bb
    }
}

impl<T> Default for HittableList<T> {
    /// A list of no objects.
    fn default() -> (list: HittableList<T>)
        ensures
            list@ == Seq::<T>::empty(),
    {
        HittableList { objects: Vec::new() }
    }
}

} // verus!
