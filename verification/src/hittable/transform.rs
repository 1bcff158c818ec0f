//! Objects seen through a transform: moved, turned about the y axis, or with
//! their faces flipped.
use vstd::prelude::*;
use crate::scalar::{Scalar, INFINITY_RANK};
use crate::vec3::{Point3, Vec3};
use super::aabb::Aabb;
use super::HitRecord;

verus! {

/// An object moved by `offset`.
#[derive(Debug)]
pub struct Translate<T> {
    pub obj: T,
    pub offset: Vec3,
}

/// An object turned about the y axis by the angle whose sine and cosine are
/// given; `bbox` is the box round the turned object.
#[derive(Debug)]
pub struct RotateY<T> {
    pub obj: T,
    pub sin_theta: Scalar,
    pub cos_theta: Scalar,
    pub bbox: Option<Aabb>,
}

/// An object whose front and back are exchanged.
#[derive(Debug)]
pub struct FlipFace<T> {
    pub obj: T,
}

/// A corner of a box after the turn, seen from above.
#[derive(Clone, Copy, Debug, PartialEq, Eq, Structural)]
pub struct Turned {
    pub x: Scalar,
    pub z: Scalar,
}

/// A hit with its front-face flag negated and nothing else changed.
pub open spec fn flipped<M>(rec: HitRecord<M>) -> HitRecord<M> {
    HitRecord { front_face: !rec.front_face, ..rec }
}

/// Whether `bb` is the box round the turned corners: it keeps `inner`'s
/// extent along y, and along x and z it reaches exactly from the least to the
/// greatest of the corners (from infinity to minus infinity for no corners).
pub open spec fn is_extent(bb: Aabb, inner: Aabb, corners: Seq<Turned>) -> bool {
    &&& bb.minimum.y == inner.minimum.y
    &&& bb.maximum.y == inner.maximum.y
    &&& forall|i: int|
        0 <= i < corners.len() ==> bb.minimum.x@ <= (#[trigger] corners[i]).x@ <= bb.maximum.x@
            && bb.minimum.z@ <= corners[i].z@ <= bb.maximum.z@
    &&& corners.len() == 0 ==> bb.minimum.x@ == INFINITY_RANK && bb.maximum.x@ == -INFINITY_RANK
        && bb.minimum.z@ == INFINITY_RANK && bb.maximum.z@ == -INFINITY_RANK
    &&& corners.len() > 0 ==> {
        &&& exists|i: int| 0 <= i < corners.len() && (#[trigger] corners[i]).x == bb.minimum.x
        &&& exists|i: int| 0 <= i < corners.len() && (#[trigger] corners[i]).x == bb.maximum.x
        &&& exists|i: int| 0 <= i < corners.len() && (#[trigger] corners[i]).z == bb.minimum.z
        &&& exists|i: int| 0 <= i < corners.len() && (#[trigger] corners[i]).z == bb.maximum.z
    }
}

/// A box stretched to reach one more corner.
pub open spec fn grown(bb: Aabb, c: Turned) -> Aabb {
    Aabb {
        minimum: Point3 {
            x: Scalar::min_of(bb.minimum.x, c.x),
            y: bb.minimum.y,
            z: Scalar::min_of(bb.minimum.z, c.z),
        },
        maximum: Point3 {
            x: Scalar::max_of(bb.maximum.x, c.x),
            y: bb.maximum.y,
            z: Scalar::max_of(bb.maximum.z, c.z),
        },
    }
}

/// The box round some corners, stretched to reach one more, is the box round
/// all of them.
proof fn lemma_extent_grows(bb: Aabb, inner: Aabb, corners: Seq<Turned>, c: Turned)
    requires
        is_extent(bb, inner, corners),
        -INFINITY_RANK <= c.x@ <= INFINITY_RANK,
        -INFINITY_RANK <= c.z@ <= INFINITY_RANK,
    ensures
        is_extent(grown(bb, c), inner, corners.push(c)),
{
    broadcast use crate::scalar::lemma_scalar_equal_by_rank;

    let more = corners.push(c);
    let g = grown(bb, c);
    let last = corners.len() as int;
    assert(more[last] == c);
    assert forall|k: int| 0 <= k < corners.len() implies more[k] == corners[k] by {}
    if corners.len() > 0 {
        let a = choose|a: int| 0 <= a < corners.len() && (#[trigger] corners[a]).x == bb.minimum.x;
        let b = choose|b: int| 0 <= b < corners.len() && (#[trigger] corners[b]).x == bb.maximum.x;
        let d = choose|d: int| 0 <= d < corners.len() && (#[trigger] corners[d]).z == bb.minimum.z;
        let e = choose|e: int| 0 <= e < corners.len() && (#[trigger] corners[e]).z == bb.maximum.z;
        let least_x = if g.minimum.x == c.x { last } else { a };
        let most_x = if g.maximum.x == c.x { last } else { b };
        let least_z = if g.minimum.z == c.z { last } else { d };
        let most_z = if g.maximum.z == c.z { last } else { e };
        assert(more[a] == corners[a]);
        assert(more[b] == corners[b]);
        assert(more[d] == corners[d]);
        assert(more[e] == corners[e]);
        assert(more[least_x].x == g.minimum.x);
        assert(more[most_x].x == g.maximum.x);
        assert(more[least_z].z == g.minimum.z);
        assert(more[most_z].z == g.maximum.z);
    } else {
        assert(more[last].x == g.minimum.x);
        assert(more[last].x == g.maximum.x);
        assert(more[last].z == g.minimum.z);
        assert(more[last].z == g.maximum.z);
    }
    assert forall|k: int| 0 <= k < more.len() implies g.minimum.x@ <= (#[trigger] more[k]).x@
        <= g.maximum.x@ && g.minimum.z@ <= more[k].z@ <= g.maximum.z@ by {
        if k < last {
            assert(more[k] == corners[k]);
        }
    }
}

impl<T> Translate<T> {
    /// `obj` moved by `offset`.
    pub fn new(obj: T, offset: Vec3) -> (r: Translate<T>)
        ensures
            r.obj == obj,
            r.offset == offset,
    {
        Translate { obj, offset }
    }
}

impl<T> RotateY<T> {
    /// `obj` turned about the y axis, with the box round it.
    pub fn new(obj: T, sin_theta: Scalar, cos_theta: Scalar, bbox: Option<Aabb>) -> (r: RotateY<
        T,
    >)
        ensures
            r.obj == obj,
            r.sin_theta == sin_theta,
            r.cos_theta == cos_theta,
            r.bbox == bbox,
    {
        RotateY { obj, sin_theta, cos_theta, bbox }
    }

    /// The box round a turned box: `inner` is the box before the turn,
    /// `corners` are its corners after the turn, seen from above. The result is
    /// the axis-aligned box round those corners, not a tight fit of the
    /// turned object.
    pub fn extent(inner: &Aabb, corners: &Vec<Turned>) -> (bb: Aabb)
        ensures
            is_extent(bb, *inner, corners@),
    {
        let mut min_x = Scalar::infinity();
        let mut max_x = Scalar::neg_infinity();
        let mut min_z = Scalar::infinity();
        let mut max_z = Scalar::neg_infinity();
        let mut i: usize = 0;
        while i < corners.len()
            invariant
                i <= corners@.len(),
                is_extent(
                    Aabb {
                        minimum: Point3 { x: min_x, y: inner.minimum.y, z: min_z },
                        maximum: Point3 { x: max_x, y: inner.maximum.y, z: max_z },
                    },
                    *inner,
                    corners@.take(i as int),
                ),
            decreases corners@.len() - i,
        {
            let ghost before = corners@.take(i as int);
            let ghost old_bb = Aabb {
                minimum: Point3 { x: min_x, y: inner.minimum.y, z: min_z },
                maximum: Point3 { x: max_x, y: inner.maximum.y, z: max_z },
            };
            let c = &corners[i];
            min_x = min_x.min(c.x);
            max_x = max_x.max(c.x);
            min_z = min_z.min(c.z);
            max_z = max_z.max(c.z);
            proof {
                use_type_invariant(&c.x);
                use_type_invariant(&c.z);
                assert(corners@.take(i as int + 1) =~= before.push(*c));
                lemma_extent_grows(old_bb, *inner, before, *c);
            }
            i += 1;
        }
        proof {
            assert(corners@.take(i as int) =~= corners@);
        }
        Aabb::new(
            Point3::new(min_x, inner.minimum.y, min_z),
            Point3::new(max_x, inner.maximum.y, max_z),
        )
    }
}

impl<T> FlipFace<T> {
    /// `obj` with front and back exchanged.
    pub fn new(obj: T) -> (r: FlipFace<T>)
        ensures
            r.obj == obj,
    {
        FlipFace { obj }
    }

    /// The hit of the object inside, as the probe reports it, with the
    /// front-face flag negated: what faced the ray now counts as facing away.
    pub fn hit<M, F: Fn(&T, Scalar, Scalar) -> Option<HitRecord<M>>>(
        &self,
        probe: &F,
        t_min: Scalar,
        t_max: Scalar,
    ) -> (rec: Option<HitRecord<M>>)
        requires
            call_requires(*probe, (&self.obj, t_min, t_max)),
        ensures
            exists|inner: Option<HitRecord<M>>|
                {
                    &&& call_ensures(*probe, (&self.obj, t_min, t_max), inner)
                    &&& rec == match inner {
                        Some(found) => Some(flipped(found)),
                        None => None,
                    }
                },
    {
        match probe(&self.obj, t_min, t_max) {
            Some(found) => {
                let HitRecord { p, normal, t, u, v, front_face, mat_ptr } = found;
                Some(HitRecord { p, normal, t, u, v, front_face: !front_face, mat_ptr })
            },
            None => None,
        }
    }
}

} // verus!
