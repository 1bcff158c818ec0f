//! What a ray can hit, and what is recorded of a hit.
//!
//! The geometry of a single primitive is arithmetic on doubles and is done by
//! the caller. The collections here are handed the outcome as a *probe*: a
//! function that tells, for an object and a stretch of the ray, whether the
//! ray hits the object within that stretch, and where.
use vstd::prelude::*;
use crate::scalar::Scalar;
use crate::vec3::{Point3, Vec3};

pub mod aabb;
pub mod box_obj;
pub mod bvh;
pub mod constant_medium;
pub mod hittable_list;
pub mod mesh;
pub mod nearest;
pub mod rect;
pub mod sphere;
pub mod transform;
pub mod triangle;

pub use aabb::{Aabb, Interval, Slab};
pub use box_obj::{BoxObj, Side};
pub use bvh::{Bounded, BvhNode};
pub use constant_medium::ConstantMedium;
pub use hittable_list::HittableList;
pub use rect::{XYRect, XZRect, YZRect};
pub use sphere::{MovingSphere, Sphere};
pub use transform::{FlipFace, RotateY, Translate, Turned};
pub use triangle::Triangle;

verus! {

/// One intersection of a ray with a surface: the point `p`, the shading normal,
/// which always faces the incoming ray, the ray parameter `t`, the surface
/// coordinates `u` and `v`, whether the ray came from outside, and the
/// material at the point.
#[derive(Debug)]
pub struct HitRecord<M> {
    pub p: Point3,
    pub normal: Vec3,
    pub t: Scalar,
    pub u: Scalar,
    pub v: Scalar,
    pub front_face: bool,
    pub mat_ptr: M,
}

/// The end of the stretch that is still to be searched once `found` is known:
/// the parameter of the hit, or `t_max` where nothing was hit yet.
pub open spec fn closest_so_far<M>(t_max: Scalar, found: Option<HitRecord<M>>) -> Scalar {
    match found {
        Some(rec) => rec.t,
        None => t_max,
    }
}

/// The later of two findings where it is a hit, else the earlier.
pub open spec fn later_or<M>(later: Option<HitRecord<M>>, earlier: Option<HitRecord<M>>) -> Option<
    HitRecord<M>,
> {
    if later is Some {
        later
    } else {
        earlier
    }
}

/// The parameter of a finding.
pub open spec fn hit_parameter<M>(found: Option<HitRecord<M>>) -> Option<Scalar> {
    match found {
        Some(rec) => Some(rec.t),
        None => None,
    }
}

impl<M> HitRecord<M> {
    /// Records a hit at `p` with parameter `t`. `facing` is the dot product of
    /// the ray's direction with the surface's outward normal: where it is
    /// negative the ray came from outside, and the outward normal is the
    /// shading normal; else the shading normal is the outward normal turned
    /// round.
    pub fn new(
        p: Point3,
        t: Scalar,
        u: Scalar,
        v: Scalar,
        facing: Scalar,
        outward_normal: Vec3,
        mat_ptr: M,
    ) -> (rec: HitRecord<M>)
        ensures
            rec.p == p,
            rec.t == t,
            rec.u == u,
            rec.v == v,
            rec.mat_ptr == mat_ptr,
            rec.front_face == (facing@ < 0),
            rec.front_face ==> rec.normal == outward_normal,
            !rec.front_face ==> {
                &&& rec.normal.x@ == -outward_normal.x@
                &&& rec.normal.y@ == -outward_normal.y@
                &&& rec.normal.z@ == -outward_normal.z@
            },
    {
        let front_face = facing.is_negative();
        let normal = if front_face {
            outward_normal
        } else {
            outward_normal.neg()
        };
        HitRecord { p, normal, t, u, v, front_face, mat_ptr }
    }
}

impl<M: Clone> Clone for HitRecord<M> {
    /// The same hit, with a clone of the material.
    fn clone(&self) -> (r: Self)
        ensures
            r.p == self.p,
            r.normal == self.normal,
            r.t == self.t,
            r.u == self.u,
            r.v == self.v,
            r.front_face == self.front_face,
            cloned(self.mat_ptr, r.mat_ptr),
    {
        HitRecord {
            p: self.p,
            normal: self.normal,
            t: self.t,
            u: self.u,
            v: self.v,
            front_face: self.front_face,
            mat_ptr: self.mat_ptr.clone(),
        }
    }
}

} // verus!
