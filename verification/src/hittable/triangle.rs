//! Flat triangles.
use vstd::prelude::*;
use crate::scalar::{Scalar, ONE_RANK};
use crate::vec3::{Point3, Vec3};
use super::sphere::on_stretch;

verus! {

/// The triangle with the corner `p0` and the edges `a` and `b` that start
/// there; `normal` is the unit normal of its plane.
#[derive(Debug)]
pub struct Triangle<M> {
    pub p0: Point3,
    pub a: Vec3,
    pub b: Vec3,
    pub normal: Vec3,
    pub material: M,
}

/// Whether the solution of the intersection system is a hit: the ray
/// parameter `t` lies on the stretch, and the point lies in the triangle, that is
/// neither of its coordinates `u` and `v` along the two edges is negative and
/// their sum is not above one.
pub open spec fn solution_counts(
    t: Scalar,
    u: Scalar,
    v: Scalar,
    u_plus_v: Scalar,
    t_min: Scalar,
    t_max: Scalar,
) -> bool {
    &&& on_stretch(t, t_min, t_max)
    &&& u@ >= 0
    &&& v@ >= 0
    &&& u_plus_v@ <= ONE_RANK
}

impl<M> Triangle<M> {
    /// The triangle with the given corner, edges and normal.
    pub fn new(p0: Point3, a: Vec3, b: Vec3, normal: Vec3, material: M) -> (tri: Triangle<M>)
        ensures
            tri.p0 == p0,
            tri.a == a,
            tri.b == b,
            tri.normal == normal,
            tri.material == material,
    {
        Triangle { p0, a, b, normal, material }
    }

    /// Whether the ray hits the triangle, `t`, `u` and `v` being the solution
    /// of the intersection system and `u_plus_v` the sum of the last two.
    pub fn accepts(
        t: Scalar,
        u: Scalar,
        v: Scalar,
        u_plus_v: Scalar,
        t_min: Scalar,
        t_max: Scalar,
    ) -> (hit: bool)
        ensures
            hit == solution_counts(t, u, v, u_plus_v, t_min, t_max),
    {
        if t.lt(t_min) || t.gt(t_max) {
            return false;
        }
        if u.is_negative() || v.is_negative() || u_plus_v.gt(Scalar::one()) {
            return false;
        }
        true
    }
}

impl<M: Clone> Clone for Triangle<M> {
    /// The same triangle, of a clone of its material.
    fn clone(&self) -> (r: Self)
        ensures
            r.p0 == self.p0,
            r.a == self.a,
            r.b == self.b,
            r.normal == self.normal,
            cloned(self.material, r.material),
    {
        Triangle {
            p0: self.p0,
            a: self.a,
            b: self.b,
            normal: self.normal,
            material: self.material.clone(),
        }
    }
}

} // verus!
