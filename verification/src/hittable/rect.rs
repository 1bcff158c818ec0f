//! Axis-aligned rectangles in the three coordinate planes.
use vstd::prelude::*;
use crate::scalar::Scalar;
use super::sphere::on_stretch;

verus! {

/// A rectangle in the plane z = `k`, from `x0` to `x1` and from `y0` to `y1`.
#[derive(Debug)]
pub struct XYRect<M> {
    pub x0: Scalar,
    pub x1: Scalar,
    pub y0: Scalar,
    pub y1: Scalar,
    pub k: Scalar,
    pub material: M,
}

/// A rectangle in the plane y = `k`, from `x0` to `x1` and from `z0` to `z1`.
#[derive(Debug)]
pub struct XZRect<M> {
    pub x0: Scalar,
    pub x1: Scalar,
    pub z0: Scalar,
    pub z1: Scalar,
    pub k: Scalar,
    pub material: M,
}

/// A rectangle in the plane x = `k`, from `y0` to `y1` and from `z0` to `z1`.
#[derive(Debug)]
pub struct YZRect<M> {
    pub y0: Scalar,
    pub y1: Scalar,
    pub z0: Scalar,
    pub z1: Scalar,
    pub k: Scalar,
    pub material: M,
}

/// Whether a crossing of a rectangle's plane is a hit: its parameter `t` lies
/// on the stretch and the point of the crossing, at `a` and `b` in the
/// rectangle's own two coordinates, lies within the rectangle's extent, edges
/// included.
pub open spec fn crossing_counts(
    a0: Scalar,
    a1: Scalar,
    b0: Scalar,
    b1: Scalar,
    t: Scalar,
    a: Scalar,
    b: Scalar,
    t_min: Scalar,
    t_max: Scalar,
) -> bool {
    &&& on_stretch(t, t_min, t_max)
    &&& a0@ <= a@ <= a1@
    &&& b0@ <= b@ <= b1@
}

/// Whether a crossing of a rectangle's plane is a hit.
fn accepts_crossing(
    a0: Scalar,
    a1: Scalar,
    b0: Scalar,
    b1: Scalar,
    t: Scalar,
    a: Scalar,
    b: Scalar,
    t_min: Scalar,
    t_max: Scalar,
) -> (hit: bool)
    ensures
        hit == crossing_counts(a0, a1, b0, b1, t, a, b, t_min, t_max),
{
    if t.lt(t_min) || t.gt(t_max) {
        return false;
    }
    if a.lt(a0) || a.gt(a1) || b.lt(b0) || b.gt(b1) {
        return false;
    }
    true
}

impl<M> XYRect<M> {
    /// The rectangle in the plane z = `k`.
    pub fn new(x0: Scalar, x1: Scalar, y0: Scalar, y1: Scalar, k: Scalar, material: M) -> (r:
        XYRect<M>)
        ensures
            r.x0 == x0,
            r.x1 == x1,
            r.y0 == y0,
            r.y1 == y1,
            r.k == k,
            r.material == material,
    {
        XYRect { x0, x1, y0, y1, k, material }
    }

    /// Whether the ray hits the rectangle, having crossed its plane at
    /// parameter `t` in the point with coordinates `x` and `y`.
    pub fn accepts(&self, t: Scalar, x: Scalar, y: Scalar, t_min: Scalar, t_max: Scalar) -> (hit:
        bool)
        ensures
            hit == crossing_counts(self.x0, self.x1, self.y0, self.y1, t, x, y, t_min, t_max),
    {
        accepts_crossing(self.x0, self.x1, self.y0, self.y1, t, x, y, t_min, t_max)
    }
}

impl<M> XZRect<M> {
    /// The rectangle in the plane y = `k`.
    pub fn new(x0: Scalar, x1: Scalar, z0: Scalar, z1: Scalar, k: Scalar, material: M) -> (r:
        XZRect<M>)
        ensures
            r.x0 == x0,
            r.x1 == x1,
            r.z0 == z0,
            r.z1 == z1,
            r.k == k,
            r.material == material,
    {
        XZRect { x0, x1, z0, z1, k, material }
    }

    /// Whether the ray hits the rectangle, having crossed its plane at
    /// parameter `t` in the point with coordinates `x` and `z`.
    pub fn accepts(&self, t: Scalar, x: Scalar, z: Scalar, t_min: Scalar, t_max: Scalar) -> (hit:
        bool)
        ensures
            hit == crossing_counts(self.x0, self.x1, self.z0, self.z1, t, x, z, t_min, t_max),
    {
        accepts_crossing(self.x0, self.x1, self.z0, self.z1, t, x, z, t_min, t_max)
    }
}

impl<M> YZRect<M> {
    /// The rectangle in the plane x = `k`.
    pub fn new(y0: Scalar, y1: Scalar, z0: Scalar, z1: Scalar, k: Scalar, material: M) -> (r:
        YZRect<M>)
        ensures
            r.y0 == y0,
            r.y1 == y1,
            r.z0 == z0,
            r.z1 == z1,
            r.k == k,
            r.material == material,
    {
        YZRect { y0, y1, z0, z1, k, material }
    }

    /// Whether the ray hits the rectangle, having crossed its plane at
    /// parameter `t` in the point with coordinates `y` and `z`.
    pub fn accepts(&self, t: Scalar, y: Scalar, z: Scalar, t_min: Scalar, t_max: Scalar) -> (hit:
        bool)
        ensures
            hit == crossing_counts(self.y0, self.y1, self.z0, self.z1, t, y, z, t_min, t_max),
    {
        accepts_crossing(self.y0, self.y1, self.z0, self.z1, t, y, z, t_min, t_max)
    }
}

impl<M: Clone> Clone for XYRect<M> {
    /// The same rectangle, of a clone of its material.
    fn clone(&self) -> (r: Self)
        ensures
            r.x0 == self.x0,
            r.x1 == self.x1,
            r.y0 == self.y0,
            r.y1 == self.y1,
            r.k == self.k,
            cloned(self.material, r.material),
    {
        XYRect {
            x0: self.x0,
            x1: self.x1,
            y0: self.y0,
            y1: self.y1,
            k: self.k,
            material: self.material.clone(),
        }
    }
}

impl<M: Clone> Clone for XZRect<M> {
    /// The same rectangle, of a clone of its material.
    fn clone(&self) -> (r: Self)
        ensures
            r.x0 == self.x0,
            r.x1 == self.x1,
            r.z0 == self.z0,
            r.z1 == self.z1,
            r.k == self.k,
            cloned(self.material, r.material),
    {
        XZRect {
            x0: self.x0,
            x1: self.x1,
            z0: self.z0,
            z1: self.z1,
            k: self.k,
            material: self.material.clone(),
        }
    }
}

impl<M: Clone> Clone for YZRect<M> {
    /// The same rectangle, of a clone of its material.
    fn clone(&self) -> (r: Self)
        ensures
            r.y0 == self.y0,
            r.y1 == self.y1,
            r.z0 == self.z0,
            r.z1 == self.z1,
            r.k == self.k,
            cloned(self.material, r.material),
    {
        YZRect {
            y0: self.y0,
            y1: self.y1,
            z0: self.z0,
            z1: self.z1,
            k: self.k,
            material: self.material.clone(),
        }
    }
}

} // verus!
