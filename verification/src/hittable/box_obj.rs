//! A box with its sides along the axes, made of six rectangles.
use vstd::prelude::*;
use crate::scalar::Scalar;
use crate::vec3::Point3;
use super::aabb::Aabb;
use super::hittable_list::HittableList;
use super::rect::{XYRect, XZRect, YZRect};

verus! {

/// One side of a box.
#[derive(Debug)]
pub enum Side<M> {
    XY(XYRect<M>),
    XZ(XZRect<M>),
    YZ(YZRect<M>),
}

/// The box between the corners `box_min` and `box_max`, and its six sides.
#[derive(Debug)]
pub struct BoxObj<M> {
    pub box_min: Point3,
    pub box_max: Point3,
    pub sides: HittableList<Side<M>>,
}

/// Whether a side is the rectangle across z = `k` of the box between `p0` and
/// `p1`, of a material cloned from `mat`.
pub open spec fn is_xy_side<M: Clone>(
    side: Side<M>,
    p0: Point3,
    p1: Point3,
    k: Scalar,
    mat: M,
) -> bool {
    side matches Side::XY(r) && r.x0 == p0.x && r.x1 == p1.x && r.y0 == p0.y && r.y1 == p1.y
        && r.k == k && cloned(mat, r.material)
}

/// Whether a side is the rectangle across y = `k` of the box between `p0` and
/// `p1`, of a material cloned from `mat`.
pub open spec fn is_xz_side<M: Clone>(
    side: Side<M>,
    p0: Point3,
    p1: Point3,
    k: Scalar,
    mat: M,
) -> bool {
    side matches Side::XZ(r) && r.x0 == p0.x && r.x1 == p1.x && r.z0 == p0.z && r.z1 == p1.z
        && r.k == k && cloned(mat, r.material)
}

/// Whether a side is the rectangle across x = `k` of the box between `p0` and
/// `p1`, of a material cloned from `mat`.
pub open spec fn is_yz_side<M: Clone>(
    side: Side<M>,
    p0: Point3,
    p1: Point3,
    k: Scalar,
    mat: M,
) -> bool {
    side matches Side::YZ(r) && r.y0 == p0.y && r.y1 == p1.y && r.z0 == p0.z && r.z1 == p1.z
        && r.k == k && cloned(mat, r.material)
}

impl<M: Clone> BoxObj<M> {
    /// The box between two corners, all of one material: its far and near
    /// sides across z, its top and bottom across y, its right and left sides
    /// across x, in this order.
    pub fn new(p0: Point3, p1: Point3, mat: M) -> (b: BoxObj<M>)
        ensures
            b.box_min == p0,
            b.box_max == p1,
            b.sides@.len() == 6,
            is_xy_side(b.sides@[0], p0, p1, p1.z, mat),
            is_xy_side(b.sides@[1], p0, p1, p0.z, mat),
            is_xz_side(b.sides@[2], p0, p1, p1.y, mat),
            is_xz_side(b.sides@[3], p0, p1, p0.y, mat),
            is_yz_side(b.sides@[4], p0, p1, p1.x, mat),
            is_yz_side(b.sides@[5], p0, p1, p0.x, mat),
    {
        let mut sides: HittableList<Side<M>> = HittableList::new();
        sides.add(Side::XY(XYRect::new(p0.x, p1.x, p0.y, p1.y, p1.z, mat.clone())));
        sides.add(Side::XY(XYRect::new(p0.x, p1.x, p0.y, p1.y, p0.z, mat.clone())));
        sides.add(Side::XZ(XZRect::new(p0.x, p1.x, p0.z, p1.z, p1.y, mat.clone())));
        sides.add(Side::XZ(XZRect::new(p0.x, p1.x, p0.z, p1.z, p0.y, mat.clone())));
        sides.add(Side::YZ(YZRect::new(p0.y, p1.y, p0.z, p1.z, p1.x, mat.clone())));
        sides.add(Side::YZ(YZRect::new(p0.y, p1.y, p0.z, p1.z, p0.x, mat)));
        BoxObj { box_min: p0, box_max: p1, sides }
    }

    /// The box round the box: the box itself.
    pub fn bounding_box(&self) -> (bb: Option<Aabb>)
        ensures
            bb == Some(Aabb { minimum: self.box_min, maximum: self.box_max }),
    {
        Some(Aabb::new(self.box_min, self.box_max))
    }
}

} // verus!
