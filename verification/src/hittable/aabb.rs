//! Axis-aligned bounding boxes: their union, and the slab test that tells
//! whether a ray passes through one.
use vstd::prelude::*;
use crate::scalar::{Scalar, lemma_scalar_equal_by_rank};
use crate::vec3::Point3;

verus! {

/// A box given by its two extreme corners. It is *ordered* when no component
/// of `minimum` lies above that of `maximum`; a box of no thickness is
/// ordered.
#[derive(Clone, Copy, Debug, PartialEq, Eq, Structural)]
pub struct Aabb {
    pub minimum: Point3,
    pub maximum: Point3,
}

/// A stretch of a ray, from parameter `t_min` to parameter `t_max`.
#[derive(Clone, Copy, Debug, PartialEq, Eq, Structural)]
pub struct Interval {
    pub t_min: Scalar,
    pub t_max: Scalar,
}

/// Where a ray crosses the two faces of a box that are perpendicular to one
/// axis. `inv_d` is the inverse of the ray's direction along the axis, `t0` the
/// parameter at which the ray meets the face at the box's minimum and `t1`
/// that for the face at its maximum. A parameter is `None` where it is
/// undefined (a ray that runs inside a face, parallel to it).
#[derive(Clone, Copy, Debug, PartialEq, Eq, Structural)]
pub struct Slab {
    pub inv_d: Scalar,
    pub t0: Option<Scalar>,
    pub t1: Option<Scalar>,
}

impl Interval {
    /// Whether the stretch holds more than one point.
    pub open spec fn is_open(self) -> bool {
        self.t_min@ < self.t_max@
    }
}

impl Slab {
    /// The parameter at which the ray enters the slab: `t0`, or `t1` for a ray
    /// that runs against the axis.
    pub open spec fn entry(self) -> Option<Scalar> {
        if self.inv_d@ < 0 {
            self.t1
        } else {
            self.t0
        }
    }

    /// The parameter at which the ray leaves the slab.
    pub open spec fn exit(self) -> Option<Scalar> {
        if self.inv_d@ < 0 {
            self.t0
        } else {
            self.t1
        }
    }

    /// The part of a stretch that lies inside the slab: its start moved up to
    /// the entry and its end moved down to the exit, an undefined parameter
    /// moving nothing.
    pub open spec fn clip(self, range: Interval) -> Interval {
        Interval {
            t_min: match self.entry() {
                Some(t) => Scalar::max_of(range.t_min, t),
                None => range.t_min,
            },
            t_max: match self.exit() {
                Some(t) => Scalar::min_of(range.t_max, t),
                None => range.t_max,
            },
        }
    }

    /// The part of a stretch that lies inside the slab.
    pub fn tighten(&self, range: Interval) -> (r: Interval)
        ensures
            r == self.clip(range),
    {
        let reversed = self.inv_d.is_negative();
        let entry = if reversed { self.t1 } else { self.t0 };
        let exit = if reversed { self.t0 } else { self.t1 };
        let t_min = match entry {
            Some(t) => range.t_min.max(t),
            None => range.t_min,
        };
        let t_max = match exit {
            Some(t) => range.t_max.min(t),
            None => range.t_max,
        };
        Interval { t_min, t_max }
    }
}

impl Aabb {
    /// The box between two corners.
    pub fn new(minimum: Point3, maximum: Point3) -> (r: Aabb)
        ensures
            r == (Aabb { minimum, maximum }),
    {
        Aabb { minimum, maximum }
    }

    /// Whether `minimum` lies at or below `maximum` along every axis.
    pub open spec fn is_ordered(self) -> bool {
        &&& self.minimum.x@ <= self.maximum.x@
        &&& self.minimum.y@ <= self.maximum.y@
        &&& self.minimum.z@ <= self.maximum.z@
    }

    /// Whether a point lies in the box or on its boundary.
    pub open spec fn contains_point(self, p: Point3) -> bool {
        &&& self.minimum.x@ <= p.x@ <= self.maximum.x@
        &&& self.minimum.y@ <= p.y@ <= self.maximum.y@
        &&& self.minimum.z@ <= p.z@ <= self.maximum.z@
    }

    /// One of the eight corners: bit 0 of `which` picks the maximum along x, bit
    /// 1 along y, bit 2 along z.
    pub open spec fn corner(self, which: int) -> Point3 {
        Point3 {
            x: if which % 2 == 1 { self.maximum.x } else { self.minimum.x },
            y: if (which / 2) % 2 == 1 { self.maximum.y } else { self.minimum.y },
            z: if (which / 4) % 2 == 1 { self.maximum.z } else { self.minimum.z },
        }
    }

    /// Whether all eight corners of `other` lie in this box or on its boundary.
    pub open spec fn contains_box(self, other: Aabb) -> bool {
        forall|which: int| 0 <= which < 8 ==> self.contains_point(#[trigger] other.corner(which))
    }

    /// The smallest box round two boxes: along each axis the smaller of the two
    /// minima and the larger of the two maxima.
    pub open spec fn union(self, other: Aabb) -> Aabb {
        Aabb {
            minimum: Point3 {
                x: Scalar::min_of(self.minimum.x, other.minimum.x),
                y: Scalar::min_of(self.minimum.y, other.minimum.y),
                z: Scalar::min_of(self.minimum.z, other.minimum.z),
            },
            maximum: Point3 {
                x: Scalar::max_of(self.maximum.x, other.maximum.x),
                y: Scalar::max_of(self.maximum.y, other.maximum.y),
                z: Scalar::max_of(self.maximum.z, other.maximum.z),
            },
        }
    }

    /// The smallest box round this box and another.
    pub fn surrounding_box(&self, other: &Aabb) -> (r: Aabb)
        ensures
            r == self.union(*other),
    {
        let minimum = Point3::new(
            self.minimum.x.min(other.minimum.x),
            self.minimum.y.min(other.minimum.y),
            self.minimum.z.min(other.minimum.z),
        );
        let maximum = Point3::new(
            self.maximum.x.max(other.maximum.x),
            self.maximum.y.max(other.maximum.y),
            self.maximum.z.max(other.maximum.z),
        );
        Aabb::new(minimum, maximum)
    }

    /// What folding this box into a box gathered so far gives: this box where
    /// nothing was gathered yet, else the union of the two.
    pub open spec fn merged(self, other: Option<Aabb>) -> Aabb {
        match other {
            Some(o) => self.union(o),
            None => self,
        }
    }

    /// Folds this box into a box gathered so far.
    pub fn merge(self, other: &Option<Aabb>) -> (r: Option<Aabb>)
        ensures
            r == Some(self.merged(*other)),
    {
        match other {
            Some(other) => Some(self.surrounding_box(other)),
            None => Some(self),
        }
    }

    /// The stretch of a ray that lies inside all three slabs of a box, taken in
    /// the order x, y, z; `None` as soon as what is left holds no more than
    /// one point.
    pub open spec fn clip(x: Slab, y: Slab, z: Slab, range: Interval) -> Option<Interval> {
        let after_x = x.clip(range);
        let after_y = y.clip(after_x);
        let after_z = z.clip(after_y);
        if after_x.is_open() && after_y.is_open() && after_z.is_open() {
            Some(after_z)
        } else {
            None
        }
    }

    /// The stretch of the ray between `t_min` and `t_max` that lies inside the
    /// box whose slabs are given, if it holds more than one point.
    pub fn clipped(x: &Slab, y: &Slab, z: &Slab, t_min: Scalar, t_max: Scalar) -> (r: Option<
        Interval,
    >)
        ensures
            r == Aabb::clip(*x, *y, *z, (Interval { t_min, t_max })),
    {
        let after_x = x.tighten(Interval { t_min, t_max });
        if after_x.t_max.le(after_x.t_min) {
            return None;
        }
        let after_y = y.tighten(after_x);
        if after_y.t_max.le(after_y.t_min) {
            return None;
        }
        let after_z = z.tighten(after_y);
        if after_z.t_max.le(after_z.t_min) {
            return None;
        }
        Some(after_z)
    }

    /// Whether the ray passes through the box whose slabs are given, somewhere
    /// between `t_min` and `t_max`.
    pub fn hit(x: &Slab, y: &Slab, z: &Slab, t_min: Scalar, t_max: Scalar) -> (b: bool)
        ensures
            b == Aabb::clip(*x, *y, *z, (Interval { t_min, t_max })).is_some(),
    {
        Aabb::clipped(x, y, z, t_min, t_max).is_some()
    }
}

/// The union of two boxes contains both of them, corner by corner, as soon as
/// both are ordered.
pub proof fn lemma_surrounding_box_contains(a: Aabb, b: Aabb)
    requires
        a.is_ordered(),
        b.is_ordered(),
    ensures
        a.union(b).contains_box(a),
        a.union(b).contains_box(b),
        a.union(b).is_ordered(),
{
}

/// The union is the smallest such box: an ordered box that contains both
/// contains their union.
pub proof fn lemma_surrounding_box_least(a: Aabb, b: Aabb, c: Aabb)
    requires
        a.is_ordered(),
        b.is_ordered(),
        c.contains_box(a),
        c.contains_box(b),
    ensures
        c.contains_box(a.union(b)),
{
    assert(c.contains_point(a.corner(0)));
    assert(c.contains_point(a.corner(7)));
    assert(c.contains_point(b.corner(0)));
    assert(c.contains_point(b.corner(7)));
}

/// The slab test does not depend on the order in which the three axes are
/// taken: every order gives the same verdict and, on a hit, the same stretch.
pub proof fn lemma_hit_axis_order_independent(x: Slab, y: Slab, z: Slab, range: Interval)
    ensures
        Aabb::clip(x, z, y, range) == Aabb::clip(x, y, z, range),
        Aabb::clip(y, x, z, range) == Aabb::clip(x, y, z, range),
        Aabb::clip(y, z, x, range) == Aabb::clip(x, y, z, range),
        Aabb::clip(z, x, y, range) == Aabb::clip(x, y, z, range),
        Aabb::clip(z, y, x, range) == Aabb::clip(x, y, z, range),
{
    broadcast use lemma_scalar_equal_by_rank;

}

/// What the slab test leaves of a stretch lies within the stretch, and holds
/// more than one point.
pub proof fn lemma_clip_within_range(x: Slab, y: Slab, z: Slab, range: Interval)
    ensures
        Aabb::clip(x, y, z, range) matches Some(left) ==> {
            &&& range.t_min@ <= left.t_min@
            &&& left.t_min@ < left.t_max@
            &&& left.t_max@ <= range.t_max@
        },
{
}

/// A box that is missed on a stretch is missed on every part of the stretch:
/// shortening the stretch never turns a miss into a hit.
pub proof fn lemma_clip_monotonic(x: Slab, y: Slab, z: Slab, whole: Interval, part: Interval)
    requires
        whole.t_min@ <= part.t_min@,
        part.t_max@ <= whole.t_max@,
    ensures
        Aabb::clip(x, y, z, part) is Some ==> Aabb::clip(x, y, z, whole) is Some,
{
}

impl Slab {
    /// Whether this slab lets through all of the ray that `inner` lets
    /// through: the ray enters it no later and leaves it no earlier, an
    /// undefined parameter holding nothing back.
    pub open spec fn is_wider_than(self, inner: Slab) -> bool {
        &&& self.entry() matches Some(t) ==> (inner.entry() matches Some(s) && t@ <= s@)
        &&& self.exit() matches Some(t) ==> (inner.exit() matches Some(s) && s@ <= t@)
    }
}

/// A box whose three slabs are wider than those of another box is hit
/// whenever the other is, and the stretch inside it holds the stretch inside
/// the other.
pub proof fn lemma_clip_wider_slabs(
    x: Slab,
    y: Slab,
    z: Slab,
    inner_x: Slab,
    inner_y: Slab,
    inner_z: Slab,
    range: Interval,
)
    requires
        x.is_wider_than(inner_x),
        y.is_wider_than(inner_y),
        z.is_wider_than(inner_z),
    ensures
        Aabb::clip(inner_x, inner_y, inner_z, range) matches Some(inside) ==> (Aabb::clip(
            x,
            y,
            z,
            range,
        ) matches Some(outside) && outside.t_min@ <= inside.t_min@ && inside.t_max@
            <= outside.t_max@),
{
}

} // verus!
