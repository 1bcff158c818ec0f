//! A volume of constant density, such as smoke, inside a boundary.
use vstd::prelude::*;
use crate::scalar::Scalar;
use super::aabb::Interval;

verus! {

/// A medium that fills `boundary`. `neg_inv_density` is minus one over its
/// density, `phase_function` the material that scatters inside it.
#[derive(Debug)]
pub struct ConstantMedium<T, M> {
    pub boundary: T,
    pub phase_function: M,
    pub neg_inv_density: Scalar,
}

/// The part of the ray inside the boundary that lies on the stretch and does
/// not start behind the ray's origin; `None` where the ray enters no earlier
/// than it leaves.
pub open spec fn stretch_inside(
    enters: Scalar,
    leaves: Scalar,
    t_min: Scalar,
    t_max: Scalar,
) -> Option<Interval> {
    let t1 = Scalar::max_of(enters, t_min);
    let t2 = Scalar::min_of(leaves, t_max);
    if t1@ >= t2@ {
        None
    } else {
        Some(Interval { t_min: if t1@ < 0 { Scalar::of_rank(0) } else { t1 }, t_max: t2 })
    }
}

impl<T, M> ConstantMedium<T, M> {
    /// The medium inside `boundary`.
    pub fn new(boundary: T, phase_function: M, neg_inv_density: Scalar) -> (m: ConstantMedium<
        T,
        M,
    >)
        ensures
            m.boundary == boundary,
            m.phase_function == phase_function,
            m.neg_inv_density == neg_inv_density,
    {
        ConstantMedium { boundary, phase_function, neg_inv_density }
    }

    /// The part of the ray in which it can scatter, the ray entering the
    /// boundary at `enters` and leaving it at `leaves`.
    pub fn inside(enters: Scalar, leaves: Scalar, t_min: Scalar, t_max: Scalar) -> (r: Option<
        Interval,
    >)
        ensures
            r == stretch_inside(enters, leaves, t_min, t_max),
    {
        broadcast use crate::scalar::lemma_scalar_equal_by_rank, crate::scalar::lemma_of_rank_view;

        let t1 = enters.max(t_min);
        let t2 = leaves.min(t_max);
        if t1.ge(t2) {
            return None;
        }
        let t1 = t1.max(Scalar::zero());
        Some(Interval { t_min: t1, t_max: t2 })
    }

    /// Whether the ray scatters inside the medium: the distance that it was
    /// drawn to travel before scattering is not above the distance that it
    /// spends inside.
    pub fn scatters(hit_distance: Scalar, distance_inside: Scalar) -> (b: bool)
        ensures
            b == (hit_distance@ <= distance_inside@),
    {
        !hit_distance.gt(distance_inside)
    }
}

} // verus!
