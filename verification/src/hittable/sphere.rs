//! Spheres, at rest and moving: which root of the intersection quadratic
//! counts as the hit.
use vstd::prelude::*;
use crate::scalar::Scalar;
use crate::vec3::Point3;

verus! {

/// A sphere round `center`.
#[derive(Debug)]
pub struct Sphere<M> {
    pub center: Point3,
    pub radius: Scalar,
    pub mat_ptr: M,
}

/// A sphere whose centre moves in a straight line from `center0` at `time0` to
/// `center1` at `time1`.
#[derive(Debug)]
pub struct MovingSphere<M> {
    pub center0: Point3,
    pub center1: Point3,
    pub time0: Scalar,
    pub time1: Scalar,
    pub radius: Scalar,
    pub mat_ptr: M,
}

/// Whether a parameter lies on the stretch from `t_min` to `t_max`, ends
/// included.
pub open spec fn on_stretch(t: Scalar, t_min: Scalar, t_max: Scalar) -> bool {
    t_min@ <= t@ <= t_max@
}

/// The root that counts as the hit: the near one where it lies on the
/// stretch, else the far one where that does, else none.
pub open spec fn chosen_root(near: Scalar, far: Scalar, t_min: Scalar, t_max: Scalar) -> Option<
    Scalar,
> {
    if on_stretch(near, t_min, t_max) {
        Some(near)
    } else if on_stretch(far, t_min, t_max) {
        Some(far)
    } else {
        None
    }
}

impl<M> Sphere<M> {
    /// The sphere round `center` with the given radius and material.
    pub fn new(center: Point3, radius: Scalar, mat_ptr: M) -> (s: Sphere<M>)
        ensures
            s.center == center,
            s.radius == radius,
            s.mat_ptr == mat_ptr,
    {
        Sphere { center, radius, mat_ptr }
    }

    /// Whether the ray's line passes the sphere by: the discriminant of the
    /// intersection quadratic is negative. A discriminant of zero, a grazing
    /// ray, is no miss.
    pub fn misses(discriminant: Scalar) -> (b: bool)
        ensures
            b == (discriminant@ < 0),
    {
        discriminant.is_negative()
    }

    /// The parameter at which the ray hits, of the two roots of the
    /// intersection quadratic, `near` being the smaller.
    pub fn select_root(near: Scalar, far: Scalar, t_min: Scalar, t_max: Scalar) -> (root: Option<
        Scalar,
    >)
        ensures
            root == chosen_root(near, far, t_min, t_max),
    {
        if t_min.le(near) && near.le(t_max) {
            Some(near)
        } else if t_min.le(far) && far.le(t_max) {
            Some(far)
        } else {
            None
        }
    }
}

impl<M> MovingSphere<M> {
    /// The sphere that moves from `center0` at `time0` to `center1` at `time1`.
    pub fn new(
        center0: Point3,
        center1: Point3,
        time0: Scalar,
        time1: Scalar,
        radius: Scalar,
        mat_ptr: M,
    ) -> (s: MovingSphere<M>)
        ensures
            s.center0 == center0,
            s.center1 == center1,
            s.time0 == time0,
            s.time1 == time1,
            s.radius == radius,
            s.mat_ptr == mat_ptr,
    {
        MovingSphere { center0, center1, time0, time1, radius, mat_ptr }
    }
}

/// Where the near root lies on the stretch it is chosen, and whatever is
/// chosen lies on the stretch; with `near` not above `far`, nothing on the
/// stretch lies before it among the two roots.
pub proof fn lemma_chosen_root_is_first(near: Scalar, far: Scalar, t_min: Scalar, t_max: Scalar)
    requires
        near@ <= far@,
    ensures
        chosen_root(near, far, t_min, t_max) matches Some(t) ==> {
            &&& on_stretch(t, t_min, t_max)
            &&& (t == near || t == far)
            &&& on_stretch(near, t_min, t_max) ==> t@ <= near@
            &&& on_stretch(far, t_min, t_max) ==> t@ <= far@
        },
        chosen_root(near, far, t_min, t_max) is None ==> !on_stretch(near, t_min, t_max)
            && !on_stretch(far, t_min, t_max),
{
}

/// Shortening the stretch at its far end keeps the chosen root where it is
/// still on the stretch, and brings no new one.
pub proof fn lemma_chosen_root_restricts(
    near: Scalar,
    far: Scalar,
    t_min: Scalar,
    shorter: Scalar,
    longer: Scalar,
)
    requires
        near@ <= far@,
        shorter@ <= longer@,
    ensures
        chosen_root(near, far, t_min, shorter) == match chosen_root(near, far, t_min, longer) {
            Some(t) => if t@ <= shorter@ {
                Some(t)
            } else {
                None
            },
            None => None,
        },
{
}

impl<M: Clone> Clone for Sphere<M> {
    /// The same sphere, of a clone of its material.
    fn clone(&self) -> (r: Self)
        ensures
            r.center == self.center,
            r.radius == self.radius,
            cloned(self.mat_ptr, r.mat_ptr),
    {
        Sphere { center: self.center, radius: self.radius, mat_ptr: self.mat_ptr.clone() }
    }
}

impl<M: Clone> Clone for MovingSphere<M> {
    /// The same sphere, of a clone of its material.
    fn clone(&self) -> (r: Self)
        ensures
            r.center0 == self.center0,
            r.center1 == self.center1,
            r.time0 == self.time0,
            r.time1 == self.time1,
            r.radius == self.radius,
            cloned(self.mat_ptr, r.mat_ptr),
    {
        MovingSphere {
            center0: self.center0,
            center1: self.center1,
            time0: self.time0,
            time1: self.time1,
            radius: self.radius,
            mat_ptr: self.mat_ptr.clone(),
        }
    }
}

} // verus!
