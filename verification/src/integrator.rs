//! The decisions of the path tracer.
//!
//! A path is followed from the camera one bounce at a time. At each bounce
//! the caller intersects the ray with the world, asks the material and does
//! the arithmetic of radiance; here it is decided whether the path ends, and
//! with what, or goes on.
use vstd::prelude::*;
use crate::scalar::Scalar;
use crate::vec3::NEAR_ZERO_RANK;

verus! {

/// What a ray met.
#[derive(Clone, Copy, Debug, PartialEq, Eq, Structural)]
pub enum Surface {
    /// Nothing: the ray left the scene.
    Miss,
    /// A surface that does not scatter this ray: a light, or a metal that
    /// absorbed it.
    NoScatter,
    /// A specular surface, which sends the ray on in one direction.
    Specular,
    /// A diffuse surface. A direction was drawn from the mixture of the
    /// material's density and the lights'; `density` is the value of that
    /// mixture for the direction.
    Diffuse { density: Scalar },
}

/// What is done with a ray.
#[derive(Clone, Copy, Debug, PartialEq, Eq, Structural)]
pub enum Step {
    /// The path ends with black: its budget of bounces is used up.
    Exhausted,
    /// The path ends with the background seen along the ray.
    Background,
    /// The path ends with what the surface emits.
    Emission,
    /// The path goes on along the one ray of a specular surface, with `depth`
    /// bounces left: the radiance from there, times the attenuation, is added
    /// to what the surface emits.
    FollowSpecular { depth: i32 },
    /// The path goes on along the drawn direction, with `depth` bounces left:
    /// the radiance from there, times the attenuation and the scattering
    /// weight and divided by the mixture density, is added to what the surface
    /// emits.
    FollowDiffuse { depth: i32 },
}

/// Whether a mixture density is too close to zero to divide by: it is not above
/// 1e-8.
pub open spec fn density_vanishes(density: Scalar) -> bool {
    density@ <= NEAR_ZERO_RANK
}

/// What is done with a ray that has `depth` bounces left and met `surface`.
pub open spec fn step_of(depth: i32, surface: Surface) -> Step {
    if depth <= 0 {
        Step::Exhausted
    } else {
        match surface {
            Surface::Miss => Step::Background,
            Surface::NoScatter => Step::Emission,
            Surface::Specular => Step::FollowSpecular { depth: (depth - 1) as i32 },
            Surface::Diffuse { density } => if density_vanishes(density) {
                Step::Emission
            } else {
                Step::FollowDiffuse { depth: (depth - 1) as i32 }
            },
        }
    }
}

/// Whether a ray with `depth` bounces left is traced at all. One that is not
/// contributes black, and the world need not be intersected for it.
pub fn has_budget(depth: i32) -> (b: bool)
    ensures
        b == (depth > 0),
        !b ==> forall|surface: Surface| step_of(depth, surface) == Step::Exhausted,
{
    depth > 0
}

/// What is done with a ray that has `depth` bounces left and met `surface`.
pub fn next_step(depth: i32, surface: Surface) -> (step: Step)
    ensures
        step == step_of(depth, surface),
{
    if depth <= 0 {
        return Step::Exhausted;
    }
    match surface {
        Surface::Miss => Step::Background,
        Surface::NoScatter => Step::Emission,
        Surface::Specular => Step::FollowSpecular { depth: depth - 1 },
        Surface::Diffuse { density } => {
            if density.le(Scalar::from_rank(NEAR_ZERO_RANK)) {
                Step::Emission
            } else {
                Step::FollowDiffuse { depth: depth - 1 }
            }
        },
    }
}

/// The bounces left after a step, where the path goes on.
pub open spec fn depth_after(step: Step) -> Option<i32> {
    match step {
        Step::FollowSpecular { depth } => Some(depth),
        Step::FollowDiffuse { depth } => Some(depth),
        _ => None,
    }
}

/// The number of rays traced along a path that starts with `depth` bounces
/// left and meets the given surfaces in turn, as far as it gets.
pub open spec fn rays_traced(depth: i32, surfaces: Seq<Surface>) -> nat
    decreases surfaces.len(),
{
    if surfaces.len() == 0 {
        0
    } else {
        match depth_after(step_of(depth, surfaces[0])) {
            Some(left) => 1 + rays_traced(left, surfaces.drop_first()),
            None => if depth > 0 {
                1
            } else {
                0
            },
        }
    }
}

/// A path goes on only with one bounce less left, and never from a budget of
/// none.
pub proof fn lemma_step_spends_budget(depth: i32, surface: Surface)
    ensures
        depth_after(step_of(depth, surface)) matches Some(left) ==> depth > 0 && left == depth - 1,
{
}

/// A path ends: whatever it meets, no more rays are traced along it than it
/// had bounces to begin with.
pub proof fn lemma_path_is_bounded(depth: i32, surfaces: Seq<Surface>)
    ensures
        rays_traced(depth, surfaces) <= if depth > 0 { depth as nat } else { 0 },
    decreases surfaces.len(),
{
    if surfaces.len() > 0 {
        match depth_after(step_of(depth, surfaces[0])) {
            Some(left) => {
                lemma_path_is_bounded(left, surfaces.drop_first());
            },
            None => {},
        }
    }
}

} // verus!
