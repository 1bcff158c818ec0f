//! The densities from which scattered directions are drawn.
use vstd::prelude::*;
use crate::scalar::Scalar;
use crate::vec3::{Onb, Point3};

verus! {

/// The rank of 1/(4·pi), the density of a direction drawn evenly from the
/// whole sphere.
pub const UNIFORM_SPHERE_RANK: i64 = 0x3FB4_5F30_6DC9_C883;

/// Directions drawn with a density that falls off as the cosine of the angle
/// to the normal `uvw.w`.
#[derive(Clone, Copy, Debug, PartialEq, Eq, Structural)]
pub struct CosinePdf {
    pub uvw: Onb,
}

/// Directions drawn evenly from the whole sphere.
#[derive(Clone, Copy, Debug, PartialEq, Eq, Structural)]
pub struct UniformSpherePdf {}

/// Directions drawn towards a light `obj`, seen from the point `o`.
#[derive(Debug)]
pub struct EmittablePdf<'a, T> {
    pub obj: &'a T,
    pub o: Point3,
}

/// A blend of two densities: a direction is drawn from `p0` with probability
/// `ratio` and from `p1` otherwise.
#[derive(Debug)]
pub struct MixturePdf<'a, T, U> {
    pub p0: &'a T,
    pub p1: &'a U,
    pub ratio: Scalar,
}

/// The density that a scattering material proposes.
#[derive(Clone, Copy, Debug, PartialEq, Eq, Structural)]
pub enum PdfEnum {
    Cosine(CosinePdf),
    UniformSphere(UniformSpherePdf),
}

impl CosinePdf {
    /// The density round the normal of a frame.
    pub fn new(uvw: Onb) -> (pdf: CosinePdf)
        ensures
            pdf.uvw == uvw,
    {
        CosinePdf { uvw }
    }

    /// The density of a direction: zero for one that does not point out of the
    /// surface, else the cosine over pi. `cosine` is the cosine of the angle
    /// between the direction and the normal, `cosine_over_pi` that divided by
    /// pi.
    pub fn value(&self, cosine: Scalar, cosine_over_pi: Scalar) -> (density: Scalar)
        ensures
            density@ == if cosine@ <= 0 { 0 } else { cosine_over_pi@ },
    {
        if cosine.le(Scalar::zero()) {
            Scalar::zero()
        } else {
            cosine_over_pi
        }
    }
}

impl UniformSpherePdf {
    /// The even density on the sphere.
    pub fn new() -> (pdf: UniformSpherePdf)
        ensures
            pdf == (UniformSpherePdf {  }),
    {
        UniformSpherePdf {  }
    }

    /// The density of any direction: 1/(4·pi).
    pub fn value(&self) -> (density: Scalar)
        ensures
            density@ == UNIFORM_SPHERE_RANK,
    {
        Scalar::from_rank(UNIFORM_SPHERE_RANK)
    }
}

impl<'a, T> EmittablePdf<'a, T> {
    /// The density of directions from `o` towards `obj`.
    pub fn new(obj: &'a T, o: Point3) -> (pdf: EmittablePdf<'a, T>)
        ensures
            pdf.obj == obj,
            pdf.o == o,
    {
        EmittablePdf { obj, o }
    }

    /// The weight of the lights in a blend with a material's density: `ratio`
    /// where there are lights to sample, and zero where there are none, so
    /// that every direction is then drawn from the material.
    pub fn mix_ratio(lights_valid: bool, ratio: Scalar) -> (weight: Scalar)
        ensures
            weight@ == if lights_valid { ratio@ } else { 0 },
    {
        if lights_valid {
            ratio
        } else {
            Scalar::zero()
        }
    }
}

impl<'a, T, U> MixturePdf<'a, T, U> {
    /// The blend of `p0`, with weight `ratio`, and `p1`.
    pub fn new(p0: &'a T, p1: &'a U, ratio: Scalar) -> (pdf: MixturePdf<'a, T, U>)
        ensures
            pdf.p0 == p0,
            pdf.p1 == p1,
            pdf.ratio == ratio,
    {
        MixturePdf { p0, p1, ratio }
    }

    /// Whether a direction is drawn from `p0`: `draw`, a number drawn evenly
    /// from zero up to one, lies below the ratio. With a ratio of zero this
    /// never happens.
    pub fn picks_first(&self, draw: Scalar) -> (first: bool)
        ensures
            first == (draw@ < self.ratio@),
    {
        draw.lt(self.ratio)
    }
}

} // verus!
