//! What colours a surface: which of the textures' rules are order logic.
use vstd::prelude::*;
use crate::scalar::Scalar;

pub mod noise;

pub use noise::Perlin;

verus! {

/// A checkerboard of two textures.
#[derive(Debug)]
pub struct Checker<X> {
    pub even: X,
    pub odd: X,
}

impl<X> Checker<X> {
    /// The checkerboard of two textures.
    pub fn new(even: X, odd: X) -> (c: Checker<X>)
        ensures
            c.even == even,
            c.odd == odd,
    {
        Checker { even, odd }
    }

    /// The texture that colours a point: `odd` where `sines`, the product of
    /// the sines of ten times each coordinate of the point, is negative, and
    /// `even` elsewhere.
    pub fn pick(&self, sines: Scalar) -> (texture: &X)
        ensures
            *texture == if sines@ < 0 { self.odd } else { self.even },
    {
        if sines.is_negative() {
            &self.odd
        } else {
            &self.even
        }
    }
}

/// The row or column of a bitmap that a surface coordinate falls into.
/// `scaled` is the coordinate, between zero and one, times the bitmap's
/// `size` along that side, with its fraction cut off; a coordinate of exactly
/// one falls into the last row or column.
pub fn texel(scaled: u32, size: u32) -> (index: u32)
    requires
        size > 0,
    ensures
        index == if scaled < size { scaled } else { (size - 1) as u32 },
        index < size,
{
    if scaled < size {
        scaled
    } else {
        size - 1
    }
}

} // verus!
