//! Radiance as three channels.
use vstd::prelude::*;
use crate::scalar::{Scalar, ONE_RANK};
use crate::vec3::Vec3;

verus! {

/// Red, green and blue, in the `x`, `y` and `z` of a vector. A channel may
/// hold any radiance that is not negative; it is brought into the range from
/// zero to one only when the picture is written.
#[derive(Clone, Copy, Debug, PartialEq, Eq, Structural)]
pub struct Color(pub Vec3);

/// A rank brought into the range from `min` to `max`.
pub open spec fn clamped_rank(x: int, min: int, max: int) -> int {
    if x < min {
        min
    } else if x > max {
        max
    } else {
        x
    }
}

impl Color {
    /// The colour with the given channels.
    pub fn new(r: Scalar, g: Scalar, b: Scalar) -> (c: Color)
        ensures
            c.0 == (Vec3 { x: r, y: g, z: b }),
    {
        Color(Vec3::new(r, g, b))
    }

    /// Whether all three channels are zero.
    pub open spec fn is_black(self) -> bool {
        self.0.x@ == 0 && self.0.y@ == 0 && self.0.z@ == 0
    }

    /// `x` where it lies between `min` and `max`, else the nearer of the two.
    pub fn clamp(x: Scalar, min: Scalar, max: Scalar) -> (r: Scalar)
        ensures
            r@ == clamped_rank(x@, min@, max@),
            r == x || r == min || r == max,
    {
        if x.lt(min) {
            min
        } else if x.gt(max) {
            max
        } else {
            x
        }
    }

    /// A channel brought into the range from zero to one.
    pub fn clamp_color(x: Scalar) -> (r: Scalar)
        ensures
            r@ == clamped_rank(x@, 0, ONE_RANK as int),
    {
        Color::clamp(x, Scalar::zero(), Scalar::one())
    }
}

impl Default for Color {
    /// Black.
    fn default() -> (c: Color)
        ensures
            c.is_black(),
    {
        Color(Vec3::default())
    }
}

} // verus!
