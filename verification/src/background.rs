//! What a ray sees that leaves the scene.
use vstd::prelude::*;
use crate::color::Color;
use crate::scalar::Scalar;
use crate::vec3::Vec3;

verus! {

/// The rank of 0.5, the red of the sky's top.
pub const SKY_RED_RANK: i64 = 0x3FE0_0000_0000_0000;

/// The rank of 0.7, the green of the sky's top.
pub const SKY_GREEN_RANK: i64 = 0x3FE6_6666_6666_6666;

/// One colour whatever the direction.
#[derive(Clone, Copy, Debug, PartialEq, Eq, Structural)]
pub struct SolidBackground {
    pub color: Color,
}

/// A blend from `bottom`, seen straight down, to `top`, seen straight up.
#[derive(Clone, Copy, Debug, PartialEq, Eq, Structural)]
pub struct Gradation {
    pub bottom: Color,
    pub top: Color,
}

/// Any background.
#[derive(Clone, Copy, Debug, PartialEq, Eq, Structural)]
pub enum BackgroundEnum {
    Solid(SolidBackground),
    Gradation(Gradation),
}

impl SolidBackground {
    /// The background of one colour.
    pub fn new(color: Color) -> (b: SolidBackground)
        ensures
            b.color == color,
    {
        SolidBackground { color }
    }

    /// The colour seen along any ray.
    pub fn value(&self) -> (c: Color)
        ensures
            c == self.color,
    {
        self.color
    }
}

impl Gradation {
    /// The blend between two colours.
    pub fn new(bottom: Color, top: Color) -> (g: Gradation)
        ensures
            g.bottom == bottom,
            g.top == top,
    {
        Gradation { bottom, top }
    }
}

/// The sky: white at the bottom, and at the top the blue (0.5, 0.7, 1).
pub fn sky() -> (b: BackgroundEnum)
    ensures
        b matches BackgroundEnum::Gradation(g) && {
            &&& g.bottom.0.x@ == crate::scalar::ONE_RANK
            &&& g.bottom.0.y@ == crate::scalar::ONE_RANK
            &&& g.bottom.0.z@ == crate::scalar::ONE_RANK
            &&& g.top.0.x@ == SKY_RED_RANK
            &&& g.top.0.y@ == SKY_GREEN_RANK
            &&& g.top.0.z@ == crate::scalar::ONE_RANK
        },
{
    BackgroundEnum::Gradation(
        Gradation::new(
            Color(Vec3::new(Scalar::one(), Scalar::one(), Scalar::one())),
            Color(
                Vec3::new(
                    Scalar::from_rank(SKY_RED_RANK),
                    Scalar::from_rank(SKY_GREEN_RANK),
                    Scalar::one(),
                ),
            ),
        ),
    )
}

/// Darkness: black whatever the direction.
pub fn dark() -> (b: BackgroundEnum)
    ensures
        b matches BackgroundEnum::Solid(s) && s.color.is_black(),
{
    BackgroundEnum::Solid(SolidBackground::new(Color::default()))
}

} // verus!
