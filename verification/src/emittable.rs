//! The lights that directions are sampled towards.
use vstd::prelude::*;
use crate::hittable::{Sphere, XZRect};
use crate::random::Random;

verus! {

/// A light to sample: a rectangle, a sphere, or several lights.
#[derive(Debug)]
pub enum EmittableEnum<M> {
    XZRect(XZRect<M>),
    Sphere(Sphere<M>),
    List(Vec<EmittableEnum<M>>),
}

impl<M> EmittableEnum<M> {
    /// Whether there is anything to sample: a single light always, a list of
    /// lights unless it is empty.
    pub open spec fn valid(self) -> bool {
        match self {
            EmittableEnum::List(lights) => lights@.len() > 0,
            _ => true,
        }
    }

    /// Whether there is anything to sample.
    pub fn is_valid(&self) -> (b: bool)
        ensures
            b == self.valid(),
    {
        match self {
            EmittableEnum::List(lights) => lights.len() > 0,
            _ => true,
        }
    }

    /// The number of members over which the density of a list is averaged; 1
    /// for a single light.
    pub fn members(&self) -> (n: usize)
        ensures
            n == match self {
                EmittableEnum::List(lights) => lights@.len(),
                _ => 1,
            },
    {
        match self {
            EmittableEnum::List(lights) => lights.len(),
            _ => 1,
        }
    }

    /// The member to sample a direction towards: a single light itself; of a
    /// list one member, each with the same probability; nothing of an empty
    /// list.
    pub fn choose_member<'a>(&'a self, rng: &mut Random) -> (member: Option<&'a EmittableEnum<M>>)
        ensures
            member is None <==> !self.valid(),
            member matches Some(light) ==> match self {
                EmittableEnum::List(lights) => exists|i: int|
                    0 <= i < lights@.len() && *light == #[trigger] lights@[i],
                _ => *light == *self,
            },
    {
        match self {
            EmittableEnum::List(lights) => {
                if lights.len() == 0 {
                    None
                } else {
                    let choice = rng.range_usize(0, lights.len());
                    Some(&lights[choice])
                }
            },
            _ => Some(self),
        }
    }
}

impl<M> Default for EmittableEnum<M> {
    /// No lights.
    fn default() -> (lights: EmittableEnum<M>)
        ensures
            !lights.valid(),
    {
        EmittableEnum::List(Vec::new())
    }
}

} // verus!
