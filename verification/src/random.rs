//! The source of random numbers that every stochastic step is handed.
use vstd::prelude::*;
use rand::distributions::Uniform;
use rand::rngs::ThreadRng;
use rand::seq::SliceRandom;
use rand::Rng;

verus! {

/// The generator of the `rand` crate that each thread owns. Nothing is known
/// of what it holds.
#[verifier::external_type_specification]
#[verifier::external_body]
pub struct ExThreadRng(ThreadRng);

/// `rand::thread_rng` hands out the calling thread's generator; nothing is
/// claimed of it.
pub assume_specification[ rand::thread_rng ]() -> (rng: ThreadRng)
;

/// A source of random numbers. Each renderer owns one and hands it to whatever
/// draws from it.
pub struct Random {
    rng: ThreadRng,
}

impl Random {
    /// Draws an integer from `min` up to, and not including, `max`.
    ///
    /// This samples `rand`'s `Uniform::new(min, max)`, which refuses an empty
    /// range and returns a value of the half-open range. Which value comes is
    /// not stated.
    #[verifier::external_body]
    pub fn range_i32(&mut self, min: i32, max: i32) -> (r: i32)
        requires
            min < max,
        ensures
            min <= r < max,
    {
        let distr = Uniform::new(min, max);
        self.rng.sample(distr)
    }

    /// Draws an index from `min` up to, and not including, `max`.
    ///
    /// This samples `rand`'s `Uniform::new(min, max)`, which refuses an empty
    /// range and returns a value of the half-open range. Which value comes is
    /// not stated.
    #[verifier::external_body]
    pub(crate) fn range_usize(&mut self, min: usize, max: usize) -> (r: usize)
        requires
            min < max,
        ensures
            min <= r < max,
    {
        let distr = Uniform::new(min, max);
        self.rng.sample(distr)
    }

    /// Puts the items of a list into a random order.
    ///
    /// This is `rand`'s `SliceRandom::shuffle`, which only swaps items of the
    /// slice: the list holds the same items afterwards, each as often as
    /// before. In which order is not stated.
    #[verifier::external_body]
    pub fn shuffle<T>(&mut self, slice: &mut Vec<T>)
        ensures
            final(slice)@.to_multiset() == old(slice)@.to_multiset(),
    {
        slice.shuffle(&mut self.rng);
    }
}

impl Default for Random {
    /// The generator of the calling thread.
    fn default() -> Random {
        Random { rng: rand::thread_rng() }
    }
}

} // verus!
