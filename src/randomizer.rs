use vstd::prelude::*;

verus! {

/// A source of random integers, such as the one that picks who opens a match.
pub trait Randomizer {
    /// A value between `min` and `max`, both included.
    fn random_value(&mut self, min: i32, max: i32) -> (r: i32)
        requires
            min <= max,
        ensures
            min <= r <= max,
    ;
}

} // verus!
