//! The random stream that breaks ties between equal scores. It is a value
//! that the caller owns and hands down, so that a search can be repeated.
use vstd::prelude::*;

verus! {

/// The seed of a fresh stream.
pub const DEFAULT_SEED: u64 = 88172645463325252;

/// A stream of 64-bit numbers. Its model (`@`) is its state, which is also
/// the number it gave last.
pub struct XorShiftL {
    x: u64,
}

/// The state that follows the state `x`.
pub open spec fn next_state(x: u64) -> u64 {
    x ^ (x << 7)
}

impl View for XorShiftL {
    type V = u64;

    closed spec fn view(&self) -> u64 {
        self.x
    }
}

impl XorShiftL {
    /// A stream that starts from the default seed.
    pub fn new() -> (r: Self)
        ensures
            r@ == DEFAULT_SEED,
    {
        Self { x: DEFAULT_SEED }
    }

    /// A stream that starts from `seed`.
    pub fn from_seed(seed: u64) -> (r: Self)
        ensures
            r@ == seed,
    {
        Self { x: seed }
    }

    /// Draws the next number.
    pub fn next(&mut self) -> (r: u64)
        ensures
            final(self)@ == next_state(old(self)@),
            r == final(self)@,
    {
        self.x = self.x ^ (self.x << 7);
        self.x
    }
}

} // verus!
