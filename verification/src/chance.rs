//! Chance: the probability with which a cell starts alive, and the random
//! draws that decide it.

use vstd::prelude::*;
use rand::rngs::ThreadRng;
use rand::Rng;

verus! {

/// A probability, written as the ratio of two integers.
#[derive(Clone, Copy, Debug, PartialEq, Eq, Structural)]
pub struct Probability {
    pub numerator: i32,
    pub denominator: i32,
}

impl Probability {
    /// The ratio lies between zero and one, both included.
    pub open spec fn valid(self) -> bool {
        0 <= self.numerator <= self.denominator && 0 < self.denominator
    }

    /// Whether a draw, taken evenly from the integers from zero up to but not
    /// including the denominator, lies below the probability. On such draws
    /// this holds with exactly the probability that the ratio gives.
    pub open spec fn admits(self, draw: u32) -> bool {
        draw < self.numerator
    }

    /// The ratio of `numerator` to `denominator`. Any two integers are
    /// accepted here; whether they name a probability is asked by `is_valid`.
    pub fn new(numerator: i32, denominator: i32) -> (p: Probability)
        ensures
            p == (Probability { numerator, denominator }),
    {
        Probability { numerator, denominator }
    }

    /// Whether the ratio lies between zero and one.
    pub fn is_valid(&self) -> (yes: bool)
        ensures
            yes == self.valid(),
    {
        0 <= self.numerator && self.numerator <= self.denominator && 0 < self.denominator
    }

    /// Whether `draw` lies below the probability.
    pub fn accepts(&self, draw: u32) -> (yes: bool)
        ensures
            yes == self.admits(draw),
    {
        0 <= self.numerator && draw < self.numerator as u32
    }
}

/// The random number generator of the current thread, `rand::rngs::ThreadRng`.
#[verifier::external_type_specification]
#[verifier::external_body]
pub struct ExThreadRng(ThreadRng);

/// `rand::thread_rng` hands out the generator of the current thread, which
/// the system seeds when the thread first asks for it. Nothing is claimed of
/// the generator. The call takes no argument and panics only where the
/// system has no entropy to give.
pub assume_specification[ rand::thread_rng ]() -> ThreadRng
;

/// Draws an integer with `rand::Rng::gen_range(0, bound)`, which returns a
/// value from zero up to but not including `bound`. It panics when `bound` is
/// zero, which the precondition rules out. Which value comes back is left
/// open: two calls with the same bound may differ.
#[verifier::external_body]
pub(crate) fn draw_below(rng: &mut ThreadRng, bound: u32) -> (draw: u32)
    requires
        bound > 0,
    ensures
        draw < bound,
{
    rng.gen_range(0u32, bound)
}

} // verus!
