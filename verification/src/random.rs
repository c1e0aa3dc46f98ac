//! Uniform random draws from the unit interval.
use vstd::prelude::*;
use crate::backend::{Backend, is_ratio};

verus! {

/// The number of equally likely values a draw can take: two to the power of
/// twenty-four.
pub const DRAW_STEPS: i32 = 16777216;

/// A fresh random word from the thread-local generator.
///
/// Calls `rand::random::<u32>()`. Any word can come back, so nothing is
/// promised about the result.
#[verifier::external_body]
fn random_word() -> u32 {
    rand::random::<u32>()
}

/// `r` is the point of the unit interval that belongs to `word`: the
/// word's upper twenty-four bits, divided by two to the power of
/// twenty-four.
pub open spec fn is_unit_of<B: Backend>(word: u32, r: B::Scalar) -> bool {
    is_ratio::<B>((word / 256) as i32, DRAW_STEPS, r)
}

/// `r` is a draw: the point of the unit interval that belongs to some word.
pub open spec fn is_draw<B: Backend>(r: B::Scalar) -> bool {
    exists|word: u32| #[trigger] is_unit_of::<B>(word, r)
}

/// The point of the half-open unit interval that belongs to `word`.
pub fn unit_of<B: Backend>(word: u32) -> (r: B::Scalar)
    ensures
        is_unit_of::<B>(word, r),
{
    let steps: u32 = word / 256;
    B::ratio(steps as i32, DRAW_STEPS)
}

/// A fresh uniform draw from the half-open unit interval.
pub fn unit_draw<B: Backend>() -> (r: B::Scalar)
    ensures
        is_draw::<B>(r),
{
    let word = random_word();
    unit_of::<B>(word)
}

} // verus!
