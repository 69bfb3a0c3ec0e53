//! Randomness primitives, taken on trust from the rand crate.
//!
//! Everything else about shuffling, dealing and rolling is verified code in
//! the rest of the library, built on these two draws.

use vstd::prelude::*;
use crate::color::Color;
use rand::RngExt;
use rand::seq::SliceRandom;

verus! {

/// Relies on rand's `RngExt::random_range` over `0..n`: a sample from a
/// non-empty range, so a value below `n`.
#[verifier::external_body]
pub(crate) fn random_below(n: usize) -> (r: usize)
    requires
        1 <= n,
    ensures
        r < n,
{
    rand::rng().random_range(0..n)
}

/// Relies on rand's `SliceRandom::shuffle`: an in-place permutation of the
/// slice, which keeps exactly the elements the slice held.
#[verifier::external_body]
pub(crate) fn shuffle_colors(v: &mut Vec<Color>)
    ensures
        final(v)@.len() == old(v)@.len(),
        final(v)@.to_multiset() == old(v)@.to_multiset(),
{
    v.as_mut_slice().shuffle(&mut rand::rng());
}

/// Draws a uniform die face.
pub(crate) fn random_face() -> (f: u8)
    ensures
        1 <= f <= 6,
{
    let i = random_below(6);
    (i as u8) + 1
}

} // verus!
