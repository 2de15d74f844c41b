//! The cryptographically secure random draws that generation relies on.
//!
//! Every draw goes through the operating system's secure random source
//! (`OsRng`); nothing about a draw is assumed beyond what holds of every
//! possible outcome.

use rand::rngs::OsRng;
use rand::seq::SliceRandom;
use vstd::prelude::*;

verus! {

/// Relies on rand's `SliceRandom::choose` over `OsRng`: on a non-empty
/// slice it returns `Some(&self[i])` for an index `i` drawn from the
/// operating system's secure random source, so the result is always one
/// of the pool's own characters.
#[verifier::external_body]
pub(crate) fn choose_char(pool: &Vec<char>) -> (r: char)
    requires
        pool@.len() > 0,
    ensures
        pool@.contains(r),
{
    *pool.choose(&mut OsRng).expect("pool is non-empty")
}

/// Relies on rand's `SliceRandom::shuffle` over `OsRng`: a Fisher-Yates
/// shuffle rearranges the slice in place by swaps alone, so the multiset
/// of its elements is unchanged.
#[verifier::external_body]
pub(crate) fn shuffle_chars(v: &mut Vec<char>)
    ensures
        final(v)@.to_multiset() == old(v)@.to_multiset(),
{
    v.shuffle(&mut OsRng);
}

} // verus!
