//! The random draws of the game, made by `rand`'s thread-local generator. Each item
//! below states what holds of every outcome; which outcome comes is left to chance.

use rand::seq::SliceRandom;
use rand::Rng;
use vstd::prelude::*;

verus! {

/// `Rng::gen_ratio`: `true` with probability `numerator / denominator`. The source
/// (`Bernoulli::from_ratio`) panics unless `0 < denominator` and `numerator <= denominator`,
/// is always `true` at `numerator == denominator`, and never at `numerator == 0`.
#[verifier::external_body]
pub(crate) fn gen_ratio(numerator: u32, denominator: u32) -> (r: bool)
    requires
        0 < denominator,
        numerator <= denominator,
    ensures
        numerator == 0 ==> !r,
        numerator == denominator ==> r,
{
    rand::thread_rng().gen_ratio(numerator, denominator)
}

/// `Rng::gen_range(lo..=hi)` on `u8`: some value of the inclusive range. It panics on an
/// empty range, which `lo <= hi` rules out.
#[verifier::external_body]
pub(crate) fn gen_range_u8(lo: u8, hi: u8) -> (r: u8)
    requires
        lo <= hi,
    ensures
        lo <= r <= hi,
{
    rand::thread_rng().gen_range(lo..=hi)
}

/// `Rng::gen_range(lo..=hi)` on `u32`: some value of the inclusive range.
#[verifier::external_body]
pub(crate) fn gen_range_u32(lo: u32, hi: u32) -> (r: u32)
    requires
        lo <= hi,
    ensures
        lo <= r <= hi,
{
    rand::thread_rng().gen_range(lo..=hi)
}

/// `Rng::gen_range(lo..=hi)` on `usize`: some value of the inclusive range.
#[verifier::external_body]
pub(crate) fn gen_range_usize(lo: usize, hi: usize) -> (r: usize)
    requires
        lo <= hi,
    ensures
        lo <= r <= hi,
{
    rand::thread_rng().gen_range(lo..=hi)
}

/// `SliceRandom::choose` on a slice of indices: `None` exactly when it is empty, else one
/// of its elements.
#[verifier::external_body]
pub(crate) fn choose_usize(items: &Vec<usize>) -> (r: Option<usize>)
    ensures
        r is None <==> items@.len() == 0,
        r matches Some(x) ==> items@.contains(x),
{
    items.choose(&mut rand::thread_rng()).copied()
}

/// `SliceRandom::choose_multiple` on a slice of ids: `min(amount, len)` elements taken
/// from distinct positions, in random order, so a sub-multiset of the pool.
#[verifier::external_body]
pub(crate) fn choose_multiple_u32(pool: &Vec<u32>, amount: usize) -> (r: Vec<u32>)
    ensures
        r@.len() == (if amount < pool@.len() {
            amount as int
        } else {
            pool@.len() as int
        }),
        r@.to_multiset().subset_of(pool@.to_multiset()),
{
    pool.choose_multiple(&mut rand::thread_rng(), amount).copied().collect()
}

} // verus!
