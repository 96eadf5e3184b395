//! Random choices, drawn from `rand`'s thread-local generator.

use vstd::prelude::*;
use rand::rngs::ThreadRng;

verus! {

/// The thread-local generator of `rand`.
#[verifier::external_type_specification]
#[verifier::external_body]
pub struct ExThreadRng(ThreadRng);

/// `rand::thread_rng`: a handle on the thread-local generator. Nothing is claimed of it.
#[verifier::external_body]
pub(crate) fn new_rng() -> ThreadRng {
    rand::thread_rng()
}

/// `SliceRandom::choose` on a slice: `None` exactly for an empty slice, otherwise one
/// of its elements. Which element comes back depends on the generator and is not stated.
#[verifier::external_body]
pub(crate) fn pick_one<'a, T>(items: &'a [T], rng: &mut ThreadRng) -> (r: Option<&'a T>)
    ensures
        r is None <==> items@.len() == 0,
        r matches Some(x) ==> items@.contains(*x),
{
    rand::seq::SliceRandom::choose(items, rng)
}

/// `Rng::gen_ratio`: `true` with probability `numerator / denominator`. Claimed: always
/// `true` when the two are equal, always `false` when the numerator is zero; otherwise
/// either outcome. The call panics unless `numerator <= denominator` and `denominator > 0`.
#[verifier::external_body]
pub(crate) fn gen_ratio(rng: &mut ThreadRng, numerator: u32, denominator: u32) -> (r: bool)
    requires
        numerator <= denominator,
        denominator > 0,
    ensures
        numerator == denominator ==> r,
        numerator == 0 ==> !r,
{
    rand::Rng::gen_ratio(rng, numerator, denominator)
}

/// `SliceRandom::shuffle` on the vector's elements: afterwards the vector holds the
/// same elements, each as often as before, in an order the generator picked.
#[verifier::external_body]
pub(crate) fn shuffle<T>(v: &mut Vec<T>, rng: &mut ThreadRng)
    ensures
        final(v)@.to_multiset() == old(v)@.to_multiset(),
{
    rand::seq::SliceRandom::shuffle(v.as_mut_slice(), rng)
}

/// `Rng::gen_range` on `lo..=hi` for `u32`: a number in that range. Which one is not
/// stated. The call panics on an empty range, so `lo <= hi` is required.
#[verifier::external_body]
pub(crate) fn gen_range_u32_inclusive(rng: &mut ThreadRng, lo: u32, hi: u32) -> (r: u32)
    requires
        lo <= hi,
    ensures
        lo <= r <= hi,
{
    rand::Rng::gen_range(rng, lo..=hi)
}

/// `Rng::gen_range` on `lo..hi` for `i32`: a number in that range. Which one is not
/// stated. The call panics on an empty range, so `lo < hi` is required.
#[verifier::external_body]
pub(crate) fn gen_range_i32(rng: &mut ThreadRng, lo: i32, hi: i32) -> (r: i32)
    requires
        lo < hi,
    ensures
        lo <= r < hi,
{
    rand::Rng::gen_range(rng, lo..hi)
}

/// `Rng::gen_range` on `lo..hi` for `u32`: a number in that range. Which one is not
/// stated. The call panics on an empty range, so `lo < hi` is required.
#[verifier::external_body]
pub(crate) fn gen_range_u32(rng: &mut ThreadRng, lo: u32, hi: u32) -> (r: u32)
    requires
        lo < hi,
    ensures
        lo <= r < hi,
{
    rand::Rng::gen_range(rng, lo..hi)
}

} // verus!
