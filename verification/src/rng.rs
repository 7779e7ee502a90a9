//! The random draws of the simulation, taken from the thread-local generator
//! of the `rand` crate. Nothing here is proved: each contract states what the
//! crate's documentation promises of every outcome.

use rand::seq::SliceRandom;
use rand::Rng;
use vstd::prelude::*;

verus! {

/// `rand::Rng::gen_range` on `rand::thread_rng()`, for a half-open range of
/// `i32`. Trusted: the value drawn lies in `low..high`. The outside function
/// panics on an empty range, which `requires` leaves out.
#[verifier::external_body]
pub(crate) fn gen_range(low: i32, high: i32) -> (value: i32)
    requires
        low < high,
    ensures
        low <= value < high,
{
    rand::thread_rng().gen_range(low..high)
}

/// `rand::Rng::gen_ratio` on `rand::thread_rng()`: `true` with a chance of
/// `numerator` in `denominator`. Trusted: a chance of one always gives `true`
/// and a chance of zero always `false`; nothing else holds of every outcome.
/// The outside function panics when `denominator` is zero or less than
/// `numerator`, which `requires` leaves out.
#[verifier::external_body]
pub(crate) fn gen_ratio(numerator: u32, denominator: u32) -> (hit: bool)
    requires
        denominator != 0,
        numerator <= denominator,
    ensures
        numerator == denominator ==> hit,
        numerator == 0 ==> !hit,
{
    rand::thread_rng().gen_ratio(numerator, denominator)
}

/// `rand::seq::SliceRandom::choose` on `rand::thread_rng()`: one element of
/// the slice, or `None` when the slice is empty. Trusted: what comes back is
/// an element of `items`, and `None` comes back only for no items.
#[verifier::external_body]
pub(crate) fn choose_one<'a>(items: &'a Vec<String>) -> (picked: Option<&'a String>)
    ensures
        picked is None <==> items@.len() == 0,
        picked matches Some(item) ==> items@.contains(*item),
{
    items.choose(&mut rand::thread_rng())
}

} // verus!
