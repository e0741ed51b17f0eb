//! Random draws: numbers by the `rand` crate with the generator of the
//! current thread, names by `fake`, identifiers by `uuid`.

use fake::faker::name::en::Name;
use fake::Fake;
use rand::seq::SliceRandom;
use rand::Rng;
use vstd::prelude::*;

verus! {

/// `Rng::gen_range` of `rand` over `0..bound`, on `rand::thread_rng()`: a
/// number of the half-open range. `gen_range` panics on an empty range, which
/// the precondition leaves out.
#[verifier::external_body]
pub(crate) fn random_below(bound: usize) -> (drawn: usize)
    requires
        bound > 0,
    ensures
        drawn < bound,
{
    rand::thread_rng().gen_range(0..bound)
}

/// `SliceRandom::choose` of `rand`, on `rand::thread_rng()`: one element of
/// the slice, handed back by value. `choose` has no element to give for an
/// empty slice, which the precondition leaves out.
#[verifier::external_body]
pub(crate) fn choose_position(positions: &Vec<usize>) -> (chosen: usize)
    requires
        positions@.len() > 0,
    ensures
        positions@.contains(chosen),
{
    positions.choose(&mut rand::thread_rng()).copied().unwrap_or_default()
}

/// `Rng::gen_ratio` of `rand`, on `rand::thread_rng()`: true with the
/// probability of `numerator` in `denominator`; always true where the two
/// are equal and never where `numerator` is zero. `gen_ratio` panics on a
/// zero denominator and on a numerator above the denominator, which the
/// precondition leaves out.
#[verifier::external_body]
pub(crate) fn draw(numerator: u32, denominator: u32) -> (drawn: bool)
    requires
        denominator > 0,
        numerator <= denominator,
    ensures
        numerator == denominator ==> drawn,
        numerator == 0 ==> !drawn,
{
    rand::thread_rng().gen_ratio(numerator, denominator)
}

/// `Name().fake()` of `fake`: the made-up name of a person, in English.
/// Nothing is known of the name.
#[verifier::external_body]
pub(crate) fn random_name() -> String {
    Name().fake()
}

/// `Uuid::new_v4()` of `uuid`, written out by its `to_string`: a random
/// identifier. Nothing is known of the text.
#[verifier::external_body]
pub(crate) fn random_uuid() -> String {
    uuid::Uuid::new_v4().to_string()
}

} // verus!
