use rand::Rng;
use rand::rngs::StdRng;
use rand::seq::SliceRandom;
use vstd::prelude::*;

verus! {

#[verifier::external_type_specification]
#[verifier::external_body]
pub struct ExStdRng(rand::rngs::StdRng);

/// Draws an integer with `Rng::gen_range` on the half-open range
/// `low..high`. The range must not be empty, since `gen_range` panics on an
/// empty one; the value drawn lies in the range. Nothing else is known of it.
#[verifier::external_body]
pub(crate) fn gen_range(rng: &mut StdRng, low: i32, high: i32) -> (value: i32)
    requires
        low < high,
    ensures
        low <= value < high,
{
    rng.gen_range(low..high)
}

/// Draws a boolean with `Rng::gen`. Nothing is known of the value drawn.
#[verifier::external_body]
pub(crate) fn gen_flag(rng: &mut StdRng) -> (flag: bool) {
    rng.gen()
}

/// Picks an entry of `places` with `SliceRandom::choose`: `None` where there
/// is no entry, else one of the entries. Nothing else is known of the pick.
#[verifier::external_body]
pub(crate) fn pick_one(places: &Vec<usize>, rng: &mut StdRng) -> (picked: Option<usize>)
    ensures
        picked is Some <==> places.len() > 0,
        picked matches Some(place) ==> places@.contains(place),
{
    places.choose(rng).copied()
}

} // verus!
