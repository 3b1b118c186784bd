//! The random numbers that the game draws. Nothing is known of a number
//! that is drawn but the range that it lies in.
use crate::engine::Direction;
use rand::{Rng, SeedableRng, StdRng};
use vstd::prelude::*;

verus! {

/// `rand::StdRng`, the generator that the game draws its random numbers
/// from. Nothing is seen of what is inside it.
#[verifier::external_type_specification]
#[verifier::external_body]
pub struct ExStdRng(rand::StdRng);

/// `StdRng::from_seed` with the one-word seed `seed`: a generator whose
/// numbers are fixed by the seed. Nothing is stated of it.
#[verifier::external_body]
pub(crate) fn seeded(seed: u64) -> StdRng {
    StdRng::from_seed(&[seed as usize])
}

/// `Rng::gen_range` on `i32`: some number from `low` up to, but not
/// including, `high`. The outside function panics where `low >= high`.
#[verifier::external_body]
pub(crate) fn gen_range(rng: &mut StdRng, low: i32, high: i32) -> (r: i32)
    requires
        low < high,
    ensures
        low <= r < high,
{
    rng.gen_range(low, high)
}

/// `Rng::gen_range` on `usize`: some number from `low` up to, but not
/// including, `high`. The outside function panics where `low >= high`.
#[verifier::external_body]
pub(crate) fn gen_index(rng: &mut StdRng, low: usize, high: usize) -> (r: usize)
    requires
        low < high,
    ensures
        low <= r < high,
{
    rng.gen_range(low, high)
}

/// `Rng::choose` on a list of directions: one of them, or `None` where the
/// list is empty.
#[verifier::external_body]
pub(crate) fn choose_direction(rng: &mut StdRng, values: &[Direction]) -> (r: Option<Direction>)
    ensures
        r is None <==> values@.len() == 0,
        r matches Some(d) ==> values@.contains(d),
{
    rng.choose(values).copied()
}

} // verus!
