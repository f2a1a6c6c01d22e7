//! The library's only contact with the random number generator.
//!
//! Every call into `rand` stands here, behind a contract that states only
//! what holds of every outcome of a draw.

use vstd::prelude::*;

verus! {

#[verifier::external_type_specification]
#[verifier::external_body]
pub struct ExThreadRng(rand::rngs::ThreadRng);

/// Relies on rand's `Rng::gen_ratio`: one Bernoulli draw with probability
/// `numerator / denominator`, which is certainly `false` when the
/// numerator is zero and certainly `true` when it equals the denominator.
/// It panics when the denominator is zero or smaller than the numerator,
/// so those inputs are excluded here.
#[verifier::external_body]
pub(crate) fn random_ratio(
    rng: &mut rand::rngs::ThreadRng,
    numerator: u32,
    denominator: u32,
) -> (r: bool)
    requires
        0 < denominator,
        numerator <= denominator,
    ensures
        numerator == 0 ==> r == false,
        numerator == denominator ==> r == true,
{
    rand::Rng::gen_ratio(rng, numerator, denominator)
}

/// Relies on rand's `SliceRandom::choose_multiple`: it draws
/// `min(amount, cells.len())` elements of the slice at pairwise distinct
/// indices, so on a slice without duplicates the drawn values are some
/// duplicate-free selection of its elements.
#[verifier::external_body]
pub(crate) fn choose_cells(
    cells: &Vec<(usize, usize)>,
    rng: &mut rand::rngs::ThreadRng,
    amount: usize,
) -> (r: Vec<(usize, usize)>)
    requires
        cells@.no_duplicates(),
    ensures
        r@.len() == vstd::math::min(amount as int, cells@.len() as int),
        r@.no_duplicates(),
        forall|i: int| 0 <= i < r@.len() ==> cells@.contains(#[trigger] r@[i]),
{
    rand::seq::SliceRandom::choose_multiple(cells.as_slice(), rng, amount).cloned().collect()
}

} // verus!
