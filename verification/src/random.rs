//! The random draws of the simulation.

use vstd::prelude::*;
use rand::distributions::{IndependentSample, Weighted, WeightedChoice};
use rand::{Rng, ThreadRng};

verus! {

/// `rand`'s handle on the thread-local generator.
#[verifier::external_type_specification]
#[verifier::external_body]
pub struct ExThreadRng(rand::ThreadRng);

/// `rand`'s pairing of an item with its weight: a plain record, whose
/// two fields are read as they are.
#[verifier::external_type_specification]
#[verifier::reject_recursive_types(T)]
pub struct ExWeighted<T>(rand::distributions::Weighted<T>);

/// `rand`'s chooser among weighted items.
#[verifier::external_type_specification]
#[verifier::external_body]
#[verifier::reject_recursive_types(T)]
pub struct ExWeightedChoice<'a, T: 'a>(rand::distributions::WeightedChoice<'a, T>);

/// The entries that a chooser was made with: the weight and the item of
/// each, in order.
pub uninterp spec fn choice_entries(choice: WeightedChoice<'static, usize>) -> Seq<(u32, usize)>;

/// The weight and the item of each of `items`, in order.
pub open spec fn entries(items: Seq<Weighted<usize>>) -> Seq<(u32, usize)> {
    Seq::new(items.len(), |i: int| (items[i].weight, items[i].item))
}

/// The sum of the weights of `entries`.
pub open spec fn weight_total(entries: Seq<(u32, usize)>) -> int
    decreases entries.len(),
{
    if entries.len() == 0 {
        0
    } else {
        weight_total(entries.drop_last()) + entries.last().0
    }
}

/// Whether `item` is the item of one of `entries` whose weight is above
/// zero.
pub open spec fn drawn_from(entries: Seq<(u32, usize)>, item: usize) -> bool {
    exists|k: int| 0 <= k < entries.len() && (#[trigger] entries[k]).1 == item && entries[k].0 > 0
}

/// `rand::thread_rng`: hands out the thread-local generator. Nothing is
/// claimed of it.
#[verifier::external_body]
pub(crate) fn thread_rng() -> (rng: ThreadRng) {
    rand::thread_rng()
}

/// `Rng::gen_range`: returns an integer of the half-open range from `low`
/// to `high`, and panics on an empty range.
#[verifier::external_body]
fn gen_range(rng: &mut ThreadRng, low: i32, high: i32) -> (r: i32)
    requires
        low < high,
    ensures
        low <= r < high,
{
    rng.gen_range(low, high)
}

/// `rand::random`, for a boolean. Nothing is claimed of the outcome.
#[verifier::external_body]
pub(crate) fn coin_flip() -> (heads: bool) {
    rand::random()
}

/// `WeightedChoice::new`: makes a chooser among `items`. It panics on an
/// empty list, on a total weight of zero and on a total beyond `u32`.
/// The chooser keeps the items and their weights; it stores the weights
/// as running totals in `items`, of which nothing is claimed.
#[verifier::external_body]
pub(crate) fn weighted_choice(items: &mut Vec<Weighted<usize>>) -> (choice: WeightedChoice<usize>)
    requires
        old(items)@.len() > 0,
        0 < weight_total(entries(old(items)@)) <= u32::MAX,
    ensures
        choice_entries(choice) == entries(old(items)@),
{
    WeightedChoice::new(items)
}

/// `WeightedChoice::ind_sample`: draws one of the chooser's items. It
/// draws a number below the total weight and returns the first item whose
/// running total exceeds it, which is an item whose own weight is above
/// zero.
#[verifier::external_body]
pub(crate) fn sample(choice: &WeightedChoice<usize>, rng: &mut ThreadRng) -> (item: usize)
    ensures
        drawn_from(choice_entries(*choice), item),
{
    choice.ind_sample(rng)
}

/// A random integer between `min` and `max`, both included.
pub fn range(min: i32, max: i32) -> (r: i32)
    requires
        min <= max < i32::MAX,
    ensures
        min <= r <= max,
{
    let mut rng = thread_rng();
    gen_range(&mut rng, min, max + 1)
}

/// Adding an entry adds its weight to the total.
pub proof fn lemma_weight_total_push(entries: Seq<(u32, usize)>, entry: (u32, usize))
    ensures
        weight_total(entries.push(entry)) == weight_total(entries) + entry.0,
{
    assert(entries.push(entry).drop_last() =~= entries);
}

} // verus!
