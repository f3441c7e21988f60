//! The random source and the weighted card sampler.
//!
//! Everything here that draws a random value is a thin call into the `rand`
//! crate whose contract is taken on trust; the rest of the library is
//! verified against those contracts.

use vstd::prelude::*;
use rand::rngs::ThreadRng;
use rand::distributions::WeightedIndex;
use rand::distributions::Distribution;
use rand::distributions::Alphanumeric;
use rand::Rng;

verus! {

/// `rand::rngs::ThreadRng`, the thread-local generator; opaque here.
#[verifier::external_type_specification]
#[verifier::external_body]
pub struct ExThreadRng(ThreadRng);

/// A `rand::distributions::WeightedIndex<u32>`: a sampler over a table of
/// unsigned weights. Verus sees nothing inside it.
#[verifier::external_body]
pub struct CardSampler {
    inner: WeightedIndex<u32>,
}

/// The weight table a sampler was built from.
pub uninterp spec fn sampler_weights(dist: CardSampler) -> Seq<u32>;

/// Sum of a weight table.
pub open spec fn weight_total(weights: Seq<u32>) -> nat
    decreases weights.len(),
{
    if weights.len() == 0 {
        0
    } else {
        weight_total(weights.drop_last()) + weights.last() as nat
    }
}

/// `rand::thread_rng`: a handle to the calling thread's generator.
#[verifier::external_body]
pub(crate) fn thread_rng() -> (rng: ThreadRng)
{
    rand::thread_rng()
}

/// `Rng::gen` at `u32`: any 32-bit value may come back.
#[verifier::external_body]
pub(crate) fn draw_u32(rng: &mut ThreadRng) -> (word: u32)
{
    rng.gen()
}

/// `Rng::gen_range` at `u32`: the value lies in `low..high`. The call panics
/// on an empty range, which the precondition rules out.
#[verifier::external_body]
pub(crate) fn draw_below(rng: &mut ThreadRng, low: u32, high: u32) -> (value: u32)
    requires
        low < high,
    ensures
        low <= value < high,
{
    rng.gen_range(low, high)
}

/// Whether a character is one of the 62 that `Alphanumeric` draws from.
pub open spec fn is_alphanumeric(c: char) -> bool {
    ('0' <= c && c <= '9') || ('A' <= c && c <= 'Z') || ('a' <= c && c <= 'z')
}

/// Whether a string could have come out of `draw_key`.
pub open spec fn is_key(key: Seq<char>) -> bool {
    &&& key.len() == 10
    &&& forall|i: int| 0 <= i < key.len() ==> is_alphanumeric(#[trigger] key[i])
}

/// `Rng::sample_iter` over `Alphanumeric`, cut after ten items and collected:
/// ten characters, each a digit or an ASCII letter.
#[verifier::external_body]
pub(crate) fn draw_key(rng: &mut ThreadRng) -> (key: String)
    ensures
        is_key(key@),
{
    rng.sample_iter(&Alphanumeric).take(10).collect::<String>()
}

/// `WeightedIndex::new` over unsigned weights: it fails exactly on an empty
/// table and on one whose weights are all zero, and otherwise samples from
/// the table handed in. The running sum is kept in a `u32`, so the total has
/// to fit.
#[verifier::external_body]
pub(crate) fn build_sampler(weights: &Vec<u32>) -> (res: Option<CardSampler>)
    requires
        weight_total(weights@) <= u32::MAX,
    ensures
        res.is_some() == (weights@.len() > 0 && weight_total(weights@) > 0),
        res matches Some(dist) ==> sampler_weights(dist) == weights@,
{
    match WeightedIndex::new(weights) {
        Ok(inner) => Some(CardSampler { inner }),
        Err(_) => None,
    }
}

/// `WeightedIndex::sample`: the index drawn is one of the table and its
/// weight is not zero.
#[verifier::external_body]
pub(crate) fn sample_index(dist: &CardSampler, rng: &mut ThreadRng) -> (index: usize)
    ensures
        index < sampler_weights(*dist).len(),
        sampler_weights(*dist)[index as int] > 0,
{
    dist.inner.sample(rng)
}

/// The total of a table is at most its length times a bound on its
/// weights.
pub proof fn lemma_total_bound(weights: Seq<u32>, cap: nat)
    requires
        forall|i: int| 0 <= i < weights.len() ==> #[trigger] weights[i] <= cap,
    ensures
        weight_total(weights) <= weights.len() * cap,
    decreases weights.len(),
{
    if weights.len() > 0 {
        lemma_total_bound(weights.drop_last(), cap);
        assert((weights.len() - 1) * cap + cap == weights.len() * cap) by (nonlinear_arith);
    } else {
        assert(0 * cap == 0) by (nonlinear_arith);
    }
}

/// The total of a table is at least each of its weights.
pub proof fn lemma_total_covers(weights: Seq<u32>, i: int)
    requires
        0 <= i < weights.len(),
    ensures
        weight_total(weights) >= weights[i],
    decreases weights.len(),
{
    if i < weights.len() - 1 {
        lemma_total_covers(weights.drop_last(), i);
    }
}

/// The total of the first weights of a table plus the next one is the
/// total of one weight more.
pub proof fn lemma_total_step(weights: Seq<u32>, i: int)
    requires
        0 <= i < weights.len(),
    ensures
        weight_total(weights.take(i + 1)) == weight_total(weights.take(i)) + weights[i],
{
    assert(weights.take(i + 1).drop_last() =~= weights.take(i));
}

/// The total of the first weights of a table is at most the total of all.
pub proof fn lemma_total_grows(weights: Seq<u32>, i: int)
    requires
        0 <= i <= weights.len(),
    ensures
        weight_total(weights.take(i)) <= weight_total(weights),
    decreases weights.len() - i,
{
    if i < weights.len() {
        lemma_total_step(weights, i);
        lemma_total_grows(weights, i + 1);
    } else {
        assert(weights.take(i) =~= weights);
    }
}

/// The total of a table, or nothing where it does not fit 32 bits.
pub fn total_weight(weights: &Vec<u32>) -> (total: Option<u32>)
    ensures
        match total {
            Some(sum) => sum == weight_total(weights@),
            None => weight_total(weights@) > u32::MAX,
        },
{
    let mut sum: u32 = 0;
    let mut i: usize = 0;
    while i < weights.len()
        invariant
            i <= weights.len(),
            sum == weight_total(weights@.take(i as int)),
        decreases weights.len() - i,
    {
        proof {
            lemma_total_step(weights@, i as int);
            lemma_total_grows(weights@, i + 1);
        }
        if weights[i] > u32::MAX - sum {
            return None;
        }
        sum = sum + weights[i];
        i += 1;
    }
    proof {
        assert(weights@.take(weights.len() as int) =~= weights@);
    }
    Some(sum)
}

} // verus!
