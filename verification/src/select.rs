//! Stochastic universal sampling: the shared cyclic pointer walk, and
//! the free-standing selector built on it.

use vstd::prelude::*;
use crate::phenotype::Phenotype;
use crate::{FitnessType, Param, SimError};

verus! {

/// The k-th index of the stochastic universal sampling walk over a
/// population of `len` individuals selecting `count` parents: the walk
/// begins at `start` and advances by `len / count - 1` positions,
/// cyclically, at each step.
pub open spec fn sus_index(len: int, count: int, start: int, k: nat) -> int
    decreases k,
{
    if k == 0 {
        start
    } else {
        (sus_index(len, count, start, (k - 1) as nat) + len / count - 1) % len
    }
}

/// `ps` is exactly the selection that the stochastic universal
/// sampling walk beginning at `start` produces: `⌈count/2⌉` pairs, the
/// k-th pairing the k-th and (k+1)-th individuals on the walk.
pub open spec fn sus_walk_pairs<T>(pop: Seq<T>, count: int, start: int, ps: Seq<(T, T)>) -> bool {
    &&& ps.len() == (count + 1) / 2
    &&& forall|k: int|
        0 <= k < ps.len() ==> #[trigger] ps[k] == (
            pop[sus_index(pop.len() as int, count, start, k as nat)],
            pop[sus_index(pop.len() as int, count, start, (k + 1) as nat)],
        )
}

/// `ps` is the selection some stochastic universal sampling walk over
/// the population produces: the walk's start is the one datum left
/// open, drawn at random.
pub open spec fn sus_selection<T>(pop: Seq<T>, count: int, ps: Seq<(T, T)>) -> bool {
    exists|st: int| 0 <= st < pop.len() && #[trigger] sus_walk_pairs(pop, count, st, ps)
}

/// Every pair of the selection references individuals present in the
/// population.
pub open spec fn pairs_from<T>(pop: Seq<T>, ps: Seq<(T, T)>) -> bool {
    forall|k: int|
        0 <= k < ps.len() ==> pop.contains(#[trigger] ps[k].0) && pop.contains(ps[k].1)
}

/// Step a cyclic index forward: `(i + step) % len`, computed without
/// overflow.
pub fn advance_index(i: usize, step: usize, len: usize) -> (r: usize)
    requires
        len > 0,
        i < len,
        step < len,
    ensures
        r < len,
        r as int == (i + step) % (len as int),
{
    proof {
        if i + step >= len {
            vstd::arithmetic::div_mod::lemma_mod_sub_multiples_vanish(
                (i + step) as int,
                len as int,
            );
            vstd::arithmetic::div_mod::lemma_small_mod((i + step - len) as nat, len as nat);
        } else {
            vstd::arithmetic::div_mod::lemma_small_mod((i + step) as nat, len as nat);
        }
    }
    if step >= len - i {
        step - (len - i)
    } else {
        i + step
    }
}

/// The one implementation of stochastic universal sampling: starting at
/// `start`, walk the population cyclically with stride `len / count - 1`
/// and pair each visited individual with the next one on the walk, until
/// `count` parents have been selected (one more when `count` is odd).
pub fn stochastic_pairs<T: Phenotype>(population: &Vec<T>, count: usize, start: usize) -> (r: Vec<
    (T, T),
>)
    requires
        0 < count < population@.len(),
        start < population@.len(),
    ensures
        r@.len() == (count + 1) as int / 2,
        pairs_from(population@, r@),
        sus_walk_pairs(population@, count as int, start as int, r@),
{
    let len = population.len();
    let ratio = len / count;
    proof {
        vstd::arithmetic::div_mod::lemma_div_is_ordered(count as int, len as int, count as int);
        vstd::arithmetic::div_mod::lemma_div_by_self(count as int);
        vstd::arithmetic::div_mod::lemma_div_is_ordered(len as int, len as int, count as int);
        vstd::arithmetic::div_mod::lemma_div_by_self(len as int);
    }
    let mut result: Vec<(T, T)> = Vec::new();
    let mut i = start;
    let mut selected: usize = 0;
    while selected < count
        invariant
            0 < count < population@.len(),
            ratio == population@.len() as int / count as int,
            1 <= ratio <= population@.len(),
            i < population@.len(),
            selected == 2 * result@.len(),
            selected <= count + 1,
            i as int == sus_index(
                population@.len() as int,
                count as int,
                start as int,
                result@.len() as nat,
            ),
            pairs_from(population@, result@),
            forall|k: int|
                0 <= k < result@.len() ==> #[trigger] result@[k] == (
                    population@[sus_index(
                        population@.len() as int,
                        count as int,
                        start as int,
                        k as nat,
                    )],
                    population@[sus_index(
                        population@.len() as int,
                        count as int,
                        start as int,
                        (k + 1) as nat,
                    )],
                ),
        decreases count + 1 - selected,
    {
        let j = advance_index(i, ratio - 1, population.len());
        let pair = (population[i].duplicate(), population[j].duplicate());
        proof {
            assert(population@.contains(population@[i as int]));
            assert(population@.contains(population@[j as int]));
            assert(sus_index(
                population@.len() as int,
                count as int,
                start as int,
                (result@.len() + 1) as nat,
            ) == (i as int + ratio - 1) % (population@.len() as int));
        }
        result.push(pair);
        i = j;
        selected = selected + 2;
    }
    result
}

/// A free-standing selector using stochastic universal sampling. In
/// total, `count` parents are selected.
pub struct StochasticSelector {
    count: usize,
}

impl StochasticSelector {
    /// The `count` this selector was created with.
    pub closed spec fn count_spec(&self) -> usize {
        self.count
    }

    /// Select parents using stochastic universal sampling. The fitness
    /// direction plays no role in this strategy.
    pub fn select<T: Phenotype>(&self, population: &Vec<T>, _ftype: FitnessType) -> (r: Result<
        Vec<(T, T)>,
        SimError,
    >)
        ensures
            r is Err <==> (self.count_spec() == 0 || self.count_spec()
                >= population@.len()),
            r matches Err(e) ==> e == (SimError::InvalidParameter {
                param: Param::Count,
                value: self.count_spec() as u64,
                min: 1,
                max_exclusive: population@.len() as u64,
            }),
            r matches Ok(ps) ==> ps@.len() == (self.count_spec() + 1) as int / 2
                && pairs_from(population@, ps@),
            r matches Ok(ps) ==> sus_selection(population@, self.count_spec() as int, ps@),
    {
        if self.count == 0 || self.count >= population.len() {
            return Err(SimError::InvalidParameter {
                param: Param::Count,
                value: self.count as u64,
                min: 1,
                max_exclusive: population.len() as u64,
            });
        }
        let start = crate::rng::random_index(population.len());
        let ps = stochastic_pairs(population, self.count, start);
        proof {
            assert(sus_selection(population@, self.count_spec() as int, ps@)) by {
                assert(sus_walk_pairs(population@, self.count_spec() as int, start as int, ps@));
            }
        }
        Ok(ps)
    }
}

/// Create and return a stochastic selector.
///
/// Such a selector selects elements using stochastic universal
/// sampling, yielding parents with low, medium and high fitness values.
/// In total, `count` parents are selected.
pub fn stochastic_selector(count: usize) -> (r: StochasticSelector)
    ensures
        r.count_spec() == count,
{
    StochasticSelector { count }
}

} // verus!
