//! A sequential genetic-algorithm engine: it owns a population and a
//! configuration, runs the generation loop, and reports the best
//! individual, the iteration count, and the elapsed duration.

use vstd::prelude::*;
use crate::phenotype::Phenotype;
use crate::select::{pairs_from, stochastic_pairs, sus_selection, sus_walk_pairs};
use crate::sort::{
    best_index, duplicate_vec, lemma_members_transfer, lemma_multiset_contains,
    lemma_sorted_extremes, sort_by_fitness_vec, sorted_by_fitness,
};
use crate::{FitnessType, NanoSecond, Param, SelectionType, SimError};

verus! {

/// The distance between two mathematical integers.
pub open spec fn abs_diff(a: int, b: int) -> int {
    if a >= b {
        a - b
    } else {
        b - a
    }
}

/// Whether a selection configuration is within bounds for a population
/// of `n` individuals.
pub open spec fn valid_selection(sel: SelectionType, n: int) -> bool {
    match sel {
        SelectionType::Maximize { count } => 0 < count && 2 * (count as int) < n,
        SelectionType::Tournament { num, count } => 0 < num && 2 * (num as int) < n && 2 <= count
            && (count as int) < n,
        SelectionType::Stochastic { count } => 0 < count && (count as int) < n,
        SelectionType::Roulette { count } => 0 < count && (count as int) < n,
    }
}

/// How many parent pairs a valid selection produces in one generation.
pub open spec fn pairs_of(sel: SelectionType) -> int {
    match sel {
        SelectionType::Maximize { count } => count as int,
        SelectionType::Tournament { num, count: _ } => num as int,
        SelectionType::Stochastic { count } => (count + 1) as int / 2,
        SelectionType::Roulette { count } => (count + 1) as int / 2,
    }
}

/// The iteration count an engine can reach: its current count when the
/// budget is already spent, its budget otherwise.
pub open spec fn iter_cap(n_iters: i32, max_iters: i32) -> int {
    if n_iters >= max_iters {
        n_iters as int
    } else {
        max_iters as int
    }
}

/// `x` is a member of the population, and no member beats it in the
/// given fitness direction.
pub open spec fn is_best<T: Phenotype>(x: T, pop: Seq<T>, ftype: FitnessType) -> bool {
    &&& pop.contains(x)
    &&& ftype == FitnessType::Maximize ==> forall|j: int|
        0 <= j < pop.len() ==> pop[j].fitness_spec() <= x.fitness_spec()
    &&& ftype == FitnessType::Minimize ==> forall|j: int|
        0 <= j < pop.len() ==> x.fitness_spec() <= pop[j].fitness_spec()
}

/// Within a selected pair, the first parent is at least as good as
/// the second in the given fitness direction.
pub open spec fn pair_ordered<T: Phenotype>(p: (T, T), ftype: FitnessType) -> bool {
    match ftype {
        FitnessType::Maximize => p.1.fitness_spec() <= p.0.fitness_spec(),
        FitnessType::Minimize => p.0.fitness_spec() <= p.1.fitness_spec(),
    }
}

/// The k-th pair taken consecutively from the best end of a
/// fitness-sorted sequence: walking down from the top when maximizing,
/// up from the bottom when minimizing.
pub open spec fn truncation_pair_at<T: Phenotype>(s: Seq<T>, k: int, ftype: FitnessType) -> (
    T,
    T,
) {
    match ftype {
        FitnessType::Maximize => (s[s.len() - 1 - 2 * k], s[s.len() - 2 - 2 * k]),
        FitnessType::Minimize => (s[2 * k], s[2 * k + 1]),
    }
}

/// `s` witnesses that `ps` is a truncation selection from `pop`: `s`
/// arranges exactly the population's individuals by ascending fitness,
/// and the k-th pair of `ps` holds the (2k)-th and (2k+1)-th best of
/// `s` in the given direction — the `2 * ps.len()` fittest, paired
/// consecutively.
pub open spec fn truncation_selection_from<T: Phenotype>(
    pop: Seq<T>,
    ps: Seq<(T, T)>,
    ftype: FitnessType,
    s: Seq<T>,
) -> bool {
    &&& s.len() == pop.len()
    &&& s.to_multiset() == pop.to_multiset()
    &&& sorted_by_fitness(s)
    &&& forall|k: int| 0 <= k < ps.len() ==> #[trigger] ps[k] == truncation_pair_at(s, k, ftype)
}

/// `ps` is a truncation selection from `pop`: some fitness-sorted
/// arrangement of the population yields it by consecutive pairing from
/// the best end.
pub open spec fn is_truncation_selection<T: Phenotype>(
    pop: Seq<T>,
    ps: Seq<(T, T)>,
    ftype: FitnessType,
) -> bool {
    exists|s: Seq<T>| truncation_selection_from(pop, ps, ftype, s)
}

/// `s` witnesses that `p` is a tournament pair over `pop` with sample
/// size `count`: a fitness-sorted arrangement of `count` individuals
/// drawn from the population, whose two extremes in the given
/// direction, better first, form the pair.
pub open spec fn tournament_pair_from<T: Phenotype>(
    pop: Seq<T>,
    p: (T, T),
    count: int,
    ftype: FitnessType,
    s: Seq<T>,
) -> bool {
    &&& s.len() == count
    &&& sorted_by_fitness(s)
    &&& forall|j: int| 0 <= j < s.len() ==> pop.contains(#[trigger] s[j])
    &&& p == truncation_pair_at(s, 0, ftype)
}

/// `p` is the outcome of one tournament round: the two fitness-extreme
/// members of some sample of `count` individuals drawn from the
/// population.
pub open spec fn is_tournament_pair<T: Phenotype>(
    pop: Seq<T>,
    p: (T, T),
    count: int,
    ftype: FitnessType,
) -> bool {
    exists|s: Seq<T>| tournament_pair_from(pop, p, count, ftype, s)
}

/// The resolution of the roulette wheel's acceptance draw: a uniform
/// draw below this stands in for a uniform fraction of one.
pub const ACCEPT_DENOM: usize = 1_000_000;

/// How many times the roulette wheel is spun, at most, while filling
/// one pair. A spin that lands on an individual of extremal fitness is
/// always accepted, so running out of spins is vanishingly unlikely;
/// if it happens, the pair is filled with an extremal-fitness
/// individual, which every spin accepts.
pub const MAX_SPINS: usize = 100_000;

/// The roulette wheel accepts an individual of fitness `fit` when the
/// uniform draw `u`, read as the fraction `u / ACCEPT_DENOM`, does not
/// exceed the individual's share of the wheel. `best` is the extremal
/// fitness present in the population, in the configured direction.
///
/// Maximizing, the share is `fit / best`: with a positive best fitness
/// an individual is accepted with probability proportional to its
/// share of it, when every fitness is negative the share is at least
/// one and everything is accepted, and when the best fitness is zero
/// only individuals at zero are accepted. Minimizing, the raw share
/// would still favor numerically large (worse) fitness and starve the
/// population of its best members, so the share is inverted to
/// `best / fit`: the minimal individual fills the wheel, and the rest
/// shrink with their fitness; a negative minimum accepts everything.
/// Either way, an individual of extremal fitness is accepted by every
/// draw.
pub open spec fn roulette_accepts(u: int, fit: int, best: int, ftype: FitnessType) -> bool {
    match ftype {
        FitnessType::Maximize => {
            if best > 0 {
                u * best <= fit * (ACCEPT_DENOM as int)
            } else if best < 0 {
                u * best >= fit * (ACCEPT_DENOM as int)
            } else {
                fit == 0
            }
        },
        FitnessType::Minimize => {
            if best >= 0 {
                u * fit <= best * (ACCEPT_DENOM as int)
            } else {
                true
            }
        },
    }
}

/// Decide acceptance of one roulette draw.
pub fn roulette_accept(u: usize, fit: i64, best: i64, ftype: FitnessType) -> (r: bool)
    requires
        u < ACCEPT_DENOM,
    ensures
        r == roulette_accepts(u as int, fit as int, best as int, ftype),
{
    proof {
        assert((u as i128) * (best as i128) <= i128::MAX && (u as i128) * (best as i128)
            >= i128::MIN && (u as i128) * (fit as i128) <= i128::MAX && (u as i128) * (fit as i128)
            >= i128::MIN && (fit as i128) * (ACCEPT_DENOM as i128) <= i128::MAX && (fit as i128) * (
        ACCEPT_DENOM as i128) >= i128::MIN && (best as i128) * (ACCEPT_DENOM as i128) <= i128::MAX
            && (best as i128) * (ACCEPT_DENOM as i128) >= i128::MIN) by (nonlinear_arith)
            requires
                u < ACCEPT_DENOM,
                ACCEPT_DENOM == 1_000_000,
                i64::MIN <= fit <= i64::MAX,
                i64::MIN <= best <= i64::MAX,
        ;
    }
    match ftype {
        FitnessType::Maximize => {
            if best > 0 {
                (u as i128) * (best as i128) <= (fit as i128) * (ACCEPT_DENOM as i128)
            } else if best < 0 {
                (u as i128) * (best as i128) >= (fit as i128) * (ACCEPT_DENOM as i128)
            } else {
                fit == 0
            }
        },
        FitnessType::Minimize => {
            if best >= 0 {
                (u as i128) * (fit as i128) <= (best as i128) * (ACCEPT_DENOM as i128)
            } else {
                true
            }
        },
    }
}

/// `f` lists, strictly increasing, the positions in `b` that the
/// elements of `a` occupy: `a` is the subsequence of `b` along `f`.
pub open spec fn subsequence_along<T>(a: Seq<T>, b: Seq<T>, f: Seq<int>) -> bool {
    &&& f.len() == a.len()
    &&& forall|k: int| 0 <= k < f.len() ==> 0 <= #[trigger] f[k] < b.len() && a[k] == b[f[k]]
    &&& forall|k: int| 0 <= k < f.len() - 1 ==> #[trigger] f[k] < f[k + 1]
}

/// `a` keeps, in their old order, some of the elements of `b`, and
/// holds nothing else.
pub open spec fn is_subsequence_of<T>(a: Seq<T>, b: Seq<T>) -> bool {
    exists|f: Seq<int>| subsequence_along(a, b, f)
}

/// Used for early stopping: tracks how many consecutive generations the
/// best fitness has moved by less than a threshold.
pub struct EarlyStopper {
    /// Minimum fitness change that counts as progress.
    pub delta: u64,
    /// Previously recorded fitness value.
    pub previous: i64,
    /// Number of stagnant iterations after which to stop.
    pub max_iters: u32,
    /// Current number of consecutive stagnant iterations.
    pub n_iters: u32,
}

impl EarlyStopper {
    /// Create a new `EarlyStopper`.
    pub fn new(delta: u64, n_iters: u32) -> (r: EarlyStopper)
        ensures
            r == (EarlyStopper { delta, previous: 0, max_iters: n_iters, n_iters: 0 }),
    {
        EarlyStopper { delta, previous: 0, max_iters: n_iters, n_iters: 0 }
    }

    /// The new fitness value is within `delta` of the previous one.
    pub open spec fn stagnated(&self, fitness: i64) -> bool {
        abs_diff(fitness as int, self.previous as int) < self.delta as int
    }

    /// Update the `EarlyStopper` with a new fitness value.
    ///
    /// Returns whether or not the `Simulator` should stop.
    pub fn update(&mut self, fitness: i64) -> (r: bool)
        requires
            old(self).n_iters < u32::MAX,
        ensures
            final(self).delta == old(self).delta,
            final(self).max_iters == old(self).max_iters,
            final(self).previous == fitness,
            final(self).n_iters == if old(self).stagnated(fitness) {
                old(self).n_iters + 1
            } else {
                0
            },
            r == (final(self).n_iters >= final(self).max_iters),
    {
        let d: i128 = fitness as i128 - self.previous as i128;
        let ad: i128 = if d < 0 {
            -d
        } else {
            d
        };
        if ad < self.delta as i128 {
            self.n_iters = self.n_iters + 1;
        } else {
            self.n_iters = 0;
        }
        self.previous = fitness;
        self.n_iters >= self.max_iters
    }
}

/// A `Simulator` can run genetic algorithm simulations in a single
/// thread.
///
/// The fields are exposed so that contracts can speak of them; a
/// simulator is meant to be created through `Simulator::builder` and
/// driven only through its methods.
pub struct Simulator<T: Phenotype> {
    pub population: Vec<T>,
    pub max_iters: i32,
    pub n_iters: i32,
    pub selection_type: SelectionType,
    pub fitness_type: FitnessType,
    pub earlystop: bool,
    pub earlystopper: EarlyStopper,
    pub duration: Option<NanoSecond>,
}

impl<T: Phenotype> Simulator<T> {
    /// A simulator's structural invariant: the population is never
    /// empty, the iteration count never negative, and the stagnation
    /// count never ahead of the iteration count.
    pub open spec fn wf(&self) -> bool {
        &&& self.population@.len() >= 1
        &&& self.n_iters >= 0
        &&& self.earlystopper.n_iters as int <= self.n_iters as int
    }

    /// Create builder.
    pub fn builder(pop: Vec<T>) -> (r: SimulatorBuilder<T>)
        requires
            pop@.len() >= 1,
        ensures
            r.sim.wf(),
            r.sim.population@ == pop@,
            r.sim.max_iters == 100,
            r.sim.n_iters == 0,
            r.sim.selection_type == (SelectionType::Maximize { count: 5u32 }),
            r.sim.fitness_type == FitnessType::Maximize,
            r.sim.earlystop == false,
            r.sim.duration is None,
    {
        SimulatorBuilder {
            sim: Simulator {
                population: pop,
                max_iters: 100,
                n_iters: 0,
                selection_type: SelectionType::Maximize { count: 5 },
                fitness_type: FitnessType::Maximize,
                earlystop: false,
                earlystopper: EarlyStopper::new(0, 0),
                duration: None,
            },
        }
    }

    /// Get the best performing organism.
    pub fn get(&self) -> (r: T)
        requires
            self.population@.len() >= 1,
        ensures
            is_best(r, self.population@, self.fitness_type),
    {
        let i = best_index(&self.population, self.fitness_type);
        proof {
            assert(self.population@.contains(self.population@[i as int]));
        }
        self.population[i].duplicate()
    }

    /// The number of generations completed so far: zero immediately
    /// after construction.
    pub fn iterations(&self) -> (r: i32)
        ensures
            r == self.n_iters,
    {
        self.n_iters
    }

    /// The duration of the last completed run, in nanoseconds, or
    /// `None` when no run has completed: the result is unavailable.
    pub fn time(&self) -> (r: Option<NanoSecond>)
        ensures
            r == self.duration,
    {
        self.duration
    }

    /// Select `count` pairs of parents by truncation: the best `2 * count`
    /// individuals in the configured fitness direction, paired off in
    /// sorted order.
    pub fn selection_maximize(&self, count: u32) -> (r: Result<Vec<(T, T)>, SimError>)
        ensures
            r is Err <==> (count == 0 || 2 * (count as int) >= self.population@.len()),
            r matches Err(e) ==> e == (SimError::InvalidParameter {
                param: Param::Count,
                value: count as u64,
                min: 1,
                max_exclusive: (self.population@.len() / 2 + self.population@.len() % 2) as u64,
            }),
            r matches Ok(ps) ==> ps@.len() == count as int && pairs_from(self.population@, ps@),
            r matches Ok(ps) ==> is_best(ps@[0].0, self.population@, self.fitness_type),
            r matches Ok(ps) ==> forall|k: int|
                0 <= k < ps@.len() ==> pair_ordered(#[trigger] ps@[k], self.fitness_type),
            r matches Ok(ps) ==> is_truncation_selection(self.population@, ps@, self.fitness_type),
    {
        let n = self.population.len();
        if count == 0 || (count as u64) * 2 >= (n as u64) {
            return Err(SimError::InvalidParameter {
                param: Param::Count,
                value: count as u64,
                min: 1,
                max_exclusive: (n as u64) / 2 + (n as u64) % 2,
            });
        }
        let sorted = sort_by_fitness_vec(duplicate_vec(&self.population));
        let c = count as usize;
        let mut result: Vec<(T, T)> = Vec::new();
        let mut made: usize = 0;
        while made < c
            invariant
                sorted@.to_multiset() == self.population@.to_multiset(),
                sorted@.len() == self.population@.len(),
                sorted_by_fitness(sorted@),
                2 * (c as int) < sorted@.len(),
                made <= c,
                result@.len() == made,
                pairs_from(self.population@, result@),
                result@.len() > 0 ==> is_best(result@[0].0, self.population@, self.fitness_type),
                forall|k: int|
                    0 <= k < result@.len() ==> pair_ordered(
                        #[trigger] result@[k],
                        self.fitness_type,
                    ),
                forall|k: int|
                    0 <= k < result@.len() ==> #[trigger] result@[k] == truncation_pair_at(
                        sorted@,
                        k,
                        self.fitness_type,
                    ),
            decreases c - made,
        {
            let n = sorted.len();
            let (ai, bi): (usize, usize) = match self.fitness_type {
                FitnessType::Maximize => (n - 1 - 2 * made, n - 2 - 2 * made),
                FitnessType::Minimize => (2 * made, 2 * made + 1),
            };
            let pa = sorted[ai].duplicate();
            let pb = sorted[bi].duplicate();
            proof {
                assert(sorted@.contains(sorted@[ai as int]));
                assert(sorted@.contains(sorted@[bi as int]));
                lemma_multiset_contains(sorted@, self.population@, sorted@[ai as int]);
                lemma_multiset_contains(sorted@, self.population@, sorted@[bi as int]);
                if made == 0 {
                    lemma_sorted_extremes(sorted@, self.population@);
                }
            }
            result.push((pa, pb));
            made = made + 1;
        }
        proof {
            assert(is_truncation_selection(self.population@, result@, self.fitness_type)) by {
                assert(truncation_selection_from(
                    self.population@,
                    result@,
                    self.fitness_type,
                    sorted@,
                ));
            }
        }
        Ok(result)
    }

    /// Select parents using tournament selection: `num` rounds, each
    /// drawing a random sample of `count` individuals and pairing the
    /// sample's two best in the configured fitness direction.
    pub fn selection_tournament(&self, num: u32, count: u32) -> (r: Result<Vec<(T, T)>, SimError>)
        ensures
            r is Err <==> (num == 0 || 2 * (num as int) >= self.population@.len() || count < 2
                || count as int >= self.population@.len()),
            (num == 0 || 2 * (num as int) >= self.population@.len()) ==> (r matches Err(e) ==> e
                == (SimError::InvalidParameter {
                param: Param::Num,
                value: num as u64,
                min: 1,
                max_exclusive: (self.population@.len() / 2 + self.population@.len() % 2) as u64,
            })),
            !(num == 0 || 2 * (num as int) >= self.population@.len()) ==> (r matches Err(e) ==> e
                == (SimError::InvalidParameter {
                param: Param::Count,
                value: count as u64,
                min: 2,
                max_exclusive: self.population@.len() as u64,
            })),
            r matches Ok(ps) ==> ps@.len() == num as int && pairs_from(self.population@, ps@),
            r matches Ok(ps) ==> forall|k: int|
                0 <= k < ps@.len() ==> pair_ordered(#[trigger] ps@[k], self.fitness_type),
            r matches Ok(ps) ==> forall|k: int|
                0 <= k < ps@.len() ==> is_tournament_pair(
                    self.population@,
                    #[trigger] ps@[k],
                    count as int,
                    self.fitness_type,
                ),
    {
        let n = self.population.len();
        if num == 0 || (num as u64) * 2 >= (n as u64) {
            return Err(SimError::InvalidParameter {
                param: Param::Num,
                value: num as u64,
                min: 1,
                max_exclusive: (n as u64) / 2 + (n as u64) % 2,
            });
        }
        if count < 2 || (count as u64) >= (n as u64) {
            return Err(SimError::InvalidParameter {
                param: Param::Count,
                value: count as u64,
                min: 2,
                max_exclusive: n as u64,
            });
        }
        let c = count as usize;
        let mut result: Vec<(T, T)> = Vec::new();
        let mut round: u32 = 0;
        while round < num
            invariant
                n == self.population@.len(),
                1 <= n,
                2 <= c < n,
                round <= num,
                result@.len() == round as int,
                pairs_from(self.population@, result@),
                forall|k: int|
                    0 <= k < result@.len() ==> pair_ordered(
                        #[trigger] result@[k],
                        self.fitness_type,
                    ),
                forall|k: int|
                    0 <= k < result@.len() ==> is_tournament_pair(
                        self.population@,
                        #[trigger] result@[k],
                        c as int,
                        self.fitness_type,
                    ),
            decreases num - round,
        {
            let mut sample: Vec<T> = Vec::new();
            let mut k: usize = 0;
            while k < c
                invariant
                    n == self.population@.len(),
                    1 <= n,
                    k <= c,
                    sample@.len() == k,
                    forall|j: int| 0 <= j < k ==> self.population@.contains(#[trigger] sample@[j]),
                decreases c - k,
            {
                let idx = crate::rng::random_index(n);
                proof {
                    assert(self.population@.contains(self.population@[idx as int]));
                }
                sample.push(self.population[idx].duplicate());
                k = k + 1;
            }
            let ghost sample_snap = sample@;
            let sorted = sort_by_fitness_vec(sample);
            let sl = sorted.len();
            let (pa, pb) = match self.fitness_type {
                FitnessType::Maximize => (sorted[sl - 1].duplicate(), sorted[sl - 2].duplicate()),
                FitnessType::Minimize => (sorted[0].duplicate(), sorted[1].duplicate()),
            };
            proof {
                assert forall|j: int| 0 <= j < sorted@.len() implies self.population@.contains(
                    #[trigger] sorted@[j],
                ) by {
                    assert(sorted@.contains(sorted@[j]));
                    lemma_multiset_contains(sorted@, sample_snap, sorted@[j]);
                    lemma_members_transfer(sample_snap, self.population@, sorted@[j]);
                }
                assert(is_tournament_pair(
                    self.population@,
                    (pa, pb),
                    c as int,
                    self.fitness_type,
                )) by {
                    assert(tournament_pair_from(
                        self.population@,
                        (pa, pb),
                        c as int,
                        self.fitness_type,
                        sorted@,
                    ));
                }
            }
            result.push((pa, pb));
            round = round + 1;
        }
        Ok(result)
    }

    /// Select parents using stochastic universal sampling.
    pub fn selection_stochastic(&self, count: u32) -> (r: Result<Vec<(T, T)>, SimError>)
        ensures
            r is Err <==> (count == 0 || count as int >= self.population@.len()),
            r matches Err(e) ==> e == (SimError::InvalidParameter {
                param: Param::Count,
                value: count as u64,
                min: 1,
                max_exclusive: self.population@.len() as u64,
            }),
            r matches Ok(ps) ==> ps@.len() == (count + 1) as int / 2 && pairs_from(
                self.population@,
                ps@,
            ),
            r matches Ok(ps) ==> sus_selection(self.population@, count as int, ps@),
    {
        let n = self.population.len();
        if count == 0 || (count as u64) >= (n as u64) {
            return Err(SimError::InvalidParameter {
                param: Param::Count,
                value: count as u64,
                min: 1,
                max_exclusive: n as u64,
            });
        }
        let start = crate::rng::random_index(n);
        let ps = stochastic_pairs(&self.population, count as usize, start);
        proof {
            assert(sus_selection(self.population@, count as int, ps@)) by {
                assert(sus_walk_pairs(self.population@, count as int, start as int, ps@));
            }
        }
        Ok(ps)
    }

    /// Select parents using roulette wheel selection: individuals are
    /// drawn at random and accepted with probability equal to their
    /// share of the wheel (see `roulette_accepts`), until each pair is
    /// filled.
    pub fn selection_roulette(&self, count: u32) -> (r: Result<Vec<(T, T)>, SimError>)
        ensures
            r is Err <==> (count == 0 || count as int >= self.population@.len()),
            r matches Err(e) ==> e == (SimError::InvalidParameter {
                param: Param::Count,
                value: count as u64,
                min: 1,
                max_exclusive: self.population@.len() as u64,
            }),
            r matches Ok(ps) ==> ps@.len() == (count + 1) as int / 2 && pairs_from(
                self.population@,
                ps@,
            ),
    {
        let n = self.population.len();
        if count == 0 || (count as u64) >= (n as u64) {
            return Err(SimError::InvalidParameter {
                param: Param::Count,
                value: count as u64,
                min: 1,
                max_exclusive: n as u64,
            });
        }
        let mi = best_index(&self.population, self.fitness_type);
        let best_fit = self.population[mi].fitness();
        let c = count as usize;
        let mut result: Vec<(T, T)> = Vec::new();
        let mut selected: usize = 0;
        while selected < c
            invariant
                n == self.population@.len(),
                1 <= n,
                mi < n,
                0 < c < n,
                selected == 2 * result@.len(),
                selected <= c + 1,
                pairs_from(self.population@, result@),
            decreases c + 1 - selected,
        {
            let mut picked: Vec<T> = Vec::new();
            let mut spins: usize = 0;
            while picked.len() < 2 && spins < MAX_SPINS
                invariant
                    n == self.population@.len(),
                    1 <= n,
                    picked@.len() <= 2,
                    spins <= MAX_SPINS,
                    forall|j: int| 0 <= j < picked@.len() ==> self.population@.contains(
                        #[trigger] picked@[j],
                    ),
                decreases MAX_SPINS - spins,
            {
                let idx = crate::rng::random_index(n);
                let u = crate::rng::random_index(ACCEPT_DENOM);
                let fit = self.population[idx].fitness();
                if roulette_accept(u, fit, best_fit, self.fitness_type) {
                    proof {
                        assert(self.population@.contains(self.population@[idx as int]));
                    }
                    picked.push(self.population[idx].duplicate());
                }
                spins = spins + 1;
            }
            while picked.len() < 2
                invariant
                    n == self.population@.len(),
                    1 <= n,
                    mi < n,
                    picked@.len() <= 2,
                    forall|j: int| 0 <= j < picked@.len() ==> self.population@.contains(
                        #[trigger] picked@[j],
                    ),
                decreases 2 - picked@.len(),
            {
                proof {
                    assert(self.population@.contains(self.population@[mi as int]));
                }
                picked.push(self.population[mi].duplicate());
            }
            result.push((picked[0].duplicate(), picked[1].duplicate()));
            selected = selected + 2;
        }
        Ok(result)
    }

    /// Kill off phenotypes using stochastic universal sampling: remove
    /// `count` individuals along a cyclic walk of the shrinking
    /// population. The population always ends up exactly `count`
    /// smaller; the final length check is a defensive guard against the
    /// index arithmetic going out of sync.
    pub fn kill_off(&mut self, count: usize) -> (r: Result<(), SimError>)
        requires
            1 <= count < old(self).population@.len(),
        ensures
            r is Ok,
            final(self).population@.len() == old(self).population@.len() - count,
            is_subsequence_of(final(self).population@, old(self).population@),
            final(self).max_iters == old(self).max_iters,
            final(self).n_iters == old(self).n_iters,
            final(self).selection_type == old(self).selection_type,
            final(self).fitness_type == old(self).fitness_type,
            final(self).earlystop == old(self).earlystop,
            final(self).earlystopper == old(self).earlystopper,
            final(self).duration == old(self).duration,
    {
        let old_len = self.population.len();
        let ratio = old_len / count;
        proof {
            vstd::arithmetic::div_mod::lemma_div_is_ordered(
                count as int,
                old_len as int,
                count as int,
            );
            vstd::arithmetic::div_mod::lemma_div_by_self(count as int);
            vstd::arithmetic::div_mod::lemma_div_is_ordered(
                old_len as int,
                old_len as int,
                count as int,
            );
            vstd::arithmetic::div_mod::lemma_div_by_self(old_len as int);
        }
        let mut i = crate::rng::random_index(old_len);
        let mut selected: usize = 0;
        let ghost mut gf: Seq<int> = Seq::new(old_len as nat, |k: int| k);
        proof {
            assert(subsequence_along(self.population@, old(self).population@, gf));
        }
        while selected < count
            invariant
                1 <= count < old_len,
                old_len == old(self).population@.len(),
                1 <= ratio <= old_len,
                selected <= count,
                self.population@.len() == old_len - selected,
                i < self.population@.len(),
                subsequence_along(self.population@, old(self).population@, gf),
                self.max_iters == old(self).max_iters,
                self.n_iters == old(self).n_iters,
                self.selection_type == old(self).selection_type,
                self.fitness_type == old(self).fitness_type,
                self.earlystop == old(self).earlystop,
                self.earlystopper == old(self).earlystopper,
                self.duration == old(self).duration,
            decreases count - selected,
        {
            let ghost pre_pop = self.population@;
            let ghost pre_gf = gf;
            self.population.remove(i);
            proof {
                gf = gf.remove(i as int);
                assert forall|k: int|
                    0 <= k < gf.len() implies 0 <= #[trigger] gf[k] < old(
                    self,
                ).population@.len() && self.population@[k] == old(self).population@[gf[k]] by {
                    if k < i {
                        assert(gf[k] == pre_gf[k]);
                        assert(self.population@[k] == pre_pop[k]);
                    } else {
                        assert(gf[k] == pre_gf[k + 1]);
                        assert(self.population@[k] == pre_pop[k + 1]);
                    }
                }
                assert forall|k: int| 0 <= k < gf.len() - 1 implies #[trigger] gf[k] < gf[k
                    + 1] by {
                    if k < i - 1 {
                        assert(gf[k] == pre_gf[k] && gf[k + 1] == pre_gf[k + 1]);
                    } else if k == i - 1 {
                        assert(gf[k] == pre_gf[k] && gf[k + 1] == pre_gf[k + 2]);
                        assert(pre_gf[k] < pre_gf[k + 1] < pre_gf[k + 2]);
                    } else {
                        assert(gf[k] == pre_gf[k + 1] && gf[k + 1] == pre_gf[k + 2]);
                    }
                }
            }
            let len_now = self.population.len();
            let step = (ratio - 1) % len_now;
            let ip = i % len_now;
            i = crate::select::advance_index(ip, step, len_now);
            selected = selected + 1;
        }
        proof {
            assert(is_subsequence_of(self.population@, old(self).population@)) by {
                assert(subsequence_along(self.population@, old(self).population@, gf));
            }
        }
        if self.population.len() == old_len - count {
            Ok(())
        } else {
            Err(SimError::PopulationInvariant)
        }
    }

    /// Run the simulation: repeat generations of selection, breeding,
    /// culling and (optionally) early-stop bookkeeping until the
    /// iteration budget is spent or stagnation is detected, then report
    /// the best individual.
    ///
    /// A selection whose configured parameter is out of bounds for the
    /// population aborts the run before any generation is applied, and
    /// that is the only way a run fails. On success, with early
    /// stopping disabled, exactly the remaining iteration budget is
    /// spent; with it enabled, at most that. The population size is
    /// restored by every completed generation.
    pub fn run(&mut self) -> (r: Result<T, SimError>)
        requires
            old(self).wf(),
        ensures
            final(self).wf(),
            final(self).max_iters == old(self).max_iters,
            final(self).selection_type == old(self).selection_type,
            final(self).fitness_type == old(self).fitness_type,
            final(self).earlystop == old(self).earlystop,
            final(self).population@.len() == old(self).population@.len(),
            old(self).n_iters <= final(self).n_iters,
            r is Err <==> (old(self).n_iters < old(self).max_iters && !valid_selection(
                old(self).selection_type,
                old(self).population@.len() as int,
            )),
            r is Err ==> final(self).population@ == old(self).population@ && final(self).n_iters
                == old(self).n_iters && final(self).earlystopper == old(self).earlystopper
                && final(self).duration == old(self).duration,
            r matches Err(e) ==> e is InvalidParameter,
            r is Ok ==> final(self).n_iters as int <= iter_cap(
                old(self).n_iters,
                old(self).max_iters,
            ),
            r is Ok && !old(self).earlystop ==> final(self).n_iters as int == iter_cap(
                old(self).n_iters,
                old(self).max_iters,
            ),
            r matches Ok(best) ==> is_best(best, final(self).population@, old(self).fitness_type),
            old(self).n_iters >= old(self).max_iters ==> final(self).population@ == old(
                self,
            ).population@,
            r is Ok ==> final(self).duration is Some,
            r is Ok ==> (final(self).duration matches Some(d) ==> d >= 0),
            r is Ok && (final(self).n_iters as int) < iter_cap(
                old(self).n_iters,
                old(self).max_iters,
            ) ==> final(self).earlystopper.n_iters >= final(self).earlystopper.max_iters,
    {
        let time_start = crate::clock::steady_now();
        let mut stopped = false;
        while !stopped && self.n_iters < self.max_iters
            invariant
                self.wf(),
                self.population@.len() == old(self).population@.len(),
                self.max_iters == old(self).max_iters,
                self.selection_type == old(self).selection_type,
                self.fitness_type == old(self).fitness_type,
                self.earlystop == old(self).earlystop,
                self.duration == old(self).duration,
                old(self).n_iters <= self.n_iters,
                self.n_iters as int <= iter_cap(old(self).n_iters, old(self).max_iters),
                old(self).n_iters >= old(self).max_iters ==> self.n_iters == old(self).n_iters
                    && self.population@ == old(self).population@,
                !self.earlystop ==> !stopped,
                stopped ==> self.earlystopper.n_iters >= self.earlystopper.max_iters,
                !valid_selection(self.selection_type, self.population@.len() as int) ==> (
                self.population@ == old(self).population@ && self.n_iters == old(self).n_iters
                    && self.earlystopper == old(self).earlystopper && !stopped),
            decreases iter_cap(old(self).n_iters, old(self).max_iters) - self.n_iters,
        {
            // Perform selection
            let parents_res = match self.selection_type {
                SelectionType::Maximize { count } => self.selection_maximize(count),
                SelectionType::Tournament { num, count } => self.selection_tournament(num, count),
                SelectionType::Stochastic { count } => self.selection_stochastic(count),
                SelectionType::Roulette { count } => self.selection_roulette(count),
            };
            let parents = match parents_res {
                Ok(p) => p,
                Err(e) => {
                    return Err(e);
                },
            };
            // Create children from the selected parents and mutate them
            let mut children: Vec<T> = Vec::new();
            let mut k: usize = 0;
            while k < parents.len()
                invariant
                    k <= parents@.len(),
                    children@.len() == k,
                decreases parents@.len() - k,
            {
                let child = parents[k].0.crossover(&parents[k].1);
                children.push(child.mutate());
                k = k + 1;
            }
            // Kill off parts of the population at random to make room
            // for the children
            let num_children = children.len();
            proof {
                assert(valid_selection(self.selection_type, self.population@.len() as int));
                assert(children@.len() == pairs_of(self.selection_type));
                assert(1 <= children@.len() < self.population@.len());
            }
            match self.kill_off(num_children) {
                Ok(_) => {
                    let ghost snap = *self;
                    let mut m: usize = 0;
                    while m < children.len()
                        invariant
                            m <= children@.len(),
                            self.population@.len() == snap.population@.len() + m,
                            self.max_iters == snap.max_iters,
                            self.n_iters == snap.n_iters,
                            self.selection_type == snap.selection_type,
                            self.fitness_type == snap.fitness_type,
                            self.earlystop == snap.earlystop,
                            self.earlystopper == snap.earlystopper,
                            self.duration == snap.duration,
                        decreases children@.len() - m,
                    {
                        self.population.push(children[m].duplicate());
                        m = m + 1;
                    }
                    self.n_iters = self.n_iters + 1;
                },
                Err(e) => {
                    return Err(e);
                },
            }
            if self.earlystop {
                let bi = best_index(&self.population, self.fitness_type);
                let best_f = self.population[bi].fitness();
                if self.earlystopper.update(best_f) {
                    stopped = true;
                }
            }
        }
        self.duration = crate::clock::elapsed_nanos(&time_start);
        Ok(self.get())
    }
}

/// Of two engines that start with the same iteration count and budget,
/// one with early stopping enabled and one without, the enabled one
/// never performs more generations: after successful runs — whose
/// outcomes `run` ensures — it stays at or below the cap that the
/// disabled one reaches exactly.
pub proof fn lemma_early_stop_iterations<T: Phenotype>(
    early_pre: Simulator<T>,
    early_post: Simulator<T>,
    plain_pre: Simulator<T>,
    plain_post: Simulator<T>,
)
    requires
        early_pre.n_iters == plain_pre.n_iters,
        early_pre.max_iters == plain_pre.max_iters,
        plain_pre.earlystop == false,
        early_post.n_iters as int <= iter_cap(early_pre.n_iters, early_pre.max_iters),
        plain_post.n_iters as int == iter_cap(plain_pre.n_iters, plain_pre.max_iters),
    ensures
        early_post.n_iters <= plain_post.n_iters,
{
}

/// A `Builder` for the `Simulator` type.
pub struct SimulatorBuilder<T: Phenotype> {
    pub sim: Simulator<T>,
}

impl<T: Phenotype> SimulatorBuilder<T> {
    /// Set the maximum number of iterations of the resulting
    /// `Simulator`.
    ///
    /// The `Simulator` will stop running after this number of
    /// iterations.
    ///
    /// Returns itself for chaining purposes.
    pub fn set_max_iters(self, i: i32) -> (r: Self)
        ensures
            r.sim == (Simulator { max_iters: i, ..self.sim }),
    {
        let mut s = self;
        s.sim.max_iters = i;
        s
    }

    /// Set the selection type of the resulting `Simulator`.
    ///
    /// Returns itself for chaining purposes.
    pub fn set_selection_type(self, t: SelectionType) -> (r: Self)
        ensures
            r.sim == (Simulator { selection_type: t, ..self.sim }),
    {
        let mut s = self;
        s.sim.selection_type = t;
        s
    }

    /// Set the fitness type of the resulting `Simulator`, determining
    /// whether the `Simulator` will try to maximize or minimize the
    /// fitness values of `Phenotype`s.
    ///
    /// Returns itself for chaining purposes.
    pub fn set_fitness_type(self, t: FitnessType) -> (r: Self)
        ensures
            r.sim == (Simulator { fitness_type: t, ..self.sim }),
    {
        let mut s = self;
        s.sim.fitness_type = t;
        s
    }

    /// Set early stopping. If for `n_iters` iterations, the change in
    /// the highest fitness is smaller than `delta`, the simulator will
    /// stop running.
    ///
    /// Returns itself for chaining purposes.
    pub fn set_early_stop(self, delta: u64, n_iters: u32) -> (r: Self)
        ensures
            r.sim == (Simulator {
                earlystop: true,
                earlystopper: EarlyStopper { delta, previous: 0, max_iters: n_iters, n_iters: 0 },
                ..self.sim
            }),
    {
        let mut s = self;
        s.sim.earlystop = true;
        s.sim.earlystopper = EarlyStopper::new(delta, n_iters);
        s
    }

    /// Hand over the configured simulator.
    pub fn build(self) -> (r: Box<Simulator<T>>)
        ensures
            *r == self.sim,
    {
        Box::new(self.sim)
    }
}

} // verus!
