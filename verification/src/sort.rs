//! Fitness-ordered views of a population: duplication, extremum lookup,
//! and sorting by fitness.

use vstd::prelude::*;
use vstd::seq_lib::group_to_multiset_ensures;
use vstd::multiset::Multiset;
use crate::phenotype::Phenotype;
use crate::FitnessType;

verus! {

/// The sequence is ordered by ascending fitness.
pub open spec fn sorted_by_fitness<T: Phenotype>(s: Seq<T>) -> bool {
    forall|i: int, j: int|
        0 <= i <= j < s.len() ==> s[i].fitness_spec() <= s[j].fitness_spec()
}

/// Two sequences holding the same individuals contain the same members.
pub proof fn lemma_multiset_contains<T>(a: Seq<T>, b: Seq<T>, x: T)
    requires
        a.to_multiset() == b.to_multiset(),
        a.contains(x),
    ensures
        b.contains(x),
{
    broadcast use group_to_multiset_ensures;

    assert(a.to_multiset().count(x) > 0);
    assert(b.to_multiset().count(x) > 0);
}

/// A member of a sequence whose entries all come from a population is
/// itself a member of that population.
pub proof fn lemma_members_transfer<T>(a: Seq<T>, pop: Seq<T>, x: T)
    requires
        forall|j: int| 0 <= j < a.len() ==> pop.contains(#[trigger] a[j]),
        a.contains(x),
    ensures
        pop.contains(x),
{
    let idx = choose|idx: int| 0 <= idx < a.len() && a[idx] == x;
    assert(pop.contains(a[idx]));
}

/// In a fitness-sorted arrangement of a population, the last element
/// carries the maximal fitness present and the first the minimal.
pub proof fn lemma_sorted_extremes<T: Phenotype>(s: Seq<T>, pop: Seq<T>)
    requires
        s.to_multiset() == pop.to_multiset(),
        sorted_by_fitness(s),
        s.len() > 0,
    ensures
        forall|j: int|
            0 <= j < pop.len() ==> pop[j].fitness_spec() <= s[s.len() - 1].fitness_spec(),
        forall|j: int| 0 <= j < pop.len() ==> s[0].fitness_spec() <= pop[j].fitness_spec(),
{
    assert forall|j: int|
        0 <= j < pop.len() implies pop[j].fitness_spec() <= s[s.len() - 1].fitness_spec() && s[
        0
    ].fitness_spec() <= pop[j].fitness_spec() by {
        assert(pop.contains(pop[j]));
        lemma_multiset_contains(pop, s, pop[j]);
        let k = choose|k: int| 0 <= k < s.len() && s[k] == pop[j];
        assert(s[k].fitness_spec() <= s[s.len() - 1].fitness_spec());
        assert(s[0].fitness_spec() <= s[k].fitness_spec());
    }
}

/// Duplicate every individual of a population, in order.
pub fn duplicate_vec<T: Phenotype>(v: &Vec<T>) -> (r: Vec<T>)
    ensures
        r@ =~= v@,
{
    let mut r: Vec<T> = Vec::new();
    let mut k: usize = 0;
    while k < v.len()
        invariant
            k <= v@.len(),
            r@.len() == k,
            forall|j: int| 0 <= j < k ==> r@[j] == v@[j],
        decreases v@.len() - k,
    {
        r.push(v[k].duplicate());
        k = k + 1;
    }
    r
}

/// The index of a best individual: one of maximal fitness when
/// maximizing, of minimal fitness when minimizing. Ties may resolve to
/// any extremal index.
pub fn best_index<T: Phenotype>(v: &Vec<T>, ftype: FitnessType) -> (i: usize)
    requires
        v@.len() >= 1,
    ensures
        i < v@.len(),
        ftype == FitnessType::Maximize ==> forall|j: int|
            0 <= j < v@.len() ==> v@[j].fitness_spec() <= v@[i as int].fitness_spec(),
        ftype == FitnessType::Minimize ==> forall|j: int|
            0 <= j < v@.len() ==> v@[i as int].fitness_spec() <= v@[j].fitness_spec(),
{
    let mut best: usize = 0;
    let mut best_fit: i64 = v[0].fitness();
    let mut k: usize = 1;
    while k < v.len()
        invariant
            1 <= k <= v@.len(),
            best < k,
            best_fit == v@[best as int].fitness_spec(),
            ftype == FitnessType::Maximize ==> forall|j: int|
                0 <= j < k ==> v@[j].fitness_spec() <= best_fit,
            ftype == FitnessType::Minimize ==> forall|j: int|
                0 <= j < k ==> best_fit <= v@[j].fitness_spec(),
        decreases v@.len() - k,
    {
        let fit = v[k].fitness();
        let better = match ftype {
            FitnessType::Maximize => fit > best_fit,
            FitnessType::Minimize => fit < best_fit,
        };
        if better {
            best = k;
            best_fit = fit;
        }
        k = k + 1;
    }
    best
}

/// Sort a population by ascending fitness. The result holds exactly the
/// same individuals, reordered.
pub fn sort_by_fitness_vec<T: Phenotype>(v: Vec<T>) -> (r: Vec<T>)
    ensures
        r@.len() == v@.len(),
        sorted_by_fitness(r@),
        r@.to_multiset() == v@.to_multiset(),
{
    broadcast use group_to_multiset_ensures;

    let mut rest = v;
    let mut r: Vec<T> = Vec::new();
    let ghost orig: Seq<T> = rest@;
    while rest.len() > 0
        invariant
            r@.len() + rest@.len() == orig.len(),
            sorted_by_fitness(r@),
            forall|a: int, b: int|
                0 <= a < r@.len() && 0 <= b < rest@.len()
                    ==> r@[a].fitness_spec() <= rest@[b].fitness_spec(),
            r@.to_multiset().add(rest@.to_multiset()) =~= orig.to_multiset(),
        decreases rest@.len(),
    {
        let i = best_index(&rest, FitnessType::Minimize);
        let x = rest.remove(i);
        proof {
            broadcast use group_to_multiset_ensures;
        }
        r.push(x);
    }
    proof {
        assert(r@.to_multiset().add(rest@.to_multiset()) =~= r@.to_multiset()) by {
            assert(rest@ =~= Seq::<T>::empty());
            assert(rest@.to_multiset() =~= Multiset::<T>::empty());
        }
        assert(r@.to_multiset() =~= v@.to_multiset());
    }
    r
}

} // verus!
