//! The contract a candidate solution must satisfy to be evolved, and a
//! simple integer-valued implementation of it.

use vstd::prelude::*;

verus! {

/// A candidate solution in a population.
///
/// The library compares individuals by their integer fitness score; what
/// the score means, and how two individuals are recombined or perturbed,
/// is entirely up to the implementor.
pub trait Phenotype: Sized {
    /// The fitness score of this individual, as a mathematical value.
    spec fn fitness_spec(&self) -> i64;

    /// Compute the fitness score of this individual.
    fn fitness(&self) -> (r: i64)
        ensures
            r == self.fitness_spec(),
    ;

    /// Combine this individual with another into a new one.
    fn crossover(&self, other: &Self) -> (r: Self);

    /// Perturb this individual into a new one.
    fn mutate(&self) -> (r: Self);

    /// Produce an independent copy of this individual.
    fn duplicate(&self) -> (r: Self)
        ensures
            r == *self,
    ;
}

/// A phenotype holding a single integer of state, with fitness equal to
/// its distance from zero: crossover takes the smaller of two states,
/// and mutation moves the state one step toward zero (and from zero to
/// minus one). Under a minimizing engine a population of these converges
/// toward zero.
#[derive(Clone, Copy, PartialEq, Eq, Structural, Debug)]
pub struct ScalarPhenotype {
    pub value: i64,
}

impl Phenotype for ScalarPhenotype {
    open spec fn fitness_spec(&self) -> i64 {
        if self.value == i64::MIN {
            i64::MAX
        } else if self.value < 0 {
            (-self.value) as i64
        } else {
            self.value
        }
    }

    fn fitness(&self) -> (r: i64) {
        if self.value == i64::MIN {
            i64::MAX
        } else if self.value < 0 {
            -self.value
        } else {
            self.value
        }
    }

    fn crossover(&self, other: &Self) -> (r: Self)
        ensures
            r.value == if self.value <= other.value {
                self.value
            } else {
                other.value
            },
    {
        if self.value <= other.value {
            ScalarPhenotype { value: self.value }
        } else {
            ScalarPhenotype { value: other.value }
        }
    }

    fn mutate(&self) -> (r: Self)
        ensures
            r.value == if self.value < 0 {
                self.value + 1
            } else {
                self.value - 1
            },
    {
        if self.value < 0 {
            ScalarPhenotype { value: self.value + 1 }
        } else {
            ScalarPhenotype { value: self.value - 1 }
        }
    }

    fn duplicate(&self) -> (r: Self) {
        ScalarPhenotype { value: self.value }
    }
}

} // verus!
