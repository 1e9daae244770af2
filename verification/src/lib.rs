//! A genetic-algorithm library: a population of candidate solutions is
//! evolved across discrete generations toward better fitness, using
//! pluggable parent-selection strategies, caller-supplied crossover and
//! mutation, and stochastic culling to keep the population size constant.

use vstd::prelude::*;

pub mod phenotype;
pub mod rng;
pub mod clock;
pub mod sort;
pub mod select;
pub mod seq;

verus! {

/// Direction of optimization: whether larger or smaller fitness values
/// are considered better.
#[derive(Clone, Copy, PartialEq, Eq, Structural, Debug)]
pub enum FitnessType {
    Maximize,
    Minimize,
}

/// The parent-selection strategy an engine uses, with its parameters.
#[derive(Clone, Copy, PartialEq, Eq, Structural, Debug)]
pub enum SelectionType {
    /// Truncation selection: breed the best `count` pairs taken from the
    /// fitness-sorted population.
    Maximize { count: u32 },
    /// Tournament selection: `num` rounds, each drawing a random sample
    /// of `count` individuals and breeding its two best.
    Tournament { num: u32, count: u32 },
    /// Stochastic universal sampling with `count` selected parents.
    Stochastic { count: u32 },
    /// Roulette-wheel selection with `count` selected parents.
    Roulette { count: u32 },
}

/// Which parameter of a selection or culling call was rejected.
#[derive(Clone, Copy, PartialEq, Eq, Structural, Debug)]
pub enum Param {
    Count,
    Num,
}

/// A failure reported by the engine.
#[derive(Clone, Copy, PartialEq, Eq, Structural, Debug)]
pub enum SimError {
    /// A selection parameter violated its documented bound: `value` must
    /// be at least `min` and strictly below `max_exclusive`.
    InvalidParameter { param: Param, value: u64, min: u64, max_exclusive: u64 },
    /// Culling did not remove the expected number of individuals.
    PopulationInvariant,
}

/// A duration in nanoseconds.
pub type NanoSecond = i64;

} // verus!
