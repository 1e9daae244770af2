//! Tests pinning the stated behaviour of the parts: selection pair
//! counts and membership, parameter boundaries, culling arithmetic,
//! iteration counting, the early stopper, and the roulette wheel.

use rsgenetic::phenotype::{Phenotype, ScalarPhenotype};
use rsgenetic::seq::{roulette_accept, EarlyStopper, Simulator, ACCEPT_DENOM};
use rsgenetic::select::stochastic_selector;
use rsgenetic::{FitnessType, Param, SelectionType, SimError};

fn population(n: i64, offset: i64) -> Vec<ScalarPhenotype> {
    (0..n).map(|i| ScalarPhenotype { value: i + offset }).collect()
}

fn in_population(pop: &[ScalarPhenotype], x: &ScalarPhenotype) -> bool {
    pop.iter().any(|p| p == x)
}

#[test]
fn selection_pair_counts_and_membership() {
    let pop = population(100, 0);
    let s = *Simulator::builder(population(100, 0)).build();

    let truncation = s.selection_maximize(5).unwrap();
    assert_eq!(truncation.len(), 5);
    let tournament = s.selection_tournament(7, 3).unwrap();
    assert_eq!(tournament.len(), 7);
    let stochastic = s.selection_stochastic(5).unwrap();
    assert_eq!(stochastic.len(), 3);
    let roulette = s.selection_roulette(4).unwrap();
    assert_eq!(roulette.len(), 2);

    for pairs in [truncation, tournament, stochastic, roulette] {
        for (a, b) in &pairs {
            assert!(in_population(&pop, a));
            assert!(in_population(&pop, b));
        }
    }
}

#[test]
fn selection_parameter_boundaries() {
    let s = *Simulator::builder(population(100, 0)).build();

    // Truncation needs 0 < count and 2 * count < 100.
    assert!(s.selection_maximize(49).is_ok());
    assert_eq!(
        s.selection_maximize(50),
        Err(SimError::InvalidParameter {
            param: Param::Count,
            value: 50,
            min: 1,
            max_exclusive: 50,
        })
    );

    // Tournament rounds obey the same halved bound; the sample size
    // must be at least 2 and below the population size.
    assert!(s.selection_tournament(49, 99).is_ok());
    assert_eq!(
        s.selection_tournament(50, 3),
        Err(SimError::InvalidParameter {
            param: Param::Num,
            value: 50,
            min: 1,
            max_exclusive: 50,
        })
    );
    assert_eq!(
        s.selection_tournament(5, 100),
        Err(SimError::InvalidParameter {
            param: Param::Count,
            value: 100,
            min: 2,
            max_exclusive: 100,
        })
    );

    // Stochastic and roulette accept count up to 99 and reject 100.
    assert!(s.selection_stochastic(99).is_ok());
    assert_eq!(
        s.selection_stochastic(100),
        Err(SimError::InvalidParameter {
            param: Param::Count,
            value: 100,
            min: 1,
            max_exclusive: 100,
        })
    );
    assert!(s.selection_roulette(99).is_ok());
    assert_eq!(
        s.selection_roulette(100),
        Err(SimError::InvalidParameter {
            param: Param::Count,
            value: 100,
            min: 1,
            max_exclusive: 100,
        })
    );
}

#[test]
fn free_standing_stochastic_selector() {
    let pop = population(10, 0);
    let sel = stochastic_selector(5);
    let pairs = sel.select(&pop, FitnessType::Maximize).unwrap();
    assert_eq!(pairs.len(), 3);
    for (a, b) in &pairs {
        assert!(in_population(&pop, a));
        assert!(in_population(&pop, b));
    }
    assert!(sel.select(&population(5, 0), FitnessType::Maximize).is_err());
    assert!(stochastic_selector(0).select(&pop, FitnessType::Maximize).is_err());
}

#[test]
fn kill_off_shrinks_by_exactly_count() {
    for count in [1usize, 30, 50, 99] {
        let mut s = *Simulator::builder(population(100, 0)).build();
        s.kill_off(count).unwrap();
        assert_eq!(s.population.len(), 100 - count);
    }
}

#[test]
fn run_spends_the_whole_budget_without_early_stopping() {
    let mut s = *Simulator::builder(population(20, 0))
        .set_max_iters(7)
        .set_selection_type(SelectionType::Stochastic { count: 4 })
        .set_fitness_type(FitnessType::Minimize)
        .build();
    assert_eq!(s.iterations(), 0);
    s.run().unwrap();
    assert_eq!(s.iterations(), 7);
    assert_eq!(s.population.len(), 20);
    // A second run has no budget left and changes nothing.
    s.run().unwrap();
    assert_eq!(s.iterations(), 7);
}

#[test]
fn run_rejects_an_invalid_configuration() {
    // The default truncation count of 5 needs a population above 10.
    let mut s = *Simulator::builder(population(1, 0)).build();
    let r = s.run();
    assert_eq!(
        r,
        Err(SimError::InvalidParameter { param: Param::Count, value: 5, min: 1, max_exclusive: 1 })
    );
    assert_eq!(s.iterations(), 0);
    assert!(s.time().is_none());
}

#[test]
fn iterations_zero_after_construction() {
    let s = *Simulator::builder(population(3, 0)).build();
    assert_eq!(s.iterations(), 0);
    assert!(s.time().is_none());
}

#[test]
fn early_stopper_counts_stagnation() {
    let mut stopper = EarlyStopper::new(5, 3);
    assert!(!stopper.update(4)); // |4 - 0| < 5: one stagnant step
    assert!(!stopper.update(100)); // big move: reset
    assert!(!stopper.update(101));
    assert!(!stopper.update(102));
    assert!(stopper.update(103)); // third stagnant step in a row
}

#[test]
fn roulette_wheel_acceptance() {
    let max = FitnessType::Maximize;
    let min = FitnessType::Minimize;
    // Maximizing, a draw at half the wheel accepts exactly up to half
    // the maximal fitness.
    assert!(roulette_accept(ACCEPT_DENOM / 2, 5, 10, max));
    assert!(!roulette_accept(ACCEPT_DENOM / 2 + 1, 5, 10, max));
    // The best individual is accepted by any draw.
    assert!(roulette_accept(ACCEPT_DENOM - 1, 10, 10, max));
    // Negative fitness is never accepted while the maximum is positive.
    assert!(!roulette_accept(0, -1, 10, max));
    // With an all-negative population everything is accepted.
    assert!(roulette_accept(ACCEPT_DENOM - 1, -7, -5, max));
    // With a zero maximum only zero fitness is accepted.
    assert!(roulette_accept(0, 0, 0, max));
    assert!(!roulette_accept(0, -3, 0, max));
    // Minimizing, the share is inverted: the minimal individual fills
    // the wheel, and a draw at half the wheel accepts up to twice the
    // minimal fitness.
    assert!(roulette_accept(ACCEPT_DENOM - 1, 5, 5, min));
    assert!(roulette_accept(ACCEPT_DENOM / 2, 10, 5, min));
    assert!(!roulette_accept(ACCEPT_DENOM / 2 + 1, 10, 5, min));
    // With a zero minimum, only individuals at zero fill the wheel.
    assert!(roulette_accept(ACCEPT_DENOM - 1, 0, 0, min));
    assert!(!roulette_accept(1, 7, 0, min));
}

#[test]
fn scalar_phenotype_behaviour() {
    let a = ScalarPhenotype { value: -3 };
    let b = ScalarPhenotype { value: 2 };
    assert_eq!(a.fitness(), 3);
    assert_eq!(b.fitness(), 2);
    assert_eq!(a.crossover(&b).value, -3);
    assert_eq!(b.crossover(&a).value, -3);
    assert_eq!(a.mutate().value, -2);
    assert_eq!(b.mutate().value, 1);
    assert_eq!(ScalarPhenotype { value: 0 }.mutate().value, -1);
    assert_eq!(a.duplicate(), a);
}
