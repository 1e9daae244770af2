//! Engine-level tests: parameter validation, run behaviour, timing,
//! early stopping, and convergence under each selection strategy.

use rsgenetic::phenotype::ScalarPhenotype;
use rsgenetic::seq::Simulator;
use rsgenetic::{FitnessType, SelectionType};

fn population(n: i64, offset: i64) -> Vec<ScalarPhenotype> {
    (0..n).map(|i| ScalarPhenotype { value: i + offset }).collect()
}

#[test]
#[should_panic]
fn test_maximize_count_0() {
    let tests = population(100, 0);
    let mut s = *Simulator::builder(tests)
        .set_max_iters(100)
        .set_selection_type(SelectionType::Maximize { count: 0 })
        .set_fitness_type(FitnessType::Minimize)
        .build();
    s.run().unwrap();
}

#[test]
#[should_panic]
fn test_tournament_count_0() {
    let tests = population(100, 0);
    let mut s = *Simulator::builder(tests)
        .set_max_iters(100)
        .set_selection_type(SelectionType::Tournament { num: 2, count: 0 })
        .set_fitness_type(FitnessType::Minimize)
        .build();
    s.run().unwrap();
}

#[test]
#[should_panic]
fn test_tournament_num_0() {
    let tests = population(100, 0);
    let mut s = *Simulator::builder(tests)
        .set_max_iters(100)
        .set_selection_type(SelectionType::Tournament { num: 0, count: 1 })
        .set_fitness_type(FitnessType::Minimize)
        .build();
    s.run().unwrap();
}

#[test]
#[should_panic]
fn test_stochastic_count_0() {
    let tests = population(100, 0);
    let mut s = *Simulator::builder(tests)
        .set_max_iters(100)
        .set_selection_type(SelectionType::Stochastic { count: 0 })
        .set_fitness_type(FitnessType::Minimize)
        .build();
    s.run().unwrap();
}

#[test]
fn test_runtime() {
    let tests = population(100, 0);
    let mut s = *Simulator::builder(tests)
        .set_max_iters(2000)
        .set_selection_type(SelectionType::Stochastic { count: 1 })
        .set_fitness_type(FitnessType::Minimize)
        .build();
    s.run().unwrap();
    let nanos = s.time().unwrap();
    assert!(nanos >= 0);
}

#[test]
#[should_panic]
fn test_time_norun() {
    let tests = population(100, 0);
    let s = *Simulator::builder(tests).build();
    s.time().unwrap();
}

#[test]
fn test_earlystop() {
    let tests = population(100, 0);
    let mut s_early = *Simulator::builder(tests)
        .set_max_iters(1000)
        .set_selection_type(SelectionType::Stochastic { count: 5 })
        .set_fitness_type(FitnessType::Minimize)
        .set_early_stop(1, 5)
        .build();
    let tests2 = population(100, 0);
    let mut s_no_early = *Simulator::builder(tests2)
        .set_max_iters(1000)
        .set_selection_type(SelectionType::Stochastic { count: 5 })
        .set_fitness_type(FitnessType::Minimize)
        .build();
    s_early.run().unwrap(); // Both should run without error.
    s_no_early.run().unwrap(); // Both should run without error.

    assert!(s_early.iterations() <= s_no_early.iterations());
}

#[test]
fn simple_convergence_test_maximize() {
    let tests = population(100, 10);
    let mut s = *Simulator::builder(tests)
        .set_max_iters(1000)
        .set_selection_type(SelectionType::Maximize { count: 5 })
        .set_fitness_type(FitnessType::Minimize)
        .build();
    s.run().unwrap();
    assert_eq!(s.get().value, 0);
}

#[test]
fn simple_convergence_test_tournament() {
    let tests = population(100, 10);
    let mut s = *Simulator::builder(tests)
        .set_max_iters(1000)
        .set_selection_type(SelectionType::Tournament { count: 3, num: 5 })
        .set_fitness_type(FitnessType::Minimize)
        .build();
    s.run().unwrap();
    assert_eq!(s.get().value, 0);
}

#[test]
fn simple_convergence_test_stochastic() {
    let tests = population(100, 10);
    let mut s = *Simulator::builder(tests)
        .set_max_iters(1000)
        .set_selection_type(SelectionType::Stochastic { count: 5 })
        .set_fitness_type(FitnessType::Minimize)
        .build();
    s.run().unwrap();
    assert_eq!(s.get().value, 0);
}

#[test]
fn simple_convergence_test_roulette() {
    let tests = population(100, 10);
    let mut s = *Simulator::builder(tests)
        .set_max_iters(1000)
        .set_selection_type(SelectionType::Roulette { count: 4 })
        .set_fitness_type(FitnessType::Minimize)
        .build();
    s.run().unwrap();
    assert!(s.get().value == 0);
}
