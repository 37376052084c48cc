//! An evolution engine: a population of creatures is improved one generation
//! at a time by a genetic algorithm, hill climbing or simulated annealing,
//! each drawing from one seeded random source and scoring creatures through
//! a fitness trial that the caller supplies.

pub mod random;
pub mod creature;
pub mod population;
pub mod genetic_algorithm;
pub mod hill_climbing;
pub mod simulated_annealing;
pub mod optimisation;
pub mod ui_data;
