//! Self-play training and evaluation for hypergammon: the outcome statistics, the
//! perspective wrapper over the rules engine, the evaluators and their expectimax search,
//! and the paired duel between two evaluators.

pub mod outcome;
pub mod probabilities;
pub mod dice;
pub mod board;
pub mod fstate;
pub mod evaluator;
pub mod search;
pub mod duel;
pub mod hyper;
pub mod train;
