//! An evolutionary search toward a target sentence: starting from random
//! candidates over a fixed alphabet, repeatedly recombine, mutate, score
//! by counting character mismatches, and keep the best few, until an
//! exact match is found.

pub mod alphabet;
pub mod error;
pub mod fitness;
pub mod mutation;
pub mod reproduction;
pub mod rng;
pub mod search;
pub mod selection;
