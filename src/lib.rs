//! Evolution of feed-forward networks by a genetic algorithm: chromosomes,
//! networks that encode into and decode from them, and the strategies that
//! breed one generation from the last.
mod random;

pub mod brain;
pub mod chromosome;
pub mod crossover;
pub mod genetic;
pub mod individual;
pub mod mutation;
pub mod network;
pub mod selection;

pub use brain::Brain;
pub use chromosome::Chromosome;
pub use crossover::{CrossoverMethod, UniformCrossover};
pub use genetic::GeneticAlgorithm;
pub use individual::Individual;
pub use mutation::{Chance, GaussianMutation, MutationMethod};
pub use network::{count_weights, Layer, LayerTopology, Network, Neuron};
pub use selection::{RouletteWheelSelection, SelectionMethod};
