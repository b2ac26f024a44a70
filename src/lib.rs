//! An evolutionary simulation engine: feed-forward brains encoded as flat
//! gene sequences, bred by roulette-wheel selection and uniform crossover,
//! generation after generation.
//!
//! The engine is generic over the gene type; the arithmetic on genes (network
//! evaluation, mutation) and the geometry of the world belong to the host.

pub mod animal;
pub mod entropy;
pub mod generation;
pub mod genetic;
pub mod network;
pub mod simulation;
pub mod statistics;

pub use animal::{AnimalIndividual, Brain};
pub use entropy::Entropy;
pub use generation::GenerationClock;
pub use genetic::{
    Chromosome, GeneticAlgorithm, GeneticError, Individual, Mutation, RouletteWheelSelection,
    UniformCrossover,
};
pub use network::{Layer, LayerTopology, NetworkError, NeuralNetwork, Neuron};
pub use simulation::{evolve_brains, next_generation, SimulationError};
pub use statistics::Statistics;
