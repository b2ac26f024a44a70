//! The heritable part of an animal: its brain, the brain's fixed topology, and
//! the individual that carries the brain's genes through evolution.

use vstd::prelude::*;

use crate::genetic::{Chromosome, Individual};
use crate::network::{
    decode, lemma_weights_round_trip, network_genes, required_genes, shaped_like, LayerTopology,
    NetworkError, NeuralNetwork,
};

verus! {

/// Neurons in the hidden layer of every brain.
pub const HIDDEN_NEURONS: usize = 10;

/// Outputs of every brain: a change of speed and a change of rotation.
pub const OUTPUT_NEURONS: usize = 2;

/// The topology of the brain of an animal whose eye has `cells` cells: one
/// input per cell, a hidden layer, and the two outputs.
pub open spec fn brain_topology(cells: usize) -> Seq<LayerTopology> {
    seq![
        LayerTopology { neurons: cells },
        LayerTopology { neurons: HIDDEN_NEURONS },
        LayerTopology { neurons: OUTPUT_NEURONS },
    ]
}

/// A network shaped by `brain_topology` for the eye it reads from.
#[derive(Debug)]
pub struct Brain<G> {
    cells: usize,
    neural_network: NeuralNetwork<G>,
}

impl<G> View for Brain<G> {
    type V = Seq<Seq<(G, Seq<G>)>>;

    closed spec fn view(&self) -> Seq<Seq<(G, Seq<G>)>> {
        self.neural_network@
    }
}

impl<G> Brain<G> {
    #[verifier::type_invariant]
    closed spec fn well_shaped(self) -> bool {
        shaped_like(self.neural_network@, brain_topology(self.cells))
    }

    /// The number of eye cells the brain reads.
    pub closed spec fn spec_cells(&self) -> usize {
        self.cells
    }

    pub fn topology(cells: usize) -> (r: Vec<LayerTopology>)
        ensures
            r@ == brain_topology(cells),
    {
        let r = vec![
            LayerTopology { neurons: cells },
            LayerTopology { neurons: HIDDEN_NEURONS },
            LayerTopology { neurons: OUTPUT_NEURONS },
        ];
        assert(r@ =~= brain_topology(cells));
        r
    }

    pub fn cells(&self) -> (r: usize)
        ensures
            r == self.spec_cells(),
    {
        self.cells
    }

    pub fn network(&self) -> (r: &NeuralNetwork<G>)
        ensures
            r@ == self@,
    {
        &self.neural_network
    }
}

impl<G: Copy> Brain<G> {
    /// Builds the brain for an eye of `cells` cells from a chromosome that
    /// holds exactly the genes its topology needs.
    pub fn from_chromosome(cells: usize, chromosome: &Chromosome<G>) -> (r: Result<Self, NetworkError>)
        ensures
            required_genes(brain_topology(cells)) > usize::MAX <==> r matches Err(NetworkError::TooLarge),
            (required_genes(brain_topology(cells)) <= usize::MAX && chromosome@.len() != required_genes(
                brain_topology(cells),
            )) <==> r matches Err(NetworkError::DimensionMismatch),
            !(r matches Err(NetworkError::TooFewLayers)),
            r is Ok <==> chromosome@.len() == required_genes(brain_topology(cells)),
            r matches Ok(b) ==> b.spec_cells() == cells && b@ == decode(brain_topology(cells), chromosome@),
    {
        let have = chromosome.len();
        let topology = Self::topology(cells);
        let need = match NeuralNetwork::<G>::gene_count(topology.as_slice()) {
            Ok(n) => n,
            Err(e) => {
                return Err(e);
            },
        };
        if have != need {
            return Err(NetworkError::DimensionMismatch);
        }
        match NeuralNetwork::from_weights(topology.as_slice(), chromosome.genes()) {
            Ok(neural_network) => Ok(Brain { cells, neural_network }),
            Err(e) => Err(e),
        }
    }

    /// The brain's genes: its network's weights, in the network's order.
    /// Read back with the topology for the same eye, they give this brain.
    pub fn as_chromosome(&self) -> (r: Chromosome<G>)
        ensures
            r@ == network_genes(self@),
            r@.len() == required_genes(brain_topology(self.spec_cells())),
            decode(brain_topology(self.spec_cells()), r@) == self@,
    {
        proof {
            use_type_invariant(self);
            lemma_weights_round_trip(self@, brain_topology(self.cells));
        }
        Chromosome::from_genes(self.neural_network.weights())
    }
}

/// An animal as the genetic algorithm sees it: its score and its brain's genes.
#[derive(Debug)]
pub struct AnimalIndividual<G> {
    fitness: u32,
    chromosome: Chromosome<G>,
}

impl<G> Individual<G> for AnimalIndividual<G> {
    closed spec fn spec_fitness(&self) -> u32 {
        self.fitness
    }

    closed spec fn spec_genes(&self) -> Seq<G> {
        self.chromosome@
    }

    fn fitness(&self) -> (r: u32) {
        self.fitness
    }

    fn chromosome(&self) -> (r: &Chromosome<G>) {
        &self.chromosome
    }

    fn create(chromosome: Chromosome<G>) -> (r: Self) {
        AnimalIndividual { fitness: 0, chromosome }
    }
}

impl<G> AnimalIndividual<G> {
    pub fn new(fitness: u32, chromosome: Chromosome<G>) -> (r: Self)
        ensures
            r.spec_fitness() == fitness,
            r.spec_genes() == chromosome@,
    {
        AnimalIndividual { fitness, chromosome }
    }
}

impl<G: Copy> AnimalIndividual<G> {
    /// The individual of an animal with this score and brain.
    pub fn from_brain(score: u32, brain: &Brain<G>) -> (r: Self)
        ensures
            r.spec_fitness() == score,
            r.spec_genes() == network_genes(brain@),
            r.spec_genes().len() == required_genes(brain_topology(brain.spec_cells())),
    {
        AnimalIndividual { fitness: score, chromosome: brain.as_chromosome() }
    }

    /// The brain this individual's genes describe, for an eye of `cells` cells.
    pub fn to_brain(&self, cells: usize) -> (r: Result<Brain<G>, NetworkError>)
        ensures
            r is Ok <==> self.spec_genes().len() == required_genes(brain_topology(cells)),
            required_genes(brain_topology(cells)) > usize::MAX <==> r matches Err(NetworkError::TooLarge),
            (required_genes(brain_topology(cells)) <= usize::MAX && self.spec_genes().len()
                != required_genes(brain_topology(cells))) <==> r matches Err(NetworkError::DimensionMismatch),
            r matches Ok(b) ==> b.spec_cells() == cells && b@ == decode(brain_topology(cells), self.spec_genes()),
    {
        Brain::from_chromosome(cells, &self.chromosome)
    }
}

} // verus!
