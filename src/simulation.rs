//! The generation boundary of the simulation: the animals' brains bred into
//! the brains of the next generation.

use vstd::prelude::*;

use crate::animal::{brain_topology, AnimalIndividual, Brain};
use crate::entropy::Entropy;
use crate::genetic::{
    bred_from, fitness_of, genomes_of, has_positive_fitness, uniform_lengths, GeneticAlgorithm,
    GeneticError, Individual, Mutation,
};
use crate::network::{decode, network_genes, required_genes, NetworkError};

verus! {

/// A failure at a generation boundary; the generation must not go on.
#[derive(Debug, Clone, Copy, PartialEq, Eq, Structural)]
pub enum SimulationError {
    Genetic(GeneticError),
    Network(NetworkError),
}

/// Every individual carries exactly the genes of a brain for an eye of
/// `cells` cells.
pub open spec fn carries_brain_genes<G>(population: Seq<AnimalIndividual<G>>, cells: usize) -> bool {
    forall|i: int|
        0 <= i < population.len() ==> (#[trigger] population[i]).spec_genes().len() == required_genes(
            brain_topology(cells),
        )
}

/// `brain` is the network, for eyes of `cells` cells, of genes bred from the
/// parent pool.
pub open spec fn bred_brain<G, M: Mutation<G>>(
    mutation: M,
    fitness: Seq<u32>,
    genomes: Seq<Seq<G>>,
    cells: usize,
    brain: Seq<Seq<(G, Seq<G>)>>,
) -> bool {
    exists|g: Seq<G>| bred_from(mutation, fitness, genomes, g) && brain == decode(brain_topology(cells), g)
}

/// Breeds one brain per individual of the population, for eyes of `cells`
/// cells. Any failure of selection, crossover or decoding fails the whole
/// generation.
pub fn evolve_brains<G: Copy, M: Mutation<G>>(
    algorithm: &GeneticAlgorithm<M>,
    cells: usize,
    population: &[AnimalIndividual<G>],
    rng: &mut Entropy,
) -> (r: Result<Vec<Brain<G>>, SimulationError>)
    ensures
        population@.len() == 0 <==> r == Err::<Vec<Brain<G>>, _>(
            SimulationError::Genetic(GeneticError::EmptyPopulation),
        ),
        (population@.len() > 0 && !has_positive_fitness::<G, AnimalIndividual<G>>(population@)) <==> r
            == Err::<Vec<Brain<G>>, _>(SimulationError::Genetic(GeneticError::SelectionError)),
        has_positive_fitness::<G, AnimalIndividual<G>>(population@) && carries_brain_genes(population@, cells)
            ==> r is Ok,
        has_positive_fitness::<G, AnimalIndividual<G>>(population@) && uniform_lengths::<
            G,
            AnimalIndividual<G>,
        >(population@) && !carries_brain_genes(population@, cells) ==> r == Err::<Vec<Brain<G>>, _>(
            SimulationError::Network(
                if required_genes(brain_topology(cells)) > usize::MAX {
                    NetworkError::TooLarge
                } else {
                    NetworkError::DimensionMismatch
                },
            ),
        ),
        r matches Ok(brains) ==> brains@.len() == population@.len() && forall|i: int|
            0 <= i < brains@.len() ==> (#[trigger] brains@[i]).spec_cells() == cells,
        r matches Ok(brains) ==> forall|i: int|
            0 <= i < brains@.len() ==> bred_brain(
                algorithm.spec_mutation(),
                fitness_of::<G, AnimalIndividual<G>>(population@),
                genomes_of::<G, AnimalIndividual<G>>(population@),
                cells,
                (#[trigger] brains@[i])@,
            ),
{
    let children = match algorithm.evolve(population, rng) {
        Ok(c) => c,
        Err(e) => {
            return Err(SimulationError::Genetic(e));
        },
    };
    let mut brains: Vec<Brain<G>> = Vec::new();
    let mut i: usize = 0;
    while i < children.len()
        invariant
            children@.len() == population@.len(),
            has_positive_fitness::<G, AnimalIndividual<G>>(population@),
            carries_brain_genes(population@, cells) ==> forall|j: int|
                0 <= j < children@.len() ==> (#[trigger] children@[j]).spec_genes().len() == required_genes(
                    brain_topology(cells),
                ),
            i <= children@.len(),
            brains@.len() == i,
            forall|j: int| 0 <= j < i ==> (#[trigger] brains@[j]).spec_cells() == cells,
            forall|j: int|
                0 <= j < children@.len() ==> bred_from(
                    algorithm.spec_mutation(),
                    fitness_of::<G, AnimalIndividual<G>>(population@),
                    genomes_of::<G, AnimalIndividual<G>>(population@),
                    (#[trigger] children@[j]).spec_genes(),
                ),
            forall|j: int|
                0 <= j < i ==> (#[trigger] brains@[j])@ == decode(
                    brain_topology(cells),
                    children@[j].spec_genes(),
                ),
            uniform_lengths::<G, AnimalIndividual<G>>(population@) ==> forall|j: int|
                0 <= j < children@.len() ==> (#[trigger] children@[j]).spec_genes().len()
                    == population@[0].spec_genes().len(),
            uniform_lengths::<G, AnimalIndividual<G>>(population@) && !carries_brain_genes(population@, cells)
                ==> i == 0,
        decreases children@.len() - i,
    {
        proof {
            if uniform_lengths::<G, AnimalIndividual<G>>(population@) && !carries_brain_genes(population@, cells) {
                let j = choose|j: int|
                    0 <= j < population@.len() && (#[trigger] population@[j]).spec_genes().len()
                        != required_genes(brain_topology(cells));
                assert(population@[j].spec_genes().len() == population@[0].spec_genes().len());
                assert(children@[i as int].spec_genes().len() != required_genes(brain_topology(cells)));
            }
        }
        match children[i].to_brain(cells) {
            Ok(b) => brains.push(b),
            Err(e) => {
                return Err(SimulationError::Network(e));
            },
        }
        i = i + 1;
    }
    proof {
        assert forall|j: int| 0 <= j < brains@.len() implies bred_brain(
            algorithm.spec_mutation(),
            fitness_of::<G, AnimalIndividual<G>>(population@),
            genomes_of::<G, AnimalIndividual<G>>(population@),
            cells,
            (#[trigger] brains@[j])@,
        ) by {
            let g = children@[j].spec_genes();
            assert(j < children@.len());
            assert(brains@[j]@ == decode(brain_topology(cells), g));
            assert(bred_from(
                algorithm.spec_mutation(),
                fitness_of::<G, AnimalIndividual<G>>(population@),
                genomes_of::<G, AnimalIndividual<G>>(population@),
                g,
            ));
        }
    }
    Ok(brains)
}

/// The scores of a population of scored brains.
pub open spec fn scores_of<G>(population: Seq<(u32, Brain<G>)>) -> Seq<u32> {
    Seq::new(population.len(), |i: int| population[i].0)
}

/// The genes of the brains of a population of scored brains.
pub open spec fn brain_genomes_of<G>(population: Seq<(u32, Brain<G>)>) -> Seq<Seq<G>> {
    Seq::new(population.len(), |i: int| network_genes(population[i].1@))
}

/// Ends a generation: breeds one brain per animal, each animal given as its
/// score and its brain. As long as some animal scored and every brain reads
/// an eye of `cells` cells, as many brains come back as animals went in.
pub fn next_generation<G: Copy, M: Mutation<G>>(
    algorithm: &GeneticAlgorithm<M>,
    cells: usize,
    population: &[(u32, Brain<G>)],
    rng: &mut Entropy,
) -> (r: Result<Vec<Brain<G>>, SimulationError>)
    ensures
        population@.len() == 0 <==> r == Err::<Vec<Brain<G>>, _>(
            SimulationError::Genetic(GeneticError::EmptyPopulation),
        ),
        (population@.len() > 0 && forall|i: int| 0 <= i < population@.len() ==> (#[trigger] population@[i]).0 == 0)
            <==> r == Err::<Vec<Brain<G>>, _>(SimulationError::Genetic(GeneticError::SelectionError)),
        (exists|i: int| 0 <= i < population@.len() && (#[trigger] population@[i]).0 > 0) && (forall|i: int|
            0 <= i < population@.len() ==> (#[trigger] population@[i]).1.spec_cells() == cells) ==> r is Ok,
        r matches Ok(brains) ==> brains@.len() == population@.len() && forall|i: int|
            0 <= i < brains@.len() ==> (#[trigger] brains@[i]).spec_cells() == cells,
        r matches Ok(brains) ==> forall|i: int|
            0 <= i < brains@.len() ==> bred_brain(
                algorithm.spec_mutation(),
                scores_of(population@),
                brain_genomes_of(population@),
                cells,
                (#[trigger] brains@[i])@,
            ),
{
    let mut individuals: Vec<AnimalIndividual<G>> = Vec::new();
    let mut i: usize = 0;
    while i < population.len()
        invariant
            i <= population@.len(),
            individuals@.len() == i,
            forall|j: int|
                0 <= j < i ==> (#[trigger] individuals@[j]).spec_fitness() == population@[j].0
                    && individuals@[j].spec_genes() == network_genes(population@[j].1@)
                    && individuals@[j].spec_genes().len() == required_genes(
                    brain_topology(population@[j].1.spec_cells()),
                ),
        decreases population@.len() - i,
    {
        individuals.push(AnimalIndividual::from_brain(population[i].0, &population[i].1));
        i = i + 1;
    }
    let ghost pool = individuals@;
    proof {
        assert(fitness_of::<G, AnimalIndividual<G>>(pool) =~= scores_of(population@));
        assert(genomes_of::<G, AnimalIndividual<G>>(pool) =~= brain_genomes_of(population@));
        if exists|j: int| 0 <= j < population@.len() && (#[trigger] population@[j]).0 > 0 {
            let j = choose|j: int| 0 <= j < population@.len() && (#[trigger] population@[j]).0 > 0;
            assert(pool[j].spec_fitness() > 0);
        }
        if has_positive_fitness::<G, AnimalIndividual<G>>(pool) {
            let j = choose|j: int| 0 <= j < pool.len() && (#[trigger] pool[j]).spec_fitness() > 0;
            assert(population@[j].0 > 0);
        }
    }
    evolve_brains(algorithm, cells, individuals.as_slice(), rng)
}

} // verus!
