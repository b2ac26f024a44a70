use std::collections::BTreeMap;

use lib_simulation::{
    AnimalIndividual, Chromosome, Entropy, GeneticAlgorithm, GeneticError, Individual, Mutation,
    RouletteWheelSelection, UniformCrossover,
};
use rand_chacha::ChaCha8Rng;
use rand::SeedableRng;

struct KeepGenes;

impl Mutation<f32> for KeepGenes {
    fn mutate(&self, _rng: &mut Entropy, _child: &mut Chromosome<f32>) {}
}

fn individual(fitness: u32, genes: Vec<f32>) -> AnimalIndividual<f32> {
    AnimalIndividual::new(fitness, Chromosome::from_genes(genes))
}

fn histogram() -> BTreeMap<u32, u32> {
    let mut rng = ChaCha8Rng::from_seed(Default::default());
    let population = vec![
        individual(4, vec![]),
        individual(1, vec![]),
        individual(5, vec![]),
        individual(10, vec![]),
    ];
    let selection_method = RouletteWheelSelection {};
    let mut counts = BTreeMap::new();
    for _ in 0..100 {
        let fitness = selection_method
            .select(&mut rng, &population)
            .expect("Failed to apply selection in tests")
            .fitness();
        *counts.entry(fitness).or_insert(0) += 1;
    }
    counts
}

#[test]
fn roulette_wheel_selection_histogram_is_reproducible() {
    let actual_histogram = histogram();
    let expected_histogram = BTreeMap::from_iter([(10, 47), (5, 28), (4, 23), (1, 2)]);
    assert_eq!(actual_histogram, expected_histogram);
    assert_eq!(histogram(), actual_histogram);
}

#[test]
fn roulette_wheel_selection_on_empty_population_fails() {
    let mut rng = ChaCha8Rng::seed_from_u64(1);
    let population: Vec<AnimalIndividual<f32>> = vec![];
    assert!(matches!(
        RouletteWheelSelection {}.select(&mut rng, &population),
        Err(GeneticError::EmptyPopulation)
    ));
}

#[test]
fn roulette_wheel_selection_with_no_positive_fitness_fails() {
    let mut rng = ChaCha8Rng::seed_from_u64(1);
    let population = vec![individual(0, vec![1.0]), individual(0, vec![2.0])];
    assert!(matches!(
        RouletteWheelSelection {}.select(&mut rng, &population),
        Err(GeneticError::SelectionError)
    ));
}

#[test]
fn roulette_wheel_selection_never_picks_zero_fitness() {
    let mut rng = ChaCha8Rng::seed_from_u64(7);
    let population = vec![individual(0, vec![1.0]), individual(0, vec![2.0]), individual(3, vec![3.0])];
    for _ in 0..50 {
        let picked = RouletteWheelSelection {}.select(&mut rng, &population).unwrap();
        assert_eq!(picked.fitness(), 3);
        assert_eq!(picked.chromosome().genes(), &[3.0]);
    }
}

#[test]
fn uniform_crossover_on_mismatched_lengths_fails() {
    let mut rng = ChaCha8Rng::seed_from_u64(3);
    let a = Chromosome::from_genes(vec![1.0f32, 2.0, 3.0]);
    let b = Chromosome::from_genes(vec![1.0f32, 2.0]);
    assert!(matches!(
        UniformCrossover.mix_parents(&mut rng, &a, &b),
        Err(GeneticError::CrossoverError)
    ));
}

#[test]
fn uniform_crossover_takes_each_gene_from_a_parent() {
    let mut rng = ChaCha8Rng::seed_from_u64(3);
    let a_genes: Vec<f32> = (0..100).map(|i| i as f32).collect();
    let b_genes: Vec<f32> = (0..100).map(|i| -(i as f32) - 1.0).collect();
    let a = Chromosome::from_genes(a_genes.clone());
    let b = Chromosome::from_genes(b_genes.clone());
    let child = UniformCrossover.mix_parents(&mut rng, &a, &b).unwrap();
    assert_eq!(child.len(), 100);
    let mut from_a = 0;
    let mut from_b = 0;
    for (i, gene) in child.genes().iter().enumerate() {
        if *gene == a_genes[i] {
            from_a += 1;
        } else {
            assert_eq!(*gene, b_genes[i]);
            from_b += 1;
        }
    }
    assert!(from_a > 0);
    assert!(from_b > 0);
}

#[test]
fn uniform_crossover_of_empty_chromosomes_is_empty() {
    let mut rng = ChaCha8Rng::seed_from_u64(3);
    let a: Chromosome<f32> = Chromosome::from_genes(vec![]);
    let b: Chromosome<f32> = Chromosome::from_genes(vec![]);
    assert_eq!(UniformCrossover.mix_parents(&mut rng, &a, &b).unwrap().len(), 0);
}

#[test]
fn chromosome_set_gene_replaces_one_gene() {
    let mut c = Chromosome::from_genes(vec![1.0f32, 2.0, 3.0]);
    c.set_gene(1, 9.0);
    assert_eq!(c.into_genes(), vec![1.0, 9.0, 3.0]);
}

fn algorithm() -> GeneticAlgorithm<KeepGenes> {
    GeneticAlgorithm::new(RouletteWheelSelection {}, UniformCrossover, KeepGenes)
}

#[test]
fn evolve_on_empty_population_fails() {
    let mut rng = ChaCha8Rng::seed_from_u64(5);
    let population: Vec<AnimalIndividual<f32>> = vec![];
    assert!(matches!(
        algorithm().evolve(&population, &mut rng),
        Err(GeneticError::EmptyPopulation)
    ));
}

#[test]
fn evolve_with_no_positive_fitness_fails() {
    let mut rng = ChaCha8Rng::seed_from_u64(5);
    let population = vec![individual(0, vec![1.0]), individual(0, vec![2.0])];
    assert!(matches!(
        algorithm().evolve(&population, &mut rng),
        Err(GeneticError::SelectionError)
    ));
}

#[test]
fn evolve_preserves_population_size() {
    let mut rng = ChaCha8Rng::seed_from_u64(5);
    let population: Vec<AnimalIndividual<f32>> = (0..7)
        .map(|i| individual(i, vec![i as f32, 10.0 + i as f32, 20.0 + i as f32]))
        .collect();
    let mut current = population;
    for generation in 0..5u32 {
        let children = algorithm().evolve(&current, &mut rng).unwrap();
        assert_eq!(children.len(), 7);
        for child in &children {
            assert_eq!(child.fitness(), 0);
            assert_eq!(child.chromosome().len(), 3);
        }
        current = children
            .iter()
            .enumerate()
            .map(|(i, c)| individual(i as u32 + generation + 1, c.chromosome().genes().to_vec()))
            .collect();
    }
}

#[test]
fn evolve_without_mutation_keeps_parent_genes_in_place() {
    let mut rng = ChaCha8Rng::seed_from_u64(11);
    let population = vec![
        individual(1, vec![0.0, 1.0, 2.0, 3.0]),
        individual(2, vec![10.0, 11.0, 12.0, 13.0]),
        individual(0, vec![20.0, 21.0, 22.0, 23.0]),
    ];
    let children = algorithm().evolve(&population, &mut rng).unwrap();
    assert_eq!(children.len(), 3);
    for child in &children {
        for (i, gene) in child.chromosome().genes().iter().enumerate() {
            assert!(*gene == i as f32 || *gene == 10.0 + i as f32);
        }
    }
}

#[test]
fn created_individual_has_not_scored() {
    let created = AnimalIndividual::create(Chromosome::from_genes(vec![1.0f32, 2.0]));
    assert_eq!(created.fitness(), 0);
    assert_eq!(created.chromosome().genes(), &[1.0, 2.0]);
}

#[test]
fn mix_with_coins_takes_a_where_the_coin_is_true() {
    let a = Chromosome::from_genes(vec![1.0f32, 2.0, 3.0, 4.0]);
    let b = Chromosome::from_genes(vec![-1.0f32, -2.0, -3.0, -4.0]);
    let child = UniformCrossover::mix_with_coins(&[true, false, false, true], &a, &b).unwrap();
    assert_eq!(child.into_genes(), vec![1.0, -2.0, -3.0, 4.0]);
    let all_b = UniformCrossover::mix_with_coins(&[false; 4], &a, &b).unwrap();
    assert_eq!(all_b.into_genes(), vec![-1.0, -2.0, -3.0, -4.0]);
}

#[test]
fn mix_with_coins_of_the_wrong_count_fails() {
    let a = Chromosome::from_genes(vec![1.0f32, 2.0]);
    let b = Chromosome::from_genes(vec![3.0f32, 4.0]);
    assert!(matches!(
        UniformCrossover::mix_with_coins(&[true], &a, &b),
        Err(GeneticError::CrossoverError)
    ));
    let c = Chromosome::from_genes(vec![3.0f32]);
    assert!(matches!(
        UniformCrossover::mix_with_coins(&[true, true], &a, &c),
        Err(GeneticError::CrossoverError)
    ));
}
