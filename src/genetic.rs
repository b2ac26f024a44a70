//! Fitness-proportionate selection, uniform crossover and the evolution loop
//! that breeds a new population from an old one.

use vstd::prelude::*;

use crate::entropy::{choose_weighted, coin_flip, weight_sum, Entropy};

verus! {

/// The ways in which a genetic operation can fail.
#[derive(Debug, Clone, Copy, PartialEq, Eq, Structural)]
pub enum GeneticError {
    /// Selection or evolution was asked to work on no individuals.
    EmptyPopulation,
    /// No individual has a positive fitness, so no weighted pick is possible.
    SelectionError,
    /// The parents' chromosomes differ in length.
    CrossoverError,
    /// A mutation was configured with a chance outside `[0, 1]`.
    ValidationError,
}

/// An ordered sequence of genes: one per bias or weight of a brain.
#[derive(Debug)]
pub struct Chromosome<G> {
    genes: Vec<G>,
}

impl<G> View for Chromosome<G> {
    type V = Seq<G>;

    closed spec fn view(&self) -> Seq<G> {
        self.genes@
    }
}

impl<G> Chromosome<G> {
    pub fn from_genes(genes: Vec<G>) -> (r: Self)
        ensures
            r@ == genes@,
    {
        Chromosome { genes }
    }

    pub fn genes(&self) -> (r: &[G])
        ensures
            r@ == self@,
    {
        self.genes.as_slice()
    }

    pub fn len(&self) -> (r: usize)
        ensures
            r == self@.len(),
    {
        self.genes.len()
    }

    pub fn into_genes(self) -> (r: Vec<G>)
        ensures
            r@ == self@,
    {
        self.genes
    }

    /// Replaces the gene at `index`.
    pub fn set_gene(&mut self, index: usize, gene: G)
        requires
            index < old(self)@.len(),
        ensures
            final(self)@ == old(self)@.update(index as int, gene),
    {
        self.genes.set(index, gene);
    }
}

/// A member of a population: it has a fitness and carries a chromosome, and a
/// fresh one can be made from a chromosome.
pub trait Individual<G>: Sized {
    spec fn spec_fitness(&self) -> u32;

    spec fn spec_genes(&self) -> Seq<G>;

    fn fitness(&self) -> (r: u32)
        ensures
            r == self.spec_fitness(),
    ;

    fn chromosome(&self) -> (r: &Chromosome<G>)
        ensures
            r@ == self.spec_genes(),
    ;

    /// A newly created individual carries `chromosome` and has not scored yet.
    fn create(chromosome: Chromosome<G>) -> (r: Self)
        ensures
            r.spec_genes() == chromosome@,
            r.spec_fitness() == 0,
    ;
}

/// The sum of the fitness of a population.
pub open spec fn total_fitness<G, T: Individual<G>>(population: Seq<T>) -> nat
    decreases population.len(),
{
    if population.len() == 0 {
        0
    } else {
        total_fitness::<G, T>(population.drop_last()) + population.last().spec_fitness() as nat
    }
}

/// Some individual of the population has a positive fitness.
pub open spec fn has_positive_fitness<G, T: Individual<G>>(population: Seq<T>) -> bool {
    exists|i: int| 0 <= i < population.len() && (#[trigger] population[i]).spec_fitness() > 0
}

/// All chromosomes of the population have the same length.
pub open spec fn uniform_lengths<G, T: Individual<G>>(population: Seq<T>) -> bool {
    forall|i: int, j: int|
        0 <= i < population.len() && 0 <= j < population.len() ==> (#[trigger] population[i]).spec_genes().len()
            == (#[trigger] population[j]).spec_genes().len()
}

proof fn lemma_wheel_sum<G, T: Individual<G>>(population: Seq<T>, items: Seq<(u128, usize)>)
    requires
        items.len() == population.len(),
        forall|j: int| 0 <= j < items.len() ==> (#[trigger] items[j]).0 == population[j].spec_fitness(),
    ensures
        weight_sum(items) > 0 <==> has_positive_fitness::<G, T>(population),
    decreases items.len(),
{
    if items.len() > 0 {
        let k = items.len() - 1;
        lemma_wheel_sum::<G, T>(population.drop_last(), items.drop_last());
        if has_positive_fitness::<G, T>(population) && weight_sum(items.drop_last()) == 0 {
            let i = choose|i: int| 0 <= i < population.len() && (#[trigger] population[i]).spec_fitness() > 0;
            if i < k {
                assert(population.drop_last()[i] == population[i]);
            }
        }
        if has_positive_fitness::<G, T>(population.drop_last()) {
            let i = choose|i: int|
                0 <= i < population.drop_last().len() && (#[trigger] population.drop_last()[i]).spec_fitness() > 0;
            assert(population[i] == population.drop_last()[i]);
        }
        if items[k].0 > 0 {
            assert(population[k].spec_fitness() > 0);
        }
    }
}

/// Fitness-proportionate ("roulette wheel") selection.
#[derive(Debug, Clone, Copy)]
pub struct RouletteWheelSelection {}

impl RouletteWheelSelection {
    /// Picks one individual with a probability proportional to its fitness.
    pub fn select<'a, G, T: Individual<G>>(&self, rng: &mut Entropy, population: &'a [T]) -> (r: Result<
        &'a T,
        GeneticError,
    >)
        ensures
            population@.len() == 0 <==> r matches Err(GeneticError::EmptyPopulation),
            (population@.len() > 0 && !has_positive_fitness::<G, T>(population@)) <==> r matches Err(
                GeneticError::SelectionError,
            ),
            has_positive_fitness::<G, T>(population@) <==> r is Ok,
            r matches Ok(x) ==> exists|i: int|
                0 <= i < population@.len() && *x == population@[i] && population@[i].spec_fitness() > 0,
    {
        let mut items: Vec<(u128, usize)> = Vec::new();
        let mut total: u128 = 0;
        let mut i: usize = 0;
        while i < population.len()
            invariant
                i <= population@.len(),
                items@.len() == i,
                forall|j: int| 0 <= j < i ==> (#[trigger] items@[j]) == (population@[j].spec_fitness() as u128, j as usize),
                total == weight_sum(items@),
                total <= i * (u32::MAX as nat),
            decreases population@.len() - i,
        {
            let f = population[i].fitness();
            let ghost prev = items@;
            proof {
                assert((i + 1) * (u32::MAX as nat) == i * (u32::MAX as nat) + u32::MAX) by (nonlinear_arith);
                assert((i + 1) * (u32::MAX as nat) <= u128::MAX) by (nonlinear_arith)
                    requires
                        i < usize::MAX,
                ;
            }
            items.push((f as u128, i));
            assert(items@.drop_last() =~= prev);
            total = total + f as u128;
            i = i + 1;
        }
        proof {
            lemma_wheel_sum::<G, T>(population@, items@);
        }
        if population.len() == 0 {
            return Err(GeneticError::EmptyPopulation);
        }
        match choose_weighted(rng, items.as_slice()) {
            Ok(p) => {
                proof {
                    let j = choose|j: int| 0 <= j < items@.len() && items@[j] == p;
                    assert(items@[j] == p);
                }
                Ok(&population[p.1])
            },
            Err(_) => Err(GeneticError::SelectionError),
        }
    }
}

/// Uniform crossover: each gene of the child comes from either parent with
/// equal probability.
#[derive(Debug, Clone, Copy)]
pub struct UniformCrossover;

impl UniformCrossover {
    /// Crosses two parents of equal length with the coins already drawn: the
    /// child's gene `i` is `parent_a`'s where `coins[i]` is true and
    /// `parent_b`'s otherwise.
    pub fn mix_with_coins<G: Copy>(
        coins: &[bool],
        parent_a: &Chromosome<G>,
        parent_b: &Chromosome<G>,
    ) -> (r: Result<Chromosome<G>, GeneticError>)
        ensures
            (parent_a@.len() == parent_b@.len() && coins@.len() == parent_a@.len()) <==> r is Ok,
            r is Err ==> r matches Err(GeneticError::CrossoverError),
            r matches Ok(child) ==> child@.len() == parent_a@.len() && forall|i: int|
                0 <= i < child@.len() ==> child@[i] == if coins@[i] {
                    parent_a@[i]
                } else {
                    parent_b@[i]
                },
    {
        let a = parent_a.genes();
        let b = parent_b.genes();
        if a.len() != b.len() || coins.len() != a.len() {
            return Err(GeneticError::CrossoverError);
        }
        let mut genes: Vec<G> = Vec::new();
        let mut i: usize = 0;
        while i < a.len()
            invariant
                a@ == parent_a@,
                b@ == parent_b@,
                a@.len() == b@.len(),
                coins@.len() == a@.len(),
                i <= a@.len(),
                genes@.len() == i,
                forall|j: int| 0 <= j < i ==> genes@[j] == if coins@[j] {
                    a@[j]
                } else {
                    b@[j]
                },
            decreases a@.len() - i,
        {
            if coins[i] {
                genes.push(a[i]);
            } else {
                genes.push(b[i]);
            }
            i = i + 1;
        }
        Ok(Chromosome::from_genes(genes))
    }

    /// Uniform crossover: one fair coin per gene decides which parent gives it.
    pub fn mix_parents<G: Copy>(
        &self,
        rng: &mut Entropy,
        parent_a: &Chromosome<G>,
        parent_b: &Chromosome<G>,
    ) -> (r: Result<Chromosome<G>, GeneticError>)
        ensures
            parent_a@.len() == parent_b@.len() <==> r is Ok,
            r is Err ==> r matches Err(GeneticError::CrossoverError),
            r matches Ok(child) ==> child@.len() == parent_a@.len() && forall|i: int|
                0 <= i < child@.len() ==> child@[i] == parent_a@[i] || child@[i] == parent_b@[i],
    {
        if parent_a.len() != parent_b.len() {
            return Err(GeneticError::CrossoverError);
        }
        let n = parent_a.len();
        let mut coins: Vec<bool> = Vec::new();
        let mut i: usize = 0;
        while i < n
            invariant
                i <= n,
                coins@.len() == i,
            decreases n - i,
        {
            coins.push(coin_flip(rng));
            i = i + 1;
        }
        Self::mix_with_coins(coins.as_slice(), parent_a, parent_b)
    }
}

/// A perturbation applied in place to a freshly crossed-over chromosome. It
/// changes genes, never their number.
pub trait Mutation<G> {
    /// `after` is a possible outcome of mutating `before`. Unless a strategy
    /// says more, all that is known is that the length is kept.
    open spec fn spec_mutated(&self, before: Seq<G>, after: Seq<G>) -> bool {
        before.len() == after.len()
    }

    fn mutate(&self, rng: &mut Entropy, child: &mut Chromosome<G>)
        ensures
            final(child)@.len() == old(child)@.len(),
            self.spec_mutated(old(child)@, final(child)@),
    ;
}

/// The fitness of each individual of a population.
pub open spec fn fitness_of<G, T: Individual<G>>(population: Seq<T>) -> Seq<u32> {
    Seq::new(population.len(), |i: int| population[i].spec_fitness())
}

/// The genes of each individual of a population.
pub open spec fn genomes_of<G, T: Individual<G>>(population: Seq<T>) -> Seq<Seq<G>> {
    Seq::new(population.len(), |i: int| population[i].spec_genes())
}

/// `child` can be bred from the parent pool: two parents `a` and `b` (possibly
/// the same) of positive fitness and of one length, a crossing `x` that takes
/// each gene from one of them, and `child` a mutation of `x`.
pub open spec fn bred_from<G, M: Mutation<G>>(
    mutation: M,
    fitness: Seq<u32>,
    genomes: Seq<Seq<G>>,
    child: Seq<G>,
) -> bool {
    exists|a: int, b: int, x: Seq<G>|
        #![trigger genomes[a], genomes[b], mutation.spec_mutated(x, child)]
        0 <= a < genomes.len() && 0 <= b < genomes.len() && a < fitness.len() && b < fitness.len()
            && fitness[a] > 0 && fitness[b] > 0 && x.len() == genomes[a].len() && x.len()
            == genomes[b].len() && (forall|j: int|
            0 <= j < x.len() ==> x[j] == genomes[a][j] || x[j] == genomes[b][j])
            && mutation.spec_mutated(x, child)
}

/// A genetic algorithm bound once to its strategies: roulette-wheel selection,
/// uniform crossover and the mutation `M`.
pub struct GeneticAlgorithm<M> {
    selection_method: RouletteWheelSelection,
    crossover_algorithm: UniformCrossover,
    mutation_algorithm: M,
}

impl<M> GeneticAlgorithm<M> {
    /// The mutation strategy the algorithm was bound to.
    pub closed spec fn spec_mutation(&self) -> M {
        self.mutation_algorithm
    }

    pub fn new(
        selection_method: RouletteWheelSelection,
        crossover_algorithm: UniformCrossover,
        mutation_algorithm: M,
    ) -> (r: Self)
        ensures
            r.spec_mutation() == mutation_algorithm,
    {
        GeneticAlgorithm { selection_method, crossover_algorithm, mutation_algorithm }
    }

    /// Breeds a population of the same size: each child comes from two parents
    /// picked independently by selection, crossed over, then mutated. Any
    /// failure aborts the whole call.
    pub fn evolve<G: Copy, T: Individual<G>>(&self, population: &[T], rng: &mut Entropy) -> (r: Result<
        Vec<T>,
        GeneticError,
    >) where M: Mutation<G>
        ensures
            population@.len() == 0 <==> r matches Err(GeneticError::EmptyPopulation),
            (population@.len() > 0 && !has_positive_fitness::<G, T>(population@)) <==> r matches Err(
                GeneticError::SelectionError,
            ),
            r matches Err(GeneticError::CrossoverError) ==> !uniform_lengths::<G, T>(population@),
            !(r matches Err(GeneticError::ValidationError)),
            has_positive_fitness::<G, T>(population@) && uniform_lengths::<G, T>(population@) ==> r is Ok,
            r matches Ok(children) ==> children@.len() == population@.len() && forall|i: int|
                0 <= i < children@.len() ==> (#[trigger] children@[i]).spec_fitness() == 0,
            uniform_lengths::<G, T>(population@) ==> (r matches Ok(children) ==> forall|i: int|
                0 <= i < children@.len() ==> (#[trigger] children@[i]).spec_genes().len()
                    == population@[0].spec_genes().len()),
            r matches Ok(children) ==> forall|i: int|
                0 <= i < children@.len() ==> bred_from(
                    self.spec_mutation(),
                    fitness_of::<G, T>(population@),
                    genomes_of::<G, T>(population@),
                    (#[trigger] children@[i]).spec_genes(),
                ),
    {
        if population.len() == 0 {
            return Err(GeneticError::EmptyPopulation);
        }
        let mut children: Vec<T> = Vec::new();
        let mut k: usize = 0;
        while k < population.len()
            invariant
                k <= population@.len(),
                population@.len() > 0,
                children@.len() == k,
                k > 0 ==> has_positive_fitness::<G, T>(population@),
                forall|i: int| 0 <= i < k ==> (#[trigger] children@[i]).spec_fitness() == 0,
                uniform_lengths::<G, T>(population@) ==> forall|i: int|
                    0 <= i < k ==> (#[trigger] children@[i]).spec_genes().len()
                        == population@[0].spec_genes().len(),
                forall|i: int|
                    0 <= i < k ==> bred_from(
                        self.spec_mutation(),
                        fitness_of::<G, T>(population@),
                        genomes_of::<G, T>(population@),
                        (#[trigger] children@[i]).spec_genes(),
                    ),
            decreases population@.len() - k,
        {
            let parent_a = match self.selection_method.select(rng, population) {
                Ok(p) => p,
                Err(e) => {
                    return Err(e);
                },
            };
            let parent_b = match self.selection_method.select(rng, population) {
                Ok(p) => p,
                Err(e) => {
                    return Err(e);
                },
            };
            let ghost a = choose|i: int|
                0 <= i < population@.len() && *parent_a == population@[i] && population@[i].spec_fitness() > 0;
            let ghost b = choose|i: int|
                0 <= i < population@.len() && *parent_b == population@[i] && population@[i].spec_fitness() > 0;
            let mut child = match self.crossover_algorithm.mix_parents(
                rng,
                parent_a.chromosome(),
                parent_b.chromosome(),
            ) {
                Ok(c) => c,
                Err(e) => {
                    return Err(e);
                },
            };
            let ghost crossed = child@;
            self.mutation_algorithm.mutate(rng, &mut child);
            proof {
                let fitness = fitness_of::<G, T>(population@);
                let genomes = genomes_of::<G, T>(population@);
                assert(genomes[a] == population@[a].spec_genes());
                assert(genomes[b] == population@[b].spec_genes());
                assert(fitness[a] > 0 && fitness[b] > 0);
                assert(bred_from(self.spec_mutation(), fitness, genomes, child@));
            }
            let ghost prev = children@;
            children.push(T::create(child));
            proof {
                assert forall|i: int| 0 <= i < children@.len() implies bred_from(
                    self.spec_mutation(),
                    fitness_of::<G, T>(population@),
                    genomes_of::<G, T>(population@),
                    (#[trigger] children@[i]).spec_genes(),
                ) by {
                    if i < k {
                        assert(children@[i] == prev[i]);
                    }
                }
            }
            k = k + 1;
        }
        Ok(children)
    }
}

} // verus!
