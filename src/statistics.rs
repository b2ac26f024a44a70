//! A summary of a population's fitness at a generation boundary.

use vstd::prelude::*;

use crate::genetic::{total_fitness, Individual};

verus! {

/// The lowest, highest and summed fitness of one generation. The average is
/// `total_score / population_size`.
#[derive(Debug, Clone, Copy, PartialEq, Eq)]
pub struct Statistics {
    pub min_score: u32,
    pub max_score: u32,
    pub total_score: u128,
    pub population_size: usize,
}

impl Statistics {
    /// Summarises the population; the lowest and highest scores of an empty
    /// population are 0.
    pub fn from_population<G, T: Individual<G>>(population: &[T]) -> (r: Statistics)
        ensures
            r.population_size == population@.len(),
            r.total_score == total_fitness::<G, T>(population@),
            population@.len() == 0 ==> r.min_score == 0 && r.max_score == 0,
            forall|i: int|
                0 <= i < population@.len() ==> r.min_score <= (#[trigger] population@[i]).spec_fitness()
                    <= r.max_score,
            population@.len() > 0 ==> exists|i: int|
                0 <= i < population@.len() && (#[trigger] population@[i]).spec_fitness() == r.min_score,
            population@.len() > 0 ==> exists|i: int|
                0 <= i < population@.len() && (#[trigger] population@[i]).spec_fitness() == r.max_score,
    {
        let n = population.len();
        let mut min_score: u32 = 0;
        let mut max_score: u32 = 0;
        let mut total: u128 = 0;
        let mut i: usize = 0;
        while i < n
            invariant
                n == population@.len(),
                i <= n,
                total == total_fitness::<G, T>(population@.take(i as int)),
                total <= i * (u32::MAX as nat),
                i > 0 ==> exists|j: int| 0 <= j < i && (#[trigger] population@[j]).spec_fitness() == min_score,
                i > 0 ==> exists|j: int| 0 <= j < i && (#[trigger] population@[j]).spec_fitness() == max_score,
                forall|j: int|
                    0 <= j < i ==> min_score <= (#[trigger] population@[j]).spec_fitness() <= max_score,
                i == 0 ==> min_score == 0 && max_score == 0,
            decreases n - i,
        {
            let f = population[i].fitness();
            if i == 0 || f < min_score {
                min_score = f;
            }
            if i == 0 || f > max_score {
                max_score = f;
            }
            proof {
                assert((i + 1) * (u32::MAX as nat) == i * (u32::MAX as nat) + u32::MAX) by (nonlinear_arith);
                assert((i + 1) * (u32::MAX as nat) <= u128::MAX) by (nonlinear_arith)
                    requires
                        i < usize::MAX,
                ;
                assert(population@.take(i + 1).drop_last() =~= population@.take(i as int));
            }
            total = total + f as u128;
            i = i + 1;
        }
        assert(population@.take(n as int) =~= population@);
        Statistics { min_score, max_score, total_score: total, population_size: n }
    }
}

} // verus!
