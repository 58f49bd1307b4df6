//! Fitness-ranked individuals: candidates carrying a genome, ordered by
//! their fitness score alone.

use core::cmp::Ordering;
use vstd::prelude::*;

verus! {

/// One candidate of a fitness-based population: a genome and the fitness
/// score the candidate reached. Candidates compare by fitness alone.
#[derive(Clone, Debug, PartialEq, Eq)]
pub struct Individual<T> where T: core::cmp::Eq {
    genome: Vec<T>,
    fitness: u32,
}

impl<T: core::cmp::Eq> Individual<T> {
    /// The genome, for contracts.
    pub closed spec fn spec_genome(&self) -> Seq<T> {
        self.genome@
    }

    /// The fitness score, for contracts.
    pub closed spec fn spec_fitness(&self) -> u32 {
        self.fitness
    }

    /// Creates an individual from its genome and its fitness score.
    pub fn new(genome: Vec<T>, fitness: u32) -> (ind: Individual<T>)
        ensures
            ind.spec_genome() == genome@,
            ind.spec_fitness() == fitness,
    {
        Individual { genome, fitness }
    }

    /// The fitness score the individual reached.
    pub fn fitness(&self) -> (f: u32)
        ensures
            f == self.spec_fitness(),
    {
        self.fitness
    }
}

impl<T: core::cmp::Eq> PartialOrd for Individual<T> {
    fn partial_cmp(&self, other: &Self) -> (r: Option<Ordering>) {
        if self.fitness < other.fitness {
            Some(Ordering::Less)
        } else if self.fitness == other.fitness {
            Some(Ordering::Equal)
        } else {
            Some(Ordering::Greater)
        }
    }
}

impl<T: core::cmp::Eq> vstd::std_specs::cmp::PartialOrdSpecImpl for Individual<T> {
    open spec fn obeys_partial_cmp_spec() -> bool {
        true
    }

    open spec fn partial_cmp_spec(&self, other: &Self) -> Option<Ordering> {
        if self.spec_fitness() < other.spec_fitness() {
            Some(Ordering::Less)
        } else if self.spec_fitness() == other.spec_fitness() {
            Some(Ordering::Equal)
        } else {
            Some(Ordering::Greater)
        }
    }
}

} // verus!
