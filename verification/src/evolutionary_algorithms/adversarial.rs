//! Adversarial populations: an environment that owns populations which
//! interact with it and with each other through caller-supplied
//! behaviours.

use core::marker::PhantomData;
use vstd::prelude::*;

verus! {

/// A population that can interact with its environment and with the
/// other populations sharing it.
pub trait Population<T, U> {
    /// Lets this population act once on the environment and on the other
    /// populations.
    fn interact(&mut self, env: &mut T, others: &mut Vec<U>);
}

/// An environment: a piece of environment data together with the
/// populations living in it.
pub struct Environment<T, U> {
    environment_data: T,
    populations: Vec<U>,
}

impl<T, U> Environment<T, U> {
    /// The environment data, for contracts.
    pub closed spec fn spec_data(&self) -> T {
        self.environment_data
    }

    /// The populations, for contracts.
    pub closed spec fn spec_populations(&self) -> Seq<U> {
        self.populations@
    }

    /// Creates an environment from its data and its populations.
    pub fn new(env: T, pops: Vec<U>) -> (e: Environment<T, U>)
        ensures
            e.spec_data() == env,
            e.spec_populations() == pops@,
    {
        Environment { environment_data: env, populations: pops }
    }
}

/// A member of a herd: a genome and how full the animal is.
#[derive(Debug)]
pub struct HerdMember<T: PartialEq> {
    /// The member's genome.
    pub genome: Vec<T>,
    /// How full the member is.
    pub fullness: u8,
}

/// A member of a pack: a genome and whether the animal has fed.
#[derive(Debug)]
pub struct PackMember<T: PartialEq> {
    /// The member's genome.
    pub genome: Vec<T>,
    /// Whether the member has fed.
    pub full: bool,
}

/// A herd: prey animals plus the behaviour they follow when the herd
/// interacts.
#[derive(Debug)]
pub struct Herd<T, U, V, F> where
    T: PartialEq,
    F: Fn(&mut Vec<Option<HerdMember<T>>>, &mut V, &mut Vec<U>),
 {
    /// The herd's members; a missing member has been eaten.
    pub population: Vec<Option<HerdMember<T>>>,
    /// The behaviour the herd follows when it interacts.
    pub interaction: F,
    /// Marks the environment type the behaviour works on.
    pub env: PhantomData<V>,
    /// Marks the population type the behaviour works against.
    pub others: PhantomData<U>,
}

/// A pack: predator animals plus the behaviour they follow when the pack
/// interacts.
#[derive(Debug)]
pub struct Pack<T, U, V, F> where
    T: PartialEq,
    F: Fn(&mut Vec<Option<PackMember<T>>>, &mut V, &mut Vec<U>),
 {
    /// The pack's members; a missing member has starved.
    pub population: Vec<Option<PackMember<T>>>,
    /// The behaviour the pack follows when it interacts.
    pub interaction: F,
    /// Marks the environment type the behaviour works on.
    pub env: PhantomData<V>,
    /// Marks the population type the behaviour works against.
    pub others: PhantomData<U>,
}

/// The populations of a forest: a herd of prey or a pack of predators.
pub enum Forresters<T, U, V, F, G> where
    T: PartialEq,
    F: Fn(&mut Vec<Option<HerdMember<T>>>, &mut V, &mut Vec<U>),
    G: Fn(&mut Vec<Option<PackMember<T>>>, &mut V, &mut Vec<U>),
 {
    /// The prey population.
    Prey(Herd<T, U, V, F>),
    /// The predator population.
    Predators(Pack<T, U, V, G>),
}

impl<T, U, V, F, G> Forresters<T, U, V, F, G> where
    T: PartialEq,
    F: Fn(&mut Vec<Option<HerdMember<T>>>, &mut V, &mut Vec<U>),
    G: Fn(&mut Vec<Option<PackMember<T>>>, &mut V, &mut Vec<U>),
 {
    /// Lets the population act once on the environment and on the other
    /// populations, through whichever behaviour the variant carries.
    pub fn interact(&mut self, env: &mut V, others: &mut Vec<U>)
        requires
            (*old(self)) is Prey ==> forall|p: &mut Vec<Option<HerdMember<T>>>, e: &mut V, o: &mut Vec<U>|
                call_requires((*old(self))->Prey_0.interaction, (p, e, o)),
            (*old(self)) is Predators ==> forall|p: &mut Vec<Option<PackMember<T>>>, e: &mut V, o: &mut Vec<U>|
                call_requires((*old(self))->Predators_0.interaction, (p, e, o)),
    {
        match self {
            Forresters::Prey(herd) => (herd.interaction)(&mut herd.population, env, others),
            Forresters::Predators(pack) => (pack.interaction)(&mut pack.population, env, others),
        }
    }
}

} // verus!
