//! One genome paired with its fabricated evaluator and an owned environment.

use vstd::prelude::*;

use crate::capabilities::fabricable;
use crate::capabilities::fabricate_evaluator;
use crate::capabilities::genome_well_formed;
use crate::capabilities::genomes_equal;
use crate::capabilities::FabricationError;
use crate::status::Status;
use favannat::matrix::feedforward::evaluator::MatrixFeedforwardEvaluator;
use set_genome::Genome;

verus! {

/// A task-specific simulation that consumes an evaluator each tick and
/// reports whether the organism survived it.
///
/// Implementations live outside this crate, one per task; an environment may
/// have arbitrary internal state and side effects of its own.
pub trait Environment {
    fn step(&mut self, evaluator: &MatrixFeedforwardEvaluator) -> Status;
}

/// The unit tracked for survival and reproduction: one genome, the evaluator
/// fabricated deterministically from it, and one exclusively owned
/// environment instance.
///
/// Identity is delegated entirely to the genome: two organisms with equal
/// genomes are indistinguishable to the population, even if their
/// environment states diverge.
pub struct Organism<E: Environment> {
    pub(crate) genome: Genome,
    pub(crate) phenotype: MatrixFeedforwardEvaluator,
    pub(crate) environment: E,
}

impl<E: Environment> Organism<E> {
    /// The genome that determines this organism's identity.
    pub closed spec fn genome(self) -> Genome {
        self.genome
    }

    /// The environment instance this organism exclusively owns.
    pub closed spec fn environment(self) -> E {
        self.environment
    }

    /// The evaluator fabricated from this organism's genome.
    pub closed spec fn phenotype(self) -> MatrixFeedforwardEvaluator {
        self.phenotype
    }

    /// Well-formedness: the genome is one the genome capability built, and
    /// its evaluator was fabricated - both facts the population relies on
    /// when it later clones and mutates the genome.
    pub open spec fn wf(self) -> bool {
        &&& genome_well_formed(self.genome())
        &&& fabricable(self.genome())
    }

    /// A borrow of the genome that determines this organism's identity.
    pub fn borrow_genome(&self) -> (genome: &Genome)
        ensures
            *genome == self.genome(),
    {
        &self.genome
    }

    /// Pairs a genome with a fresh environment, fabricating the evaluator
    /// from the genome. Fails exactly when fabrication is impossible for the
    /// genome's gene structure; the failure is fatal for this organism and
    /// is not retried. The genome and the environment are moved in, neither
    /// cloned nor altered.
    pub fn new(genome: Genome, environment: E) -> (r: Result<Organism<E>, FabricationError>)
        requires
            genome_well_formed(genome),
        ensures
            r is Ok <==> fabricable(genome),
            r matches Ok(organism) ==> organism.genome() == genome && organism.environment()
                == environment && organism.wf(),
    {
        match fabricate_evaluator(&genome) {
            Ok(phenotype) => Ok(Organism { genome, phenotype, environment }),
            Err(_) => Err(FabricationError),
        }
    }

    /// One simulated tick: delegates to the owned environment with the owned
    /// evaluator. Only the owned environment's state may change: the genome,
    /// and with it the organism's identity, and the fabricated evaluator are
    /// never changed by stepping.
    pub fn step(&mut self) -> (status: Status)
        ensures
            final(self).genome() == old(self).genome(),
            final(self).phenotype() == old(self).phenotype(),
    {
        self.environment.step(&self.phenotype)
    }
}

impl<E: Environment> PartialEq for Organism<E> {
    /// Equality by genome content alone; the environment and the evaluator
    /// are excluded from identity.
    fn eq(&self, other: &Self) -> bool {
        genomes_equal(&self.genome, &other.genome)
    }
}

impl<E: Environment> Eq for Organism<E> {}

impl<E: Environment> vstd::std_specs::cmp::PartialEqSpecImpl for Organism<E> {
    open spec fn obeys_eq_spec() -> bool {
        true
    }

    open spec fn eq_spec(&self, other: &Self) -> bool {
        self.genome() == other.genome()
    }
}

} // verus!
