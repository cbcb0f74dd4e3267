//! The population manager: seeding, survival filtering and reproduction.

use vstd::prelude::*;

use crate::capabilities::fabricable;
use crate::capabilities::genome_clone;
use crate::capabilities::genome_freshly_initialized;
use crate::capabilities::genome_initialized;
use crate::capabilities::genome_mutate;
use crate::capabilities::genomes_equal;
use crate::capabilities::parameters_well_formed;
use crate::capabilities::random_below;
use crate::organism::Environment;
use crate::organism::Organism;
use crate::population::all_well_formed;
use crate::population::contains_genome;
use crate::population::count_below;
use crate::population::fabricable_among;
use crate::population::distinct_genomes;
use crate::population::insert_genome;
use crate::population::insert_genomes;
use crate::population::insert_genomes_capped;
use crate::population::lemma_fabricable_among_push;
use crate::population::lemma_insert_capped_bounds;
use crate::population::lemma_insert_genome_len;
use crate::population::lemma_insert_genomes_len;
use crate::population::lemma_seed_quota_within_capacity;
use crate::population::lemma_survivors_distinct;
use crate::population::lemma_survivors_len;
use crate::population::reproduced_with;
use crate::population::seed_quota;
use crate::population::seeded_with;
use crate::population::stepped_with;
use crate::population::survivors;
use crate::status::Status;
use set_genome::Genome;
use set_genome::Parameters;

verus! {

/// One uniform draw in `0 .. REPRODUCTION_DRAW_BOUND` is made per parent
/// during reproduction; the parent spawns an offspring when its draw falls
/// below [`REPRODUCTION_THRESHOLD`], so each parent reproduces with
/// probability one tenth.
pub const REPRODUCTION_DRAW_BOUND: u64 = 10;

/// See [`REPRODUCTION_DRAW_BOUND`].
pub const REPRODUCTION_THRESHOLD: u64 = 1;

/// The population manager. It owns the organism set (membership keyed by
/// genome content), a capacity bound, the factory for fresh environment
/// instances, and the evolutionary parameters threaded through every genome
/// operation.
#[verifier::reject_recursive_types(E)]
pub struct Habitat<E: Environment, F: Fn() -> E> {
    capacity: usize,
    organisms: Vec<Organism<E>>,
    create_environment: F,
    parameters: Parameters,
}

impl<E: Environment, F: Fn() -> E> Habitat<E, F> {
    /// The genomes of the current population, in insertion order.
    pub closed spec fn genomes(self) -> Seq<Genome> {
        self.organisms@.map_values(|organism: Organism<E>| organism.genome())
    }

    /// The maximum population size enforced by reproduction.
    pub closed spec fn capacity(self) -> usize {
        self.capacity
    }

    /// The environment factory handed in at construction.
    pub closed spec fn environment_factory(self) -> F {
        self.create_environment
    }

    /// The evolutionary parameters handed in at construction.
    pub closed spec fn parameters(self) -> Parameters {
        self.parameters
    }

    /// Whether two habitat states share capacity, environment factory and
    /// evolutionary parameters: everything but the population itself.
    pub open spec fn same_configuration(self, other: Self) -> bool {
        &&& self.capacity() == other.capacity()
        &&& self.environment_factory() == other.environment_factory()
        &&& self.parameters() == other.parameters()
    }

    /// Well-formedness: the population never holds two organisms with equal
    /// genomes and every organism in it is itself well formed; the
    /// environment factory may be called; and the evolutionary parameters
    /// are ones the genome capability can apply.
    pub closed spec fn wf(self) -> bool {
        &&& distinct_genomes(self.genomes())
        &&& (forall|i: int|
            0 <= i < self.organisms@.len() ==> (#[trigger] self.organisms@[i]).wf())
        &&& call_requires(self.create_environment, ())
        &&& parameters_well_formed(self.parameters)
    }

    /// The population invariant, exported for callers outside this module:
    /// a well-formed habitat never holds two organisms with equal genomes.
    pub proof fn lemma_population_distinct(self)
        requires
            self.wf(),
        ensures
            distinct_genomes(self.genomes()),
    {
    }

    /// A habitat starts with an empty population; it is seeded on the first
    /// `step`.
    pub fn new(capacity: usize, create_environment: F, parameters: Parameters) -> (habitat:
        Habitat<E, F>)
        requires
            call_requires(create_environment, ()),
            parameters_well_formed(parameters),
        ensures
            habitat.wf(),
            habitat.capacity() == capacity,
            habitat.genomes() == Seq::<Genome>::empty(),
            habitat.environment_factory() == create_environment,
            habitat.parameters() == parameters,
    {
        let habitat = Habitat {
            capacity,
            create_environment,
            parameters,
            organisms: Vec::new(),
        };
        proof {
            assert(habitat.genomes() =~= Seq::<Genome>::empty());
        }
        habitat
    }

    /// How many organisms the population currently holds.
    pub fn population_size(&self) -> (n: usize)
        ensures
            n == self.genomes().len(),
    {
        self.organisms.len()
    }

    /// A copy of every organism's genome, in population order.
    pub fn cloned_genomes(&self) -> (genomes: Vec<Genome>)
        ensures
            genomes@ == self.genomes(),
    {
        let mut genomes: Vec<Genome> = Vec::new();
        let mut i: usize = 0;
        while i < self.organisms.len()
            invariant
                i <= self.organisms@.len(),
                genomes@.len() == i,
                forall|k: int| 0 <= k < i ==> genomes@[k] == self.genomes()[k],
            decreases self.organisms@.len() - i,
        {
            genomes.push(genome_clone(self.organisms[i].borrow_genome()));
            i = i + 1;
        }
        proof {
            assert(genomes@ =~= self.genomes());
        }
        genomes
    }

    /// Inserts an organism into the population set. Inserting an organism
    /// whose genome is already present is a silent no-op: the duplicate is
    /// dropped and the population is unchanged. No capacity check is made
    /// here; the reproduction policy enforces the capacity bound.
    pub fn insert_organism(&mut self, organism: Organism<E>) -> (added: bool)
        requires
            old(self).wf(),
            organism.wf(),
        ensures
            final(self).wf(),
            final(self).same_configuration(*old(self)),
            final(self).genomes() == insert_genome(old(self).genomes(), organism.genome()),
            added == !contains_genome(old(self).genomes(), organism.genome()),
    {
        let n: usize = self.organisms.len();
        let mut i: usize = 0;
        while i < n
            invariant
                i <= n,
                n == self.organisms@.len(),
                *self == *old(self),
                old(self).wf(),
                forall|k: int| 0 <= k < i ==> self.genomes()[k] != organism.genome(),
            decreases n - i,
        {
            if genomes_equal(organism.borrow_genome(), self.organisms[i].borrow_genome()) {
                proof {
                    assert(self.genomes()[i as int] == organism.genome());
                    assert(contains_genome(self.genomes(), organism.genome()));
                }
                return false;
            }
            i = i + 1;
        }
        proof {
            if contains_genome(self.genomes(), organism.genome()) {
                let k = choose|k: int|
                    0 <= k < self.genomes().len() && self.genomes()[k] == organism.genome();
                assert(false);
            }
            lemma_insert_genome_len(self.genomes(), organism.genome());
        }
        let ghost before = self.genomes();
        let ghost members = self.organisms@;
        self.organisms.push(organism);
        proof {
            assert(self.genomes() =~= before.push(organism.genome()));
            assert(forall|k: int|
                0 <= k < members.len() ==> self.organisms@[k] == members[k]);
        }
        true
    }

    /// Seed-if-empty, run at the start of every `step`: an empty population
    /// is replenished with `seed_quota(capacity)` organisms grown from
    /// freshly initialized genomes plus one organism grown from the
    /// canonical default genome, each paired with a new environment from the
    /// factory. Duplicates coalesce and unfabricatable genomes are skipped,
    /// so the count may come out lower. A non-empty population is untouched.
    fn seed_if_empty(&mut self)
        requires
            old(self).wf(),
        ensures
            final(self).wf(),
            final(self).same_configuration(*old(self)),
            exists|attempts: Seq<Genome>|
                seeded_with(
                    old(self).genomes(),
                    final(self).genomes(),
                    old(self).capacity() as int,
                    attempts,
                ),
    {
        if self.organisms.len() > 0 {
            proof {
                assert(seeded_with(
                    old(self).genomes(),
                    self.genomes(),
                    old(self).capacity() as int,
                    Seq::<Genome>::empty(),
                ));
            }
            return ;
        }
        let mut quota: usize = self.capacity / 10;
        if self.capacity % 10 != 0 {
            quota = quota + 1;
        }
        assert(quota as int == seed_quota(old(self).capacity() as int));
        let ghost mut attempts: Seq<Genome> = Seq::empty();
        let mut created: usize = 0;
        while created < quota
            invariant
                created <= quota,
                old(self).wf(),
                old(self).genomes().len() == 0,
                self.wf(),
                attempts.len() == created,
                all_well_formed(attempts),
                self.same_configuration(*old(self)),
                self.genomes() == insert_genomes(old(self).genomes(), fabricable_among(attempts)),
            decreases quota - created,
        {
            let genome = genome_freshly_initialized(&self.parameters);
            let ghost grown = genome;
            let environment = (self.create_environment)();
            match Organism::new(genome, environment) {
                Ok(organism) => {
                    proof {
                        lemma_fabricable_among_push(attempts, grown);
                        assert(fabricable_among(attempts).push(grown).drop_last()
                            =~= fabricable_among(attempts));
                    }
                    self.insert_organism(organism);
                },
                Err(_) => {
                    proof {
                        lemma_fabricable_among_push(attempts, grown);
                    }
                },
            }
            proof {
                attempts = attempts.push(grown);
            }
            created = created + 1;
        }
        let genome = genome_initialized(&self.parameters);
        let ghost grown = genome;
        let environment = (self.create_environment)();
        match Organism::new(genome, environment) {
            Ok(organism) => {
                proof {
                    lemma_fabricable_among_push(attempts, grown);
                    assert(fabricable_among(attempts).push(grown).drop_last()
                        =~= fabricable_among(attempts));
                }
                self.insert_organism(organism);
            },
            Err(_) => {
                proof {
                    lemma_fabricable_among_push(attempts, grown);
                }
            },
        }
        proof {
            attempts = attempts.push(grown);
            assert(seeded_with(
                old(self).genomes(),
                self.genomes(),
                old(self).capacity() as int,
                attempts,
            ));
        }
    }

    /// One generation tick. The population is seeded if it is empty; then
    /// every organism is advanced by one environment tick and the population
    /// is rebuilt to hold exactly the organisms whose tick returned `Alive`,
    /// in order. Organisms whose tick returned `Dead` are dropped together
    /// with their environment and evaluator.
    ///
    /// Population bound: as long as the capacity is at least two, a
    /// population within capacity stays within capacity across any number of
    /// `step` calls (the last two clauses below give the induction step).
    pub fn step(&mut self)
        requires
            old(self).wf(),
        ensures
            final(self).wf(),
            final(self).same_configuration(*old(self)),
            final(self).capacity() == old(self).capacity(),
            exists|attempts: Seq<Genome>, sts: Seq<Status>|
                stepped_with(
                    old(self).genomes(),
                    final(self).genomes(),
                    old(self).capacity() as int,
                    attempts,
                    sts,
                ),
            old(self).genomes().len() > 0 ==> final(self).genomes().len() <= old(
                self,
            ).genomes().len(),
            old(self).genomes().len() == 0 ==> final(self).genomes().len() <= seed_quota(
                old(self).capacity() as int,
            ) + 1,
            old(self).genomes().len() <= old(self).capacity() && old(self).capacity() >= 2 ==>
                final(self).genomes().len() <= old(self).capacity(),
    {
        self.seed_if_empty();
        let ghost entry = old(self).genomes();
        let ghost mid = self.genomes();
        let ghost attempts = choose|attempts: Seq<Genome>|
            seeded_with(entry, mid, old(self).capacity() as int, attempts);
        let mut retained: Vec<Organism<E>> = Vec::new();
        let ghost mut sts: Seq<Status> = Seq::empty();
        let ghost mut done: Seq<Genome> = Seq::empty();
        while self.organisms.len() > 0
            invariant
                old(self).wf(),
                sts.len() == done.len(),
                retained@.map_values(|organism: Organism<E>| organism.genome()) == survivors(
                    done,
                    sts,
                ),
                done + self.genomes() == mid,
                distinct_genomes(mid),
                self.same_configuration(*old(self)),
                parameters_well_formed(self.parameters),
                forall|k: int|
                    0 <= k < self.organisms@.len() ==> (#[trigger] self.organisms@[k]).wf(),
                forall|k: int| 0 <= k < retained@.len() ==> (#[trigger] retained@[k]).wf(),
            decreases self.organisms@.len(),
        {
            let ghost orgs_before = self.organisms@;
            let mut organism = self.organisms.remove(0);
            proof {
                assert(orgs_before[0].wf());
            }
            let status = organism.step();
            proof {
                assert(organism.wf());
                assert(forall|k: int|
                    0 <= k < self.organisms@.len() ==> self.organisms@[k] == orgs_before[k + 1]);
                assert(orgs_before.map_values(|o: Organism<E>| o.genome()) =~= seq![
                    organism.genome(),
                ] + self.genomes());
                assert(done + orgs_before.map_values(|o: Organism<E>| o.genome()) == mid);
                assert(done.push(organism.genome()) + self.genomes() =~= done + (seq![
                    organism.genome(),
                ] + self.genomes()));
                assert(done.push(organism.genome()).drop_last() =~= done);
                assert(sts.push(status).drop_last() =~= sts);
            }
            let ghost retained_before = retained@;
            if status == Status::Alive {
                retained.push(organism);
                proof {
                    assert(retained@.map_values(|o: Organism<E>| o.genome())
                        =~= retained_before.map_values(|o: Organism<E>| o.genome()).push(
                        organism.genome(),
                    ));
                }
            }
            proof {
                done = done.push(organism.genome());
                sts = sts.push(status);
            }
        }
        proof {
            assert(done + self.genomes() == mid);
            assert(self.genomes() =~= Seq::<Genome>::empty());
            assert(done =~= mid);
        }
        self.organisms = retained;
        proof {
            assert(stepped_with(entry, self.genomes(), old(self).capacity() as int, attempts, sts));
            lemma_survivors_distinct(mid, sts);
            lemma_survivors_len(mid, sts);
            attempts.lemma_filter_len(|genome: Genome| fabricable(genome));
            lemma_insert_genomes_len(entry, fabricable_among(attempts));
            if entry.len() <= old(self).capacity() && old(self).capacity() >= 2 {
                lemma_seed_quota_within_capacity(old(self).capacity() as int);
            }
        }
    }

    /// One reproduction pass with the random draws made explicit: `draws[i]`
    /// is the draw for the parent at position `i`. Parent `i` spawns one
    /// offspring - a mutated clone of its genome, paired with a fresh
    /// environment - exactly when the population is below capacity and
    /// `draws[i]` falls below [`REPRODUCTION_THRESHOLD`]; offspring whose
    /// evaluator cannot be fabricated are skipped. All offspring are
    /// inserted after the full parent pass, duplicates coalescing and the
    /// insertion stopping once the capacity is reached. Parents are never
    /// consumed, so the old population is a prefix of the new one.
    ///
    /// Given equal starting populations and equal draws, the retained
    /// control logic is deterministic; all remaining variation comes from
    /// the genome capability's own randomness.
    pub fn reproduce_with_draws(&mut self, draws: &Vec<u64>)
        requires
            old(self).wf(),
            draws@.len() == old(self).genomes().len(),
        ensures
            final(self).wf(),
            final(self).same_configuration(*old(self)),
            final(self).capacity() == old(self).capacity(),
            old(self).genomes().is_prefix_of(final(self).genomes()),
            exists|attempts: Seq<Genome>|
                reproduced_with(
                    old(self).genomes(),
                    final(self).genomes(),
                    old(self).capacity() as int,
                    draws@,
                    REPRODUCTION_THRESHOLD,
                    attempts,
                ),
            old(self).genomes().len() <= old(self).capacity() ==> final(self).genomes().len()
                <= old(self).capacity(),
            old(self).genomes().len() >= old(self).capacity() ==> *final(self) == *old(self),
    {
        let mut offspring: Vec<Organism<E>> = Vec::new();
        let ghost mut attempts: Seq<Genome> = Seq::empty();
        let n: usize = self.organisms.len();
        let mut i: usize = 0;
        while i < n
            invariant
                i <= n,
                n == self.organisms@.len(),
                *self == *old(self),
                old(self).wf(),
                draws@.len() == n,
                attempts.len() == (if n < old(self).capacity() {
                    count_below(draws@.take(i as int), REPRODUCTION_THRESHOLD)
                } else {
                    0int
                }),
                all_well_formed(attempts),
                offspring@.map_values(|o: Organism<E>| o.genome()) == fabricable_among(attempts),
                forall|k: int| 0 <= k < offspring@.len() ==> (#[trigger] offspring@[k]).wf(),
            decreases n - i,
        {
            proof {
                assert(draws@.take(i + 1).drop_last() =~= draws@.take(i as int));
                assert(draws@.take(i + 1).last() == draws@[i as int]);
            }
            if self.organisms.len() < self.capacity && draws[i] < REPRODUCTION_THRESHOLD {
                proof {
                    assert(self.organisms@[i as int].wf());
                }
                let mut genome = genome_clone(self.organisms[i].borrow_genome());
                let _applied = genome_mutate(&mut genome, &self.parameters);
                let ghost grown = genome;
                let ghost fabricated_before = fabricable_among(attempts);
                proof {
                    lemma_fabricable_among_push(attempts, grown);
                }
                let environment = (self.create_environment)();
                match Organism::new(genome, environment) {
                    Ok(organism) => {
                        let ghost offspring_before = offspring@;
                        offspring.push(organism);
                        proof {
                            assert(offspring@.map_values(|o: Organism<E>| o.genome())
                                =~= offspring_before.map_values(|o: Organism<E>| o.genome()).push(
                                grown,
                            ));
                        }
                    },
                    Err(_) => {},
                }
                proof {
                    attempts = attempts.push(grown);
                }
            }
            i = i + 1;
        }
        let ghost entry = self.genomes();
        let ghost spawned = offspring@.map_values(|o: Organism<E>| o.genome());
        proof {
            assert(spawned == fabricable_among(attempts));
            attempts.lemma_filter_len(|genome: Genome| fabricable(genome));
            assert(draws@.take(n as int) =~= draws@);
        }
        while offspring.len() > 0 && self.organisms.len() < self.capacity
            invariant
                old(self).wf(),
                self.wf(),
                self.same_configuration(*old(self)),
                insert_genomes_capped(entry, spawned, old(self).capacity() as int)
                    == insert_genomes_capped(
                    self.genomes(),
                    offspring@.map_values(|o: Organism<E>| o.genome()),
                    old(self).capacity() as int,
                ),
                entry.is_prefix_of(self.genomes()),
                offspring@.len() <= spawned.len(),
                forall|k: int| 0 <= k < offspring@.len() ==> (#[trigger] offspring@[k]).wf(),
                spawned.len() == 0 ==> *self == *old(self),
                offspring@.len() > 0 ==> self.genomes().len() <= entry.len() || self.genomes().len()
                    <= old(self).capacity(),
            decreases offspring@.len(),
        {
            let ghost pending = offspring@.map_values(|o: Organism<E>| o.genome());
            let ghost here = self.genomes();
            let ghost waiting = offspring@;
            let organism = offspring.remove(0);
            proof {
                assert(waiting[0].wf());
                assert(forall|k: int|
                    0 <= k < offspring@.len() ==> offspring@[k] == waiting[k + 1]);
                assert(pending =~= seq![organism.genome()] + offspring@.map_values(
                    |o: Organism<E>| o.genome(),
                ));
                assert(pending.drop_first() =~= offspring@.map_values(
                    |o: Organism<E>| o.genome(),
                ));
                assert(insert_genomes_capped(here, pending, old(self).capacity() as int)
                    == insert_genomes_capped(
                    insert_genome(here, organism.genome()),
                    pending.drop_first(),
                    old(self).capacity() as int,
                ));
                lemma_insert_genome_len(here, organism.genome());
                assert(entry =~= insert_genome(here, organism.genome()).subrange(
                    0,
                    entry.len() as int,
                ));
            }
            self.insert_organism(organism);
        }
        proof {
            let left = offspring@.map_values(|o: Organism<E>| o.genome());
            assert(left.len() == 0 || self.genomes().len() >= old(self).capacity());
            assert(insert_genomes_capped(
                self.genomes(),
                left,
                old(self).capacity() as int,
            ) == self.genomes());
            assert(reproduced_with(
                entry,
                self.genomes(),
                old(self).capacity() as int,
                draws@,
                REPRODUCTION_THRESHOLD,
                attempts,
            ));
            lemma_insert_capped_bounds(entry, spawned, old(self).capacity() as int);
        }
    }

    /// One reproduction pass, as run once per generation: a uniform draw in
    /// `0 .. REPRODUCTION_DRAW_BOUND` is made for every organism currently
    /// in the population and handed to [`Habitat::reproduce_with_draws`],
    /// so each parent below capacity reproduces with probability one tenth.
    pub fn reproduce(&mut self)
        requires
            old(self).wf(),
        ensures
            final(self).wf(),
            final(self).same_configuration(*old(self)),
            final(self).capacity() == old(self).capacity(),
            old(self).genomes().is_prefix_of(final(self).genomes()),
            exists|draws: Seq<u64>, attempts: Seq<Genome>|
                draws.len() == old(self).genomes().len() && reproduced_with(
                    old(self).genomes(),
                    final(self).genomes(),
                    old(self).capacity() as int,
                    draws,
                    REPRODUCTION_THRESHOLD,
                    attempts,
                ),
            old(self).genomes().len() <= old(self).capacity() ==> final(self).genomes().len()
                <= old(self).capacity(),
    {
        let mut draws: Vec<u64> = Vec::new();
        let n: usize = self.organisms.len();
        let mut i: usize = 0;
        while i < n
            invariant
                i <= n,
                n == self.organisms@.len(),
                *self == *old(self),
                old(self).wf(),
                draws@.len() == i,
            decreases n - i,
        {
            draws.push(random_below(REPRODUCTION_DRAW_BOUND));
            i = i + 1;
        }
        self.reproduce_with_draws(&draws);
    }
}

} // verus!
