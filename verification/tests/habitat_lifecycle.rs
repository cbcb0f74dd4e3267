use evolutionary_self_replication::parameters_default;
use evolutionary_self_replication::Environment;
use evolutionary_self_replication::FabricationError;
use evolutionary_self_replication::Habitat;
use evolutionary_self_replication::Organism;
use evolutionary_self_replication::Status;
use favannat::matrix::feedforward::evaluator::MatrixFeedforwardEvaluator;
use set_genome::activations::Activation;
use set_genome::Genome;
use set_genome::Mutations;
use set_genome::Parameters;
use set_genome::Structure;

struct AlwaysAlive;

impl Environment for AlwaysAlive {
    fn step(&mut self, _evaluator: &MatrixFeedforwardEvaluator) -> Status {
        Status::Alive
    }
}

struct AlwaysDead;

impl Environment for AlwaysDead {
    fn step(&mut self, _evaluator: &MatrixFeedforwardEvaluator) -> Status {
        Status::Dead
    }
}

struct DiesAfterFirstTick {
    ticks: u32,
}

impl Environment for DiesAfterFirstTick {
    fn step(&mut self, _evaluator: &MatrixFeedforwardEvaluator) -> Status {
        self.ticks += 1;
        Status::from(self.ticks < 2)
    }
}

/// One input connected to one output; every reproduction pass splits a
/// connection with a new node, so every offspring differs topologically
/// from its parent.
fn topology_params(seed: u64) -> Parameters {
    Parameters {
        structure: Structure {
            number_of_inputs: 1,
            number_of_outputs: 1,
            percent_of_connected_inputs: 1.0,
            outputs_activation: Activation::Tanh,
            seed,
        },
        mutations: vec![Mutations::AddNode {
            chance: 1.0,
            activation_pool: vec![Activation::Tanh],
        }],
    }
}

/// No input is ever connected, so no genome from these parameters can be
/// fabricated into an evaluator.
fn unconnectable_params() -> Parameters {
    Parameters {
        structure: Structure {
            number_of_inputs: 1,
            number_of_outputs: 1,
            percent_of_connected_inputs: 0.0,
            outputs_activation: Activation::Tanh,
            seed: 42,
        },
        mutations: vec![],
    }
}

#[test]
fn new_habitat_starts_empty() {
    let habitat = Habitat::new(10, || AlwaysAlive, parameters_default());
    assert_eq!(habitat.population_size(), 0);
}

#[test]
fn status_derives_from_done_signal() {
    assert_eq!(Status::from(true), Status::Alive);
    assert_eq!(Status::from(false), Status::Dead);
    let done = true;
    let status: Status = (!done).into();
    assert_eq!(status, Status::Dead);
}

#[test]
fn seeding_collapses_identical_genomes() {
    // The quota for capacity 10 is one initialized genome plus the one
    // canonical default genome; under the default parameters the two carry
    // the same topology, so the population set coalesces them.
    let mut habitat = Habitat::new(10, || AlwaysAlive, parameters_default());
    habitat.step();
    assert_eq!(habitat.population_size(), 1);
}

#[test]
fn step_on_empty_population_with_deadly_environment_leaves_it_empty() {
    // Seed, then all die within the same step.
    let mut habitat = Habitat::new(10, || AlwaysDead, Parameters::default());
    habitat.step();
    assert_eq!(habitat.population_size(), 0);
}

#[test]
fn survival_follows_each_ticks_outcome() {
    let mut habitat = Habitat::new(10, || DiesAfterFirstTick { ticks: 0 }, Parameters::default());
    habitat.step();
    assert_eq!(habitat.population_size(), 1);
    habitat.step();
    assert_eq!(habitat.population_size(), 0);
}

#[test]
fn duplicate_insertion_is_a_silent_no_op() {
    let parameters = Parameters::default();
    let genome = Genome::initialized(&parameters);
    let mut habitat = Habitat::new(10, || AlwaysAlive, parameters);
    let first = habitat.insert_organism(Organism::new(genome.clone(), AlwaysAlive).unwrap());
    let second = habitat.insert_organism(Organism::new(genome.clone(), AlwaysAlive).unwrap());
    assert!(first);
    assert!(!second);
    assert_eq!(habitat.population_size(), 1);
}

#[test]
fn organism_identity_is_the_genome_alone() {
    let parameters = topology_params(1);
    let genome = Genome::initialized(&parameters);
    let same_a = Organism::new(genome.clone(), AlwaysAlive).unwrap();
    let same_b = Organism::new(genome.clone(), AlwaysAlive).unwrap();
    assert!(same_a == same_b);
    let other_genome = Genome::initialized(&topology_params(2));
    let other = Organism::new(other_genome, AlwaysAlive).unwrap();
    assert!(same_a != other);
}

#[test]
fn reproduction_never_exceeds_capacity() {
    let mut habitat = Habitat::new(3, || AlwaysAlive, topology_params(7));
    let parent_a = Genome::initialized(&topology_params(1));
    let parent_b = Genome::initialized(&topology_params(2));
    habitat.insert_organism(Organism::new(parent_a, AlwaysAlive).unwrap());
    habitat.insert_organism(Organism::new(parent_b, AlwaysAlive).unwrap());
    // Both parents qualify, but only one offspring still fits.
    habitat.reproduce_with_draws(&vec![0, 0]);
    assert_eq!(habitat.population_size(), 3);
}

#[test]
fn reproduction_at_capacity_changes_nothing() {
    let parameters = topology_params(4);
    let genome = Genome::initialized(&parameters);
    let mut habitat = Habitat::new(1, || AlwaysAlive, parameters);
    habitat.insert_organism(Organism::new(genome.clone(), AlwaysAlive).unwrap());
    habitat.reproduce_with_draws(&vec![0]);
    assert_eq!(habitat.population_size(), 1);
    assert_eq!(habitat.cloned_genomes(), vec![genome]);
}

#[test]
fn forced_reproduction_adds_a_mutated_clone() {
    let parameters = topology_params(5);
    let genome = Genome::initialized(&parameters);
    let mut habitat = Habitat::new(10, || AlwaysAlive, parameters);
    habitat.insert_organism(Organism::new(genome.clone(), AlwaysAlive).unwrap());
    habitat.reproduce_with_draws(&vec![0]);
    let genomes = habitat.cloned_genomes();
    assert_eq!(genomes.len(), 2);
    assert_eq!(genomes[0], genome);
    assert_ne!(genomes[1], genome);
}

#[test]
fn fabrication_failure_is_reported() {
    let parameters = unconnectable_params();
    let genome = Genome::uninitialized(&parameters);
    let result = Organism::new(genome, AlwaysAlive);
    assert!(matches!(result, Err(FabricationError)));
}

#[test]
fn seeding_skips_unfabricatable_genomes() {
    let mut habitat = Habitat::new(10, || AlwaysAlive, unconnectable_params());
    habitat.step();
    assert_eq!(habitat.population_size(), 0);
}

#[test]
fn population_stays_within_capacity_across_generations() {
    let mut habitat = Habitat::new(10, || AlwaysAlive, topology_params(3));
    for _ in 0..6 {
        habitat.step();
        assert!(habitat.population_size() <= 10);
        habitat.reproduce();
        assert!(habitat.population_size() <= 10);
    }
}

#[test]
fn fixed_draws_give_identical_genome_sets() {
    let mut first = Habitat::new(10, || AlwaysAlive, topology_params(9));
    let mut second = Habitat::new(10, || AlwaysAlive, topology_params(9));
    first.insert_organism(
        Organism::new(Genome::initialized(&topology_params(9)), AlwaysAlive).unwrap(),
    );
    second.insert_organism(
        Organism::new(Genome::initialized(&topology_params(9)), AlwaysAlive).unwrap(),
    );
    first.reproduce_with_draws(&vec![0]);
    second.reproduce_with_draws(&vec![0]);
    assert_eq!(first.cloned_genomes(), second.cloned_genomes());
}

#[test]
fn step_does_not_seed_a_populated_habitat() {
    let parameters = Parameters::default();
    let genome = Genome::initialized(&parameters);
    let mut habitat = Habitat::new(10, || AlwaysAlive, parameters);
    habitat.insert_organism(Organism::new(genome.clone(), AlwaysAlive).unwrap());
    habitat.step();
    assert_eq!(habitat.cloned_genomes(), vec![genome]);
}
