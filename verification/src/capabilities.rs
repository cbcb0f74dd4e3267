//! The trusted boundary to the external capabilities.
//!
//! The genome capability (`set_genome`), the network fabrication and
//! evaluation capability (`favannat`) and the randomness source (`rand`) are
//! consumed only through the declarations and wrappers in this module; the
//! rest of the crate is verified against the contracts stated here.
//!
//! Throughout this crate a `Genome` value is identified with its evolvable
//! content: `set_genome` compares genomes by set equality of their node and
//! connection genes, where a node gene is identified by its id and a
//! connection gene by its input and output ids. That comparison is a proper
//! equivalence relation (no floating-point field takes part in it), so the
//! contracts below may speak of it as equality of `Genome` values.
//!
//! Three named predicates tie the wrappers together. `genome_well_formed`
//! holds of every genome the capability itself builds or mutates and
//! excludes the hand-built values on which its operators abort;
//! `parameters_well_formed` does the same for mutation parameters; and
//! `fabricable` names the fabricator's verdict, which `set_genome` and
//! `favannat` determine from the genome's gene structure alone.
//!
//! Connection weights are not part of a genome's identity, so no spec
//! predicate over the modeled value can speak of them. The wrappers below
//! nonetheless rely on a fact about weights: every genome that verified
//! code can obtain - from the constructors, clones and mutations of this
//! module - carries ordinary weights capped into `[-1, 1]`, because the
//! capability draws every weight through its capping perturbation. That
//! keeps weight perturbation terminating and keeps NaN, which the
//! fabricator would read as an absent connection, out. A caller that
//! assembles a `Genome` by hand through `set_genome`'s public fields must
//! keep to the same bounds, as it must keep to every precondition here.

use vstd::prelude::*;

use favannat::matrix::feedforward::evaluator::MatrixFeedforwardEvaluator;
use favannat::matrix::feedforward::fabricator::MatrixFeedforwardFabricator;
use favannat::network::Fabricator;
use set_genome::Genome;
use set_genome::Parameters;

verus! {

#[verifier::external_type_specification]
#[verifier::external_body]
pub struct ExGenome(Genome);

#[verifier::external_type_specification]
#[verifier::external_body]
pub struct ExParameters(Parameters);

#[verifier::external_type_specification]
#[verifier::external_body]
pub struct ExMatrixFeedforwardEvaluator(MatrixFeedforwardEvaluator);

/// The error reported when no evaluator can be fabricated from a genome.
///
/// Fabrication failure is fatal for the organism under construction and is
/// never retried; the population loop skips that organism and continues.
#[derive(Debug, PartialEq, Eq, Structural)]
pub struct FabricationError;

/// Whether a genome's gene structure is one the genome capability itself
/// could have built: every connection gene's endpoints name node genes of
/// the genome, and either every output node has an incoming feed-forward
/// connection gene or the genome holds no feed-forward connection genes at
/// all.
///
/// `set_genome` establishes this for everything it constructs
/// (initialization connects the chosen inputs to every output, or nothing)
/// and preserves it under the mutations that [`parameters_well_formed`]
/// admits, which never remove feed-forward structure. Its mutation
/// operators and `favannat`'s fabricator abort on values outside it - a
/// connection into a missing node, or an output left without feed-forward
/// input while other connections remain - which `Genome`'s public fields
/// would otherwise let a caller assemble by hand.
pub uninterp spec fn genome_well_formed(genome: Genome) -> bool;

/// Whether `favannat`'s feed-forward fabricator accepts the genome. The
/// verdict is a function of the genome's gene structure alone - which
/// connection genes exist and which nodes they join - so it respects this
/// crate's content equality of genomes; connection weights never decide it
/// for well-formed (NaN-free) genomes.
pub uninterp spec fn fabricable(genome: Genome) -> bool;

/// Whether mutation parameters can be applied to any fabricable,
/// well-formed genome without aborting and without breaking its
/// well-formedness: every add-node mutation listed carries a non-empty
/// activation pool, and no listed mutation removes feed-forward structure
/// (no remove-connection and no remove-node mutation - removal can strand
/// an output node, which the fabricator then trips over instead of
/// reporting). `set_genome`'s own stock constructions stay within this; its
/// `Parameters` fields are public, so a hand-assembled value can fall
/// outside.
pub uninterp spec fn parameters_well_formed(parameters: Parameters) -> bool;

/// Relies on `set_genome::Genome::uninitialized` and `Genome::init`: builds
/// a genome with the configured input and output nodes and connects the
/// configured percent of input nodes to the output nodes with randomly
/// weighted connection genes - the context-driven construction path used
/// for seeding. The two calls stand together so that `init`, whose
/// insertions abort on a genome that already holds connections, only ever
/// sees the fresh connectionless genome. Every connection joins nodes of
/// the genome, each connected input feeds every output (so all outputs are
/// fed, or none), and the weights are drawn capped into `[-1, 1]`.
#[verifier::external_body]
pub(crate) fn genome_freshly_initialized(parameters: &Parameters) -> (genome: Genome)
    ensures
        genome_well_formed(genome),
{
    let mut genome = Genome::uninitialized(parameters);
    genome.init(&parameters.structure);
    genome
}

/// Relies on `set_genome::Genome::initialized`: builds a fully initialized
/// genome, the canonical default construction path; it composes the same
/// two steps as [`genome_freshly_initialized`] and yields a well-formed
/// genome for the same reasons.
#[verifier::external_body]
pub(crate) fn genome_initialized(parameters: &Parameters) -> (genome: Genome)
    ensures
        genome_well_formed(genome),
{
    Genome::initialized(parameters)
}

/// Relies on `set_genome::Genome::mutate`: applies one pass of the
/// mutations listed in the parameters, each with its configured chance. The
/// result reports whether every applicable mutation could be applied; the
/// genome may have changed either way, and stays well-formed (mutation
/// weights are drawn capped, and new connections join nodes of the genome).
///
/// The preconditions keep the call away from the inputs on which the
/// mutation operators abort or diverge: the add-node operator aborts on a
/// genome without feed-forward connection genes (a fabricable genome has at
/// least one) and on an empty activation pool, and weight perturbation
/// diverges on a weight outside `[-1, 1]` (see the module comment on
/// weights). The admitted mutations only ever add structure or rewrite
/// weights and activations in place, so every output node keeps its
/// feed-forward input and the genome stays well-formed.
#[verifier::external_body]
pub(crate) fn genome_mutate(genome: &mut Genome, parameters: &Parameters) -> (applied: bool)
    requires
        genome_well_formed(*old(genome)),
        fabricable(*old(genome)),
        parameters_well_formed(*parameters),
    ensures
        genome_well_formed(*final(genome)),
{
    genome.mutate(parameters).is_ok()
}

/// Relies on `set_genome::Genome`'s derived `Clone`: a field-wise copy, so
/// the clone carries the same evolvable content as the original.
#[verifier::external_body]
pub(crate) fn genome_clone(genome: &Genome) -> (r: Genome)
    ensures
        r == *genome,
{
    genome.clone()
}

/// Relies on `set_genome::Genome`'s `PartialEq`: genomes are equal exactly
/// when their evolvable content is equal (set equality of their id-keyed
/// node and connection genes), which is the identity this crate's population
/// is keyed by.
#[verifier::external_body]
pub(crate) fn genomes_equal(a: &Genome, b: &Genome) -> (r: bool)
    ensures
        r == (a == b),
{
    a == b
}

/// Relies on `favannat::MatrixFeedforwardFabricator::fabricate`: builds a
/// feed-forward evaluator for the genome's network exactly when the gene
/// structure admits one (connection genes exist, every output is reachable,
/// and the feed-forward part is acyclic), and otherwise reports why the
/// network is invalid. The well-formedness precondition keeps the call away
/// from the genomes on which the fabricator aborts instead of reporting:
/// ones whose connections name missing nodes, and ones where an output node
/// is left without feed-forward input while other connections remain, which
/// derail its output-reordering step.
#[verifier::external_body]
pub(crate) fn fabricate_evaluator(genome: &Genome) -> (r: Result<
    MatrixFeedforwardEvaluator,
    &'static str,
>)
    requires
        genome_well_formed(*genome),
    ensures
        r is Ok <==> fabricable(*genome),
{
    MatrixFeedforwardFabricator::fabricate(genome)
}

/// Relies on `set_genome::Parameters`' `Default`: the stock evolutionary
/// parameters; every mutation it lists that draws from an activation pool
/// carries a full one, and none of them removes feed-forward structure, so
/// the parameters are well-formed. This is the library's sanctioned way to
/// satisfy [`parameters_well_formed`] without assembling parameters by
/// hand.
#[verifier::external_body]
pub fn parameters_default() -> (parameters: Parameters)
    ensures
        parameters_well_formed(parameters),
{
    Parameters::default()
}

/// Relies on `rand::random_range`: a uniformly distributed value drawn from
/// the thread-local generator; it lies in the given half-open range and the
/// call returns normally whenever the range is non-empty.
#[verifier::external_body]
pub(crate) fn random_below(bound: u64) -> (r: u64)
    requires
        1 <= bound,
    ensures
        r < bound,
{
    rand::random_range(0..bound)
}

} // verus!
