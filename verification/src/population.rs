//! The mathematical model of the population.
//!
//! The population is modelled by the sequence of its organisms' genomes, in
//! insertion order. Membership is keyed by genome content alone, duplicate
//! insertion is a silent no-op, and one `step` retains exactly the genomes
//! whose tick returned [`crate::status::Status::Alive`]. The laws of the
//! population - deduplication, the survival filter, the seeding count and
//! the growth bounds - are stated and proved here, over this model.

use vstd::prelude::*;

use crate::capabilities::fabricable;
use crate::capabilities::genome_well_formed;
use crate::status::Status;
use set_genome::Genome;

verus! {

/// Whether the genome `g` occurs in `gs`.
pub open spec fn contains_genome(gs: Seq<Genome>, g: Genome) -> bool {
    exists|i: int| 0 <= i < gs.len() && gs[i] == g
}

/// Whether no genome occurs twice in `gs`: the population set never holds
/// two organisms with equal genomes.
pub open spec fn distinct_genomes(gs: Seq<Genome>) -> bool {
    forall|i: int, j: int| 0 <= i < j < gs.len() ==> gs[i] != gs[j]
}

/// Set-style insertion: appending `g` unless an equal genome is already
/// present, in which case the insertion coalesces silently.
pub open spec fn insert_genome(gs: Seq<Genome>, g: Genome) -> Seq<Genome> {
    if contains_genome(gs, g) {
        gs
    } else {
        gs.push(g)
    }
}

/// Set-style insertion of `new` into `gs`, in order.
pub open spec fn insert_genomes(gs: Seq<Genome>, new: Seq<Genome>) -> Seq<Genome>
    decreases new.len(),
{
    if new.len() == 0 {
        gs
    } else {
        insert_genome(insert_genomes(gs, new.drop_last()), new.last())
    }
}

/// Set-style insertion of `new` into `gs`, in order, stopping as soon as
/// the population has reached `capacity`.
pub open spec fn insert_genomes_capped(gs: Seq<Genome>, new: Seq<Genome>, capacity: int) -> Seq<
    Genome,
>
    decreases new.len(),
{
    if new.len() == 0 || gs.len() >= capacity {
        gs
    } else {
        insert_genomes_capped(insert_genome(gs, new.first()), new.drop_first(), capacity)
    }
}

/// The genomes retained by one survival pass: genome `i` stays exactly when
/// its tick returned `Alive`.
pub open spec fn survivors(gs: Seq<Genome>, sts: Seq<Status>) -> Seq<Genome>
    decreases gs.len(),
{
    if gs.len() == 0 || sts.len() == 0 {
        Seq::empty()
    } else if sts.last() == Status::Alive {
        survivors(gs.drop_last(), sts.drop_last()).push(gs.last())
    } else {
        survivors(gs.drop_last(), sts.drop_last())
    }
}

/// How many organisms an empty population is seeded with from freshly
/// initialized genomes: the ceiling of one tenth of the capacity. One more
/// organism, from the canonical default genome, is seeded besides.
pub open spec fn seed_quota(capacity: int) -> int {
    capacity / 10 + if capacity % 10 == 0 {
        0int
    } else {
        1int
    }
}

/// Whether every genome in a batch of construction attempts is one the
/// genome capability built.
pub open spec fn all_well_formed(attempts: Seq<Genome>) -> bool {
    forall|i: int| 0 <= i < attempts.len() ==> genome_well_formed(#[trigger] attempts[i])
}

/// The genomes among a batch of construction attempts whose evaluator the
/// fabrication capability accepts, in order: the ones that become
/// organisms, the rest being skipped.
pub open spec fn fabricable_among(attempts: Seq<Genome>) -> Seq<Genome> {
    attempts.filter(|genome: Genome| fabricable(genome))
}

/// One more attempt extends the fabricable part by the new genome exactly
/// when that genome is fabricable.
pub proof fn lemma_fabricable_among_push(attempts: Seq<Genome>, genome: Genome)
    ensures
        fabricable_among(attempts.push(genome)) == if fabricable(genome) {
            fabricable_among(attempts).push(genome)
        } else {
            fabricable_among(attempts)
        },
{
    attempts.lemma_filter_push(genome, |genome: Genome| fabricable(genome));
}

/// What seeding leaves behind: an empty population is rebuilt from exactly
/// `seed_quota(capacity) + 1` construction attempts with capability-built
/// genomes - the initialized ones and the one canonical default genome -
/// of which exactly the fabricable ones are inserted, in order, duplicates
/// coalescing; a non-empty population is not seeded at all.
pub open spec fn seeded_with(
    before: Seq<Genome>,
    after: Seq<Genome>,
    capacity: int,
    attempts: Seq<Genome>,
) -> bool {
    &&& (before.len() == 0 ==> attempts.len() == seed_quota(capacity) + 1 && all_well_formed(
        attempts,
    ))
    &&& (before.len() > 0 ==> attempts.len() == 0)
    &&& after == insert_genomes(before, fabricable_among(attempts))
}

/// What one `step` leaves behind: the population is seeded if it was empty
/// (see [`seeded_with`]), every organism is ticked once, and exactly the
/// genomes whose tick returned `Alive` are retained, in order.
pub open spec fn stepped_with(
    before: Seq<Genome>,
    after: Seq<Genome>,
    capacity: int,
    attempts: Seq<Genome>,
    sts: Seq<Status>,
) -> bool {
    &&& (before.len() == 0 ==> attempts.len() == seed_quota(capacity) + 1 && all_well_formed(
        attempts,
    ))
    &&& (before.len() > 0 ==> attempts.len() == 0)
    &&& sts.len() == insert_genomes(before, fabricable_among(attempts)).len()
    &&& after == survivors(insert_genomes(before, fabricable_among(attempts)), sts)
}

/// How many draws fall below the reproduction threshold: the number of
/// mutated-clone attempts a reproduction pass makes while the population is
/// below capacity.
pub open spec fn count_below(draws: Seq<u64>, threshold: u64) -> int
    decreases draws.len(),
{
    if draws.len() == 0 {
        0
    } else {
        count_below(draws.drop_last(), threshold) + if draws.last() < threshold {
            1int
        } else {
            0int
        }
    }
}

/// What one reproduction pass leaves behind: when the population is below
/// capacity, one mutated-clone attempt with a capability-built genome is
/// made for exactly each parent whose draw falls below the threshold (none
/// otherwise), and exactly the fabricable attempts are inserted set-style
/// after the full parent pass, stopping once the capacity is reached.
/// Parents are never consumed.
pub open spec fn reproduced_with(
    before: Seq<Genome>,
    after: Seq<Genome>,
    capacity: int,
    draws: Seq<u64>,
    threshold: u64,
    attempts: Seq<Genome>,
) -> bool {
    &&& attempts.len() == if before.len() < capacity {
        count_below(draws, threshold)
    } else {
        0int
    }
    &&& all_well_formed(attempts)
    &&& after == insert_genomes_capped(before, fabricable_among(attempts), capacity)
}

/// Determinism: two runs of one `step` followed by one reproduction pass,
/// from equal starting populations and with equal capacity, in which the
/// external capabilities behave the same - the same seeded genomes, the
/// same tick outcomes and the same offspring genomes come out - leave equal
/// genome populations. The control logic adds no variation of its own; all
/// variation between real runs enters through the genome capability's and
/// the environments' own randomness.
pub proof fn lemma_generation_deterministic(
    before: Seq<Genome>,
    capacity: int,
    seed_attempts: Seq<Genome>,
    sts: Seq<Status>,
    draws: Seq<u64>,
    threshold: u64,
    offspring_attempts: Seq<Genome>,
    mid1: Seq<Genome>,
    mid2: Seq<Genome>,
    after1: Seq<Genome>,
    after2: Seq<Genome>,
)
    requires
        stepped_with(before, mid1, capacity, seed_attempts, sts),
        stepped_with(before, mid2, capacity, seed_attempts, sts),
        reproduced_with(mid1, after1, capacity, draws, threshold, offspring_attempts),
        reproduced_with(mid2, after2, capacity, draws, threshold, offspring_attempts),
    ensures
        mid1 == mid2,
        after1 == after2,
{
}

/// For any capacity of at least two, a full seeding fits within the
/// capacity; a capacity of one is the lone exception, since seeding always
/// attempts at least two organisms.
pub proof fn lemma_seed_quota_within_capacity(capacity: int)
    requires
        capacity >= 2,
    ensures
        seed_quota(capacity) + 1 <= capacity,
{
    assert(seed_quota(capacity) + 1 <= capacity) by (nonlinear_arith)
        requires
            capacity >= 2,
    ;
}

/// Deduplication: inserting two content-equal genomes leaves the second
/// insertion without effect, so inserting a genome twice into an empty
/// population yields a population of size one.
pub proof fn lemma_duplicate_insert_coalesces(gs: Seq<Genome>, g: Genome)
    ensures
        insert_genome(insert_genome(gs, g), g) == insert_genome(gs, g),
        insert_genome(insert_genome(Seq::<Genome>::empty(), g), g).len() == 1,
{
    let once = insert_genome(gs, g);
    if contains_genome(gs, g) {
        assert(contains_genome(once, g));
    } else {
        assert(once[gs.len() as int] == g);
        assert(contains_genome(once, g));
    }
    let e = Seq::<Genome>::empty();
    assert(!contains_genome(e, g));
    assert(insert_genome(e, g)[0] == g);
    assert(contains_genome(insert_genome(e, g), g));
}

/// Insertion adds at most one genome and never removes one.
pub proof fn lemma_insert_genome_len(gs: Seq<Genome>, g: Genome)
    ensures
        gs.len() <= insert_genome(gs, g).len() <= gs.len() + 1,
        gs.is_prefix_of(insert_genome(gs, g)),
{
    if !contains_genome(gs, g) {
        assert(gs =~= gs.push(g).subrange(0, gs.len() as int));
    }
}

/// Inserting a batch grows the population by at most the batch's size.
pub proof fn lemma_insert_genomes_len(gs: Seq<Genome>, new: Seq<Genome>)
    ensures
        gs.len() <= insert_genomes(gs, new).len() <= gs.len() + new.len(),
    decreases new.len(),
{
    if new.len() > 0 {
        lemma_insert_genomes_len(gs, new.drop_last());
        lemma_insert_genome_len(insert_genomes(gs, new.drop_last()), new.last());
    }
}

/// Whatever insertion adds was part of the inserted batch.
pub proof fn lemma_insert_genomes_membership(gs: Seq<Genome>, new: Seq<Genome>, g: Genome)
    requires
        contains_genome(insert_genomes(gs, new), g),
    ensures
        contains_genome(gs, g) || contains_genome(new, g),
    decreases new.len(),
{
    if new.len() > 0 {
        let prev = insert_genomes(gs, new.drop_last());
        if contains_genome(prev, g) {
            lemma_insert_genomes_membership(gs, new.drop_last(), g);
            if contains_genome(new.drop_last(), g) {
                let i = choose|i: int| 0 <= i < new.drop_last().len() && new.drop_last()[i] == g;
                assert(new[i] == g);
            }
        } else {
            assert(insert_genomes(gs, new)[prev.len() as int] == new.last());
            assert(new[new.len() - 1] == g);
        }
    }
}

/// Seeding count: inserting pairwise-distinct fresh genomes into a
/// population that holds none of them grows it by exactly their number.
/// In particular, seeding an empty population with `seed_quota(capacity)`
/// distinct initialized genomes and one distinct default genome yields
/// `seed_quota(capacity) + 1` organisms; only deduplication against an
/// identical genome can lower that count.
pub proof fn lemma_seeding_count(gs: Seq<Genome>, new: Seq<Genome>)
    requires
        distinct_genomes(new),
        forall|i: int| 0 <= i < new.len() ==> !contains_genome(gs, #[trigger] new[i]),
    ensures
        insert_genomes(gs, new).len() == gs.len() + new.len(),
    decreases new.len(),
{
    if new.len() > 0 {
        let head = new.drop_last();
        assert(forall|i: int| 0 <= i < head.len() ==> head[i] == new[i]);
        lemma_seeding_count(gs, head);
        let prev = insert_genomes(gs, head);
        if contains_genome(prev, new.last()) {
            lemma_insert_genomes_membership(gs, head, new.last());
            if contains_genome(head, new.last()) {
                let i = choose|i: int| 0 <= i < head.len() && head[i] == new.last();
                assert(new[i] == new[new.len() - 1]);
                assert(false);
            }
        }
    }
}

/// A survival pass never grows the population.
pub proof fn lemma_survivors_len(gs: Seq<Genome>, sts: Seq<Status>)
    ensures
        survivors(gs, sts).len() <= gs.len(),
    decreases gs.len(),
{
    if gs.len() > 0 && sts.len() > 0 {
        lemma_survivors_len(gs.drop_last(), sts.drop_last());
    }
}

/// Every survivor was part of the population that was stepped.
pub proof fn lemma_survivors_membership(gs: Seq<Genome>, sts: Seq<Status>, g: Genome)
    requires
        contains_genome(survivors(gs, sts), g),
    ensures
        contains_genome(gs, g),
    decreases gs.len(),
{
    if gs.len() > 0 && sts.len() > 0 {
        let prev = survivors(gs.drop_last(), sts.drop_last());
        let cur = survivors(gs, sts);
        let i = choose|i: int| 0 <= i < cur.len() && cur[i] == g;
        if sts.last() == Status::Alive && i == prev.len() {
            assert(gs[gs.len() - 1] == g);
        } else {
            assert(prev[i] == g);
            lemma_survivors_membership(gs.drop_last(), sts.drop_last(), g);
            let j = choose|j: int| 0 <= j < gs.drop_last().len() && gs.drop_last()[j] == g;
            assert(gs[j] == g);
        }
    }
}

/// A survival pass keeps the population free of duplicate genomes.
pub proof fn lemma_survivors_distinct(gs: Seq<Genome>, sts: Seq<Status>)
    requires
        distinct_genomes(gs),
    ensures
        distinct_genomes(survivors(gs, sts)),
    decreases gs.len(),
{
    if gs.len() > 0 && sts.len() > 0 {
        let head = gs.drop_last();
        assert(forall|i: int| 0 <= i < head.len() ==> head[i] == gs[i]);
        lemma_survivors_distinct(head, sts.drop_last());
        let prev = survivors(head, sts.drop_last());
        if sts.last() == Status::Alive {
            if contains_genome(prev, gs.last()) {
                lemma_survivors_membership(head, sts.drop_last(), gs.last());
                let i = choose|i: int| 0 <= i < head.len() && head[i] == gs.last();
                assert(gs[i] == gs[gs.len() - 1]);
                assert(false);
            }
            assert forall|i: int, j: int|
                0 <= i < j < survivors(gs, sts).len() implies survivors(gs, sts)[i] != survivors(
                gs,
                sts,
            )[j] by {
                if j < prev.len() {
                    assert(prev[i] != prev[j]);
                } else {
                    assert(survivors(gs, sts)[j] == gs.last());
                    assert(contains_genome(prev, prev[i]));
                }
            }
        }
    }
}

/// Survival filter: in a duplicate-free population, the genome stepped at
/// position `i` is retained exactly when its tick returned `Alive`, and is
/// removed exactly when its tick returned `Dead`.
pub proof fn lemma_survival_filter(gs: Seq<Genome>, sts: Seq<Status>, i: int)
    requires
        distinct_genomes(gs),
        sts.len() == gs.len(),
        0 <= i < gs.len(),
    ensures
        contains_genome(survivors(gs, sts), gs[i]) <==> sts[i] == Status::Alive,
    decreases gs.len(),
{
    let head = gs.drop_last();
    let prev = survivors(head, sts.drop_last());
    assert(forall|k: int| 0 <= k < head.len() ==> head[k] == gs[k]);
    if i == gs.len() - 1 {
        if sts.last() == Status::Alive {
            assert(survivors(gs, sts)[prev.len() as int] == gs.last());
        } else {
            if contains_genome(survivors(gs, sts), gs[i]) {
                lemma_survivors_membership(head, sts.drop_last(), gs[i]);
                let k = choose|k: int| 0 <= k < head.len() && head[k] == gs[i];
                assert(gs[k] == gs[gs.len() - 1]);
                assert(false);
            }
        }
    } else {
        lemma_survival_filter(head, sts.drop_last(), i);
        if sts.last() == Status::Alive {
            if sts[i] == Status::Alive {
                let k = choose|k: int| 0 <= k < prev.len() && prev[k] == gs[i];
                assert(survivors(gs, sts)[k] == gs[i]);
            } else {
                if contains_genome(survivors(gs, sts), gs[i]) {
                    let k = choose|k: int|
                        0 <= k < survivors(gs, sts).len() && survivors(gs, sts)[k] == gs[i];
                    if k < prev.len() {
                        assert(prev[k] == gs[i]);
                    } else {
                        assert(gs[gs.len() - 1] == gs[i]);
                    }
                    assert(false);
                }
            }
        }
    }
}

/// Capped insertion never lifts the population beyond the larger of its
/// starting size and the capacity, and never removes a member.
pub proof fn lemma_insert_capped_bounds(gs: Seq<Genome>, new: Seq<Genome>, capacity: int)
    ensures
        insert_genomes_capped(gs, new, capacity).len() <= gs.len() || insert_genomes_capped(
            gs,
            new,
            capacity,
        ).len() <= capacity,
        gs.len() <= insert_genomes_capped(gs, new, capacity).len(),
        gs.is_prefix_of(insert_genomes_capped(gs, new, capacity)),
    decreases new.len(),
{
    if new.len() > 0 && gs.len() < capacity {
        let one = insert_genome(gs, new.first());
        lemma_insert_genome_len(gs, new.first());
        lemma_insert_capped_bounds(one, new.drop_first(), capacity);
        let out = insert_genomes_capped(gs, new, capacity);
        assert(gs =~= one.subrange(0, gs.len() as int));
        assert(gs =~= out.subrange(0, gs.len() as int));
    }
}

} // verus!
