//! The search for a genome that a fitness function scores well: trials of
//! one genome, and a climb that keeps a mutated genome only where it scores
//! lower.
use crate::creature::{Age, Creature, CreatureView};
use crate::genome::{lemma_ticked_well_formed, seeded, stepped, ticked, well_formed, GeneView, Genome};
use crate::mutation::Mutation;
use rand::StdRng;
use vstd::prelude::*;

verus! {

/// A score together with the genome that earned it. Lower is better, and
/// zero is the optimum.
#[derive(Debug, PartialEq)]
pub struct Fitness<W>(pub u32, pub Genome<W>);

/// How one trial ended.
pub struct Outcome<W> {
    /// The tick on which the creature became a child, counted from zero, or
    /// the cap where it never did.
    pub ticks: u32,
    /// The genes as the trial left them.
    pub genes: Seq<GeneView<W>>,
    /// The creature as the trial left it.
    pub state: CreatureView,
}

/// The outcome of a trial that has reached tick `tick`: it ends on the
/// first tick after which the creature is a child, and at the cap.
pub open spec fn run_from<W>(genes: Seq<GeneView<W>>, state: CreatureView, tick: u32, cap: u32) -> Outcome<W>
    decreases cap - tick,
{
    if tick >= cap {
        Outcome { ticks: cap, genes: genes, state: state }
    } else if stepped(genes, state).age() == Age::Child {
        Outcome { ticks: tick, genes: ticked(genes), state: stepped(genes, state) }
    } else {
        run_from(ticked(genes), stepped(genes, state), (tick + 1) as u32, cap)
    }
}

/// The outcome of a trial of these genes: a new creature, seeded by them,
/// stepped for up to `cap` ticks.
pub open spec fn trial<W>(genes: Seq<GeneView<W>>, cap: u32) -> Outcome<W> {
    run_from(genes, CreatureView::blank().with_chems(seeded(genes, CreatureView::blank().chems)), 0, cap)
}

/// `|target - ticks|`.
pub open spec fn gap(target: u32, ticks: u32) -> u32 {
    if target >= ticks {
        (target - ticks) as u32
    } else {
        (ticks - target) as u32
    }
}

/// The score of a trial that aimed at `target` ticks: how far it ended from
/// them.
pub fn distance(target: u32, ticks: u32) -> (score: u32)
    ensures
        score == gap(target, ticks),
{
    if target >= ticks {
        target - ticks
    } else {
        ticks - target
    }
}

/// A trial leaves genes that can be stepped.
pub proof fn lemma_run_well_formed<W>(genes: Seq<GeneView<W>>, state: CreatureView, tick: u32, cap: u32)
    requires
        well_formed(genes),
    ensures
        well_formed(run_from(genes, state, tick, cap).genes),
        run_from(genes, state, tick, cap).genes.len() == genes.len(),
    decreases cap - tick,
{
    lemma_ticked_well_formed(genes);
    if tick < cap && stepped(genes, state).age() != Age::Child {
        lemma_run_well_formed(ticked(genes), stepped(genes, state), (tick + 1) as u32, cap);
    }
}

/// Runs one trial of the genome and returns the ticks it took.
pub fn run<W>(genome: &mut Genome<W>, cap: u32) -> (ticks: u32)
    requires
        well_formed(old(genome)@),
    ensures
        ticks == trial(old(genome)@, cap).ticks,
        final(genome)@ == trial(old(genome)@, cap).genes,
        well_formed(final(genome)@),
        final(genome)@.len() == old(genome)@.len(),
{
    proof {
        lemma_run_well_formed(
            genome@,
            CreatureView::blank().with_chems(seeded(genome@, CreatureView::blank().chems)),
            0,
            cap,
        );
    }
    let mut creature = Creature::new();
    genome.init(&mut creature);
    let ghost goal = trial(genome@, cap);
    let mut t: u32 = 0;
    while t < cap
        invariant
            t <= cap,
            well_formed(genome@),
            run_from(genome@, creature@, t, cap) == goal,
            goal == trial(old(genome)@, cap),
            goal.genes.len() == old(genome)@.len(),
            well_formed(goal.genes),
        decreases cap - t,
    {
        proof {
            lemma_ticked_well_formed(genome@);
        }
        let ghost genes = genome@;
        let ghost state = creature@;
        genome.step(&mut creature);
        assert(goal == if stepped(genes, state).age() == Age::Child {
            Outcome { ticks: t, genes: ticked(genes), state: stepped(genes, state) }
        } else {
            run_from(ticked(genes), stepped(genes, state), (t + 1) as u32, cap)
        });
        if creature.age() == Age::Child {
            return t;
        }
        t = t + 1;
    }
    cap
}

/// Whether `runs` are trials of one outcome that `fitness` scored, and run
/// `k` is the first of them with the least score.
pub open spec fn first_least<W, F: Fn(u32, &Genome<W>) -> u32>(
    fitness: F,
    outcome: Outcome<W>,
    runs: Seq<Fitness<W>>,
    k: int,
) -> bool {
    &&& 0 <= k < runs.len()
    &&& forall|i: int|
        0 <= i < runs.len() ==> (#[trigger] runs[i]).1@ == outcome.genes && fitness.ensures(
            (outcome.ticks, &runs[i].1),
            runs[i].0,
        )
    &&& forall|i: int| 0 <= i < runs.len() ==> runs[k].0 <= (#[trigger] runs[i]).0
    &&& forall|i: int| 0 <= i < k ==> runs[k].0 < (#[trigger] runs[i]).0
}

/// Runs `trials` trials of the base genome, scores each with `fitness` from
/// the ticks it took and the genome it left, and returns the first of those
/// with the least score.
pub fn evolve<W: Copy, F: Fn(u32, &Genome<W>) -> u32>(base: Genome<W>, trials: usize, cap: u32, fitness: &F) -> (best:
    Fitness<W>)
    requires
        trials > 0,
        well_formed(base@),
        forall|t: u32, g: &Genome<W>| fitness.requires((t, g)),
    ensures
        exists|runs: Seq<Fitness<W>>, k: int|
            runs.len() == trials && first_least(*fitness, trial(base@, cap), runs, k) && best == runs[k],
        well_formed(best.1@),
        best.1@.len() == base@.len(),
{
    let ghost outcome = trial(base@, cap);
    proof {
        lemma_run_well_formed(
            base@,
            CreatureView::blank().with_chems(seeded(base@, CreatureView::blank().chems)),
            0,
            cap,
        );
    }
    let mut genome = base.clone();
    let ticks = run(&mut genome, cap);
    let score = fitness(ticks, &genome);
    let mut best = Fitness(score, genome);
    let ghost mut runs: Seq<Fitness<W>> = seq![best];
    let ghost mut k: int = 0;
    for i in 1..trials
        invariant
            well_formed(base@),
            outcome == trial(base@, cap),
            forall|t: u32, g: &Genome<W>| fitness.requires((t, g)),
            runs.len() == i,
            first_least(*fitness, outcome, runs, k),
            best == runs[k],
    {
        let mut genome = base.clone();
        let ticks = run(&mut genome, cap);
        let score = fitness(ticks, &genome);
        let next = Fitness(score, genome);
        let ghost before = runs;
        proof {
            runs = runs.push(next);
            assert(forall|j: int| 0 <= j < before.len() ==> runs[j] == before[j]);
        }
        if score < best.0 {
            best = next;
            proof {
                k = i as int;
            }
        }
    }
    best
}

/// Whether `kept` is what a round leaves that tried `mutation` on the
/// incumbent: the first of the least-scoring among `trials` trials of the
/// mutated genome where that scores lower than the incumbent, and the
/// incumbent where it does not.
pub open spec fn challenged<W, F: Fn(u32, &Genome<W>) -> u32>(
    fitness: F,
    incumbent: Fitness<W>,
    mutation: Mutation<W>,
    trials: usize,
    cap: u32,
    kept: Fitness<W>,
) -> bool {
    exists|runs: Seq<Fitness<W>>, k: int|
        runs.len() == trials && #[trigger] first_least(
            fitness,
            trial(mutation.applied(incumbent.1@), cap),
            runs,
            k,
        ) && kept == if runs[k].0 < incumbent.0 {
            runs[k]
        } else {
            incumbent
        }
}

/// One round of the climb with the mutation given: makes the mutation on a
/// copy of the incumbent's genome, runs `evolve` on it, and keeps the result
/// only where it scores lower than the incumbent. The score never rises.
pub fn challenge<W: Copy, F: Fn(u32, &Genome<W>) -> u32>(
    incumbent: Fitness<W>,
    mutation: Mutation<W>,
    trials: usize,
    cap: u32,
    fitness: &F,
) -> (kept: Fitness<W>)
    requires
        trials > 0,
        well_formed(incumbent.1@),
        mutation.fits(incumbent.1@),
        mutation.sound(),
        forall|t: u32, g: &Genome<W>| fitness.requires((t, g)),
    ensures
        kept.0 <= incumbent.0,
        well_formed(kept.1@),
        challenged(*fitness, incumbent, mutation, trials, cap, kept),
{
    let variant = incumbent.1.clone().mutated(mutation);
    let challenger = evolve(variant, trials, cap, fitness);
    if challenger.0 < incumbent.0 {
        challenger
    } else {
        incumbent
    }
}

/// Whether `kept` is what a round of the climb may leave of `incumbent`:
/// what `challenge` leaves for a mutation that `Genome::draw` gives.
pub open spec fn round_made<W, F: Fn(u32, &Genome<W>) -> u32>(
    fitness: F,
    incumbent: Fitness<W>,
    kept: Fitness<W>,
    trials: usize,
    cap: u32,
) -> bool {
    exists|mutation: Mutation<W>|
        mutation.fits(incumbent.1@) && mutation.sound() && mutation.drawn() && #[trigger] challenged(
            fitness,
            incumbent,
            mutation,
            trials,
            cap,
            kept,
        )
}

/// Whether `held` are the incumbents of a climb from the genes `base`, one
/// after the other: the first is what `evolve` gives for the base, and each
/// one behind it is what a round of the climb may leave of the one before
/// it.
pub open spec fn climbed_from<W, F: Fn(u32, &Genome<W>) -> u32>(
    fitness: F,
    base: Seq<GeneView<W>>,
    held: Seq<Fitness<W>>,
    trials: usize,
    cap: u32,
) -> bool {
    &&& held.len() >= 1
    &&& exists|runs: Seq<Fitness<W>>, k: int|
        runs.len() == trials && #[trigger] first_least(fitness, trial(base, cap), runs, k) && held[0] == runs[k]
    &&& forall|i: int| 0 < i < held.len() ==> round_made(fitness, held[i - 1], #[trigger] held[i], trials, cap)
}

/// One round of the climb: `challenge` with a mutation drawn for the
/// incumbent's genome. The score never rises.
pub fn climb<W: Copy, F: Fn(u32, &Genome<W>) -> u32>(
    incumbent: Fitness<W>,
    rng: &mut StdRng,
    trials: usize,
    cap: u32,
    fitness: &F,
) -> (kept: Fitness<W>)
    requires
        trials > 0,
        well_formed(incumbent.1@),
        incumbent.1@.len() < usize::MAX,
        forall|t: u32, g: &Genome<W>| fitness.requires((t, g)),
    ensures
        kept.0 <= incumbent.0,
        well_formed(kept.1@),
        round_made(*fitness, incumbent, kept, trials, cap),
{
    let mutation = incumbent.1.draw(rng);
    challenge(incumbent, mutation, trials, cap, fitness)
}

/// The climb: scores the base genome with `evolve`, then makes up to
/// `rounds` rounds of `climb`, stopping early once the score is zero or the
/// genome can grow no longer. Returns the last incumbent and the score that
/// stood after each call of `evolve`, the first for the base.
///
/// From one round to the next the score never rises.
pub fn search<W: Copy, F: Fn(u32, &Genome<W>) -> u32>(
    base: Genome<W>,
    rounds: usize,
    rng: &mut StdRng,
    trials: usize,
    cap: u32,
    fitness: &F,
) -> (found: (Fitness<W>, Vec<u32>))
    requires
        trials > 0,
        well_formed(base@),
        forall|t: u32, g: &Genome<W>| fitness.requires((t, g)),
    ensures
        1 <= found.1@.len() <= rounds + 1,
        forall|i: int, j: int| 0 <= i <= j < found.1@.len() ==> found.1@[j] <= found.1@[i],
        found.0.0 == found.1@.last(),
        well_formed(found.0.1@),
        found.1@.len() <= rounds ==> found.0.0 == 0 || found.0.1@.len() >= usize::MAX,
        exists|held: Seq<Fitness<W>>| #[trigger]
            climbed_from(*fitness, base@, held, trials, cap) && held.len() == found.1@.len() && held.last()
                == found.0 && (forall|i: int| 0 <= i < held.len() ==> (#[trigger] held[i]).0 == found.1@[i]),
{
    let mut incumbent = evolve(base, trials, cap, fitness);
    let ghost mut held: Seq<Fitness<W>> = seq![incumbent];
    let mut history: Vec<u32> = Vec::new();
    history.push(incumbent.0);
    let mut round: usize = 0;
    while round < rounds && incumbent.0 != 0 && incumbent.1.len() < usize::MAX
        invariant
            trials > 0,
            forall|t: u32, g: &Genome<W>| fitness.requires((t, g)),
            round <= rounds,
            history@.len() == round + 1,
            forall|i: int, j: int| 0 <= i <= j < history@.len() ==> history@[j] <= history@[i],
            incumbent.0 == history@.last(),
            well_formed(incumbent.1@),
            held.len() == history@.len(),
            held.last() == incumbent,
            forall|i: int| 0 <= i < held.len() ==> (#[trigger] held[i]).0 == history@[i],
            climbed_from(*fitness, base@, held, trials, cap),
        decreases rounds - round,
    {
        let ghost before = held;
        incumbent = climb(incumbent, rng, trials, cap, fitness);
        history.push(incumbent.0);
        round = round + 1;
        proof {
            held = held.push(incumbent);
            assert(held[0] == before[0]);
            assert forall|i: int| 0 < i < held.len() implies round_made(
                *fitness,
                held[i - 1],
                #[trigger] held[i],
                trials,
                cap,
            ) by {
                if i < before.len() {
                    assert(round_made(*fitness, before[i - 1], before[i], trials, cap));
                }
            }
        }
    }
    (incumbent, history)
}

} // verus!
