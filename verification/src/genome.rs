//! Genes and the genome that carries them.
use crate::brain::{layers_of, weight_count, NetView, NeuralNet};
use crate::chem::{gained, level_in, Chemical, Concentration, Id};
use crate::creature::{Creature, CreatureView, LocusValue};
use crate::emitter::Emitter;
use crate::reaction::Reaction;
use crate::receptor::Receptor;
use vstd::prelude::*;

verus! {

/// One heritable unit of behaviour. `W` is the type of a network weight.
#[derive(Debug, PartialEq)]
pub enum Gene<W> {
    /// An amount of a chemical that the organism starts with.
    InitialState(Chemical),
    Emitter(Emitter),
    Reaction(Reaction),
    Receptor(Receptor),
    /// A network: its number of hidden layers, their width, and its flat
    /// weights.
    Brain(usize, usize, Vec<W>),
}

/// A signal of a receptor: the chemical that crossed its threshold, and the
/// value that the receptor gave.
pub type Signal = (Id, LocusValue);

/// A gene as the contracts see it.
pub enum GeneView<W> {
    InitialState(Chemical),
    Emitter(Emitter),
    Reaction(Reaction),
    Receptor(Receptor),
    Brain(usize, usize, Seq<W>),
}

impl<W> View for Gene<W> {
    type V = GeneView<W>;

    open spec fn view(&self) -> GeneView<W> {
        match *self {
            Gene::InitialState(c) => GeneView::InitialState(c),
            Gene::Emitter(e) => GeneView::Emitter(e),
            Gene::Reaction(r) => GeneView::Reaction(r),
            Gene::Receptor(r) => GeneView::Receptor(r),
            Gene::Brain(hidden, width, weights) => GeneView::Brain(hidden, width, weights@),
        }
    }
}

impl<W> GeneView<W> {
    /// Whether the gene can be stepped: a reaction must be well formed,
    /// every other gene is.
    pub open spec fn well_formed(self) -> bool {
        match self {
            GeneView::Reaction(r) => r.kind.well_formed(),
            _ => true,
        }
    }

    /// The chemistry after this gene has seeded it: an initial state adds
    /// its amount to its chemical, every other gene leaves it alone.
    pub open spec fn seeded(self, chems: Map<Id, Concentration>) -> Map<Id, Concentration> {
        match self {
            GeneView::InitialState(c) => gained(chems, c.id, c.concentration),
            _ => chems,
        }
    }

    /// The gene after one tick: an emitter or a reaction has counted it.
    pub open spec fn ticked(self) -> GeneView<W> {
        match self {
            GeneView::Emitter(e) => GeneView::Emitter(e.ticked()),
            GeneView::Reaction(r) => GeneView::Reaction(r.ticked()),
            _ => self,
        }
    }

    /// The state after one tick of this gene, in a tick that began with
    /// the levels `began`: emitters, reactions and receptors act, the other
    /// genes do not. A receptor compares the level that it finds with the
    /// level that its chemical had when the tick began.
    pub open spec fn stepped(self, state: CreatureView, began: Map<Id, Concentration>) -> CreatureView {
        match self {
            GeneView::Emitter(e) => e.stepped(state),
            GeneView::Reaction(r) => r.stepped(state),
            GeneView::Receptor(r) => r.stepped(state, level_in(began, r.chemical)),
            _ => state,
        }
    }

    /// The signal that this gene gives on its tick: that of a receptor
    /// whose chemical has crossed its threshold since the tick began, with
    /// the chemical it is for. Every other gene gives none.
    pub open spec fn signalled(self, state: CreatureView, began: Map<Id, Concentration>) -> Option<Signal> {
        match self {
            GeneView::Receptor(r) => match r.signal(level_in(began, r.chemical), level_in(state.chems, r.chemical)) {
                Some(value) => Some((r.chemical, value)),
                None => None,
            },
            _ => None,
        }
    }
}

/// Whether every gene can be stepped.
pub open spec fn well_formed<W>(genes: Seq<GeneView<W>>) -> bool {
    forall|i: int| 0 <= i < genes.len() ==> (#[trigger] genes[i]).well_formed()
}

/// The chemistry after the genes have seeded it, first gene first.
pub open spec fn seeded<W>(genes: Seq<GeneView<W>>, chems: Map<Id, Concentration>) -> Map<Id, Concentration>
    decreases genes.len(),
{
    if genes.len() == 0 {
        chems
    } else {
        genes.last().seeded(seeded(genes.drop_last(), chems))
    }
}

/// The genes after one tick.
pub open spec fn ticked<W>(genes: Seq<GeneView<W>>) -> Seq<GeneView<W>> {
    genes.map_values(|g: GeneView<W>| g.ticked())
}

/// The state that the genes leave, first gene first, in a tick that began
/// with the levels `began`: each gene acts on what the genes before it
/// left.
pub open spec fn stepped_within<W>(
    genes: Seq<GeneView<W>>,
    state: CreatureView,
    began: Map<Id, Concentration>,
) -> CreatureView
    decreases genes.len(),
{
    if genes.len() == 0 {
        state
    } else {
        genes.last().stepped(stepped_within(genes.drop_last(), state, began), began)
    }
}

/// The state after one tick of the genes on `state`.
pub open spec fn stepped<W>(genes: Seq<GeneView<W>>, state: CreatureView) -> CreatureView {
    stepped_within(genes, state, state.chems)
}

/// The signals that the genes give, in the order of the genes, in a tick
/// that began with the levels `began`.
pub open spec fn signals_within<W>(
    genes: Seq<GeneView<W>>,
    state: CreatureView,
    began: Map<Id, Concentration>,
) -> Seq<Signal>
    decreases genes.len(),
{
    if genes.len() == 0 {
        Seq::empty()
    } else {
        let before = signals_within(genes.drop_last(), state, began);
        match genes.last().signalled(stepped_within(genes.drop_last(), state, began), began) {
            Some(signal) => before.push(signal),
            None => before,
        }
    }
}

/// The signals of one tick of the genes on `state`.
pub open spec fn signals<W>(genes: Seq<GeneView<W>>, state: CreatureView) -> Seq<Signal> {
    signals_within(genes, state, state.chems)
}

/// The genes and the state after `ticks` ticks.
pub open spec fn after_ticks<W>(genes: Seq<GeneView<W>>, state: CreatureView, ticks: nat) -> (Seq<GeneView<W>>, CreatureView)
    decreases ticks,
{
    if ticks == 0 {
        (genes, state)
    } else {
        let (g, s) = after_ticks(genes, state, (ticks - 1) as nat);
        (ticked(g), stepped(g, s))
    }
}

/// The signals of each of the first `ticks` ticks, tick by tick.
pub open spec fn trace<W>(genes: Seq<GeneView<W>>, state: CreatureView, ticks: nat) -> Seq<Seq<Signal>>
    decreases ticks,
{
    if ticks == 0 {
        Seq::empty()
    } else {
        let (g, s) = after_ticks(genes, state, (ticks - 1) as nat);
        trace(genes, state, (ticks - 1) as nat).push(signals(g, s))
    }
}

/// Stepping keeps genes steppable.
pub proof fn lemma_ticked_well_formed<W>(genes: Seq<GeneView<W>>)
    requires
        well_formed(genes),
    ensures
        well_formed(ticked(genes)),
{
    assert forall|i: int| 0 <= i < ticked(genes).len() implies (#[trigger] ticked(genes)[i]).well_formed() by {
        assert(genes[i].well_formed());
    }
}

/// A run is determined by where it starts: from equal genes and equal
/// states, any number of ticks leaves equal genes, equal states and the
/// same signals on every tick. And every level that a run leaves lies
/// between 0 and 255.
pub proof fn lemma_runs_are_determined<W>(
    genes: Seq<GeneView<W>>,
    state: CreatureView,
    others: Seq<GeneView<W>>,
    other: CreatureView,
    ticks: nat,
    id: Id,
)
    requires
        genes == others,
        state == other,
    ensures
        after_ticks(genes, state, ticks) == after_ticks(others, other, ticks),
        trace(genes, state, ticks) == trace(others, other, ticks),
        trace(genes, state, ticks).len() == ticks,
        after_ticks(genes, state, ticks).0.len() == genes.len(),
        0 <= level_in(after_ticks(genes, state, ticks).1.chems, id) <= 255,
    decreases ticks,
{
    if ticks > 0 {
        lemma_runs_are_determined(genes, state, others, other, (ticks - 1) as nat, id);
    }
}

/// What the last brain among the genes holds: its number of hidden layers,
/// their width, and its flat weights.
pub open spec fn last_brain<W>(genes: Seq<GeneView<W>>) -> Option<(usize, usize, Seq<W>)>
    decreases genes.len(),
{
    if genes.len() == 0 {
        None
    } else {
        match genes.last() {
            GeneView::Brain(hidden, width, weights) => Some((hidden, width, weights)),
            _ => last_brain(genes.drop_last()),
        }
    }
}

/// Whatever the genes and however many ticks they have taken, every level
/// that a tick leaves lies between 0 and 255.
pub proof fn lemma_tick_keeps_levels_in_range<W>(genes: Seq<GeneView<W>>, state: CreatureView, id: Id)
    ensures
        0 <= level_in(stepped(genes, state).chems, id) <= 255,
        0 <= level_in(seeded(genes, state.chems), id) <= 255,
{
}

impl<W: Copy> Clone for Gene<W> {
    fn clone(&self) -> (copy: Gene<W>)
        ensures
            copy@ == self@,
    {
        match self {
            Gene::InitialState(c) => Gene::InitialState(*c),
            Gene::Emitter(e) => Gene::Emitter(*e),
            Gene::Reaction(r) => Gene::Reaction(*r),
            Gene::Receptor(r) => Gene::Receptor(*r),
            Gene::Brain(hidden, width, weights) => {
                let mut copy: Vec<W> = Vec::with_capacity(weights.len());
                for k in 0..weights.len()
                    invariant
                        copy@ == weights@.take(k as int),
                {
                    copy.push(weights[k]);
                    assert(copy@ =~= weights@.take(k + 1));
                }
                assert(copy@ =~= weights@);
                Gene::Brain(*hidden, *width, copy)
            },
        }
    }
}

impl<W> Gene<W> {
    /// Decides whether the gene can be stepped.
    pub fn is_well_formed(&self) -> (ok: bool)
        ensures
            ok == self@.well_formed(),
    {
        match self {
            Gene::Reaction(r) => r.kind.is_well_formed(),
            _ => true,
        }
    }
}

/// An ordered sequence of genes.
#[derive(Debug, PartialEq)]
pub struct Genome<W> {
    genes: Vec<Gene<W>>,
}

impl<W> View for Genome<W> {
    type V = Seq<GeneView<W>>;

    closed spec fn view(&self) -> Seq<GeneView<W>> {
        self.genes@.map_values(|g: Gene<W>| g@)
    }
}

impl<W: Copy> Clone for Genome<W> {
    fn clone(&self) -> (copy: Genome<W>)
        ensures
            copy@ == self@,
    {
        let mut genes: Vec<Gene<W>> = Vec::with_capacity(self.genes.len());
        for i in 0..self.genes.len()
            invariant
                genes@.len() == i,
                forall|j: int| 0 <= j < i ==> (#[trigger] genes@[j])@ == self.genes@[j]@,
        {
            genes.push(self.genes[i].clone());
        }
        let copy = Genome { genes: genes };
        assert(copy@ =~= self@);
        copy
    }
}

impl<W> Genome<W> {
    /// The genome without genes.
    pub fn new() -> (genome: Genome<W>)
        ensures
            genome@ == Seq::<GeneView<W>>::empty(),
    {
        let genome = Genome { genes: Vec::new() };
        assert(genome@ =~= Seq::<GeneView<W>>::empty());
        genome
    }

    /// The genome of the given genes, in their order.
    pub fn from_genes(genes: Vec<Gene<W>>) -> (genome: Genome<W>)
        ensures
            genome@ == genes@.map_values(|g: Gene<W>| g@),
    {
        Genome { genes: genes }
    }

    /// The number of genes.
    pub fn len(&self) -> (n: usize)
        ensures
            n == self@.len(),
    {
        self.genes.len()
    }

    /// The genes themselves, in their order.
    pub fn into_genes(self) -> (genes: Vec<Gene<W>>)
        ensures
            genes@.map_values(|g: Gene<W>| g@) == self@,
    {
        self.genes
    }

    /// The genes, in their order.
    pub fn genes(&self) -> (genes: &Vec<Gene<W>>)
        ensures
            genes@.map_values(|g: Gene<W>| g@) == self@,
    {
        &self.genes
    }

    /// Decides whether every gene can be stepped.
    pub fn is_well_formed(&self) -> (ok: bool)
        ensures
            ok == well_formed(self@),
    {
        for i in 0..self.genes.len()
            invariant
                forall|j: int| 0 <= j < i ==> (#[trigger] self@[j]).well_formed(),
        {
            if !self.genes[i].is_well_formed() {
                assert(!self@[i as int].well_formed());
                return false;
            }
        }
        true
    }

    /// Seeds the creature's chemistry: each initial state, in order, adds
    /// its amount to its chemical.
    pub fn init(&self, creature: &mut Creature)
        ensures
            final(creature)@ == old(creature)@.with_chems(seeded(self@, old(creature)@.chems)),
    {
        assert(self@.take(0) =~= Seq::<GeneView<W>>::empty());
        assert(creature@ == creature@.with_chems(creature@.chems));
        for i in 0..self.genes.len()
            invariant
                creature@ == old(creature)@.with_chems(seeded(self@.take(i as int), old(creature)@.chems)),
        {
            proof {
                assert(self@.take(i + 1).drop_last() =~= self@.take(i as int));
                assert(self@.take(i + 1).last() == self@[i as int]);
            }
            if let Gene::InitialState(c) = &self.genes[i] {
                creature.chemo_body_mut().gain(c.id(), c.concnt());
            }
        }
        assert(self@.take(self@.len() as int) =~= self@);
    }

    /// The level that the chemical of each receptor has, gene by gene; zero
    /// for a gene that is no receptor.
    fn watched(&self, creature: &Creature) -> (levels: Vec<Concentration>)
        ensures
            levels@.len() == self@.len(),
            forall|j: int|
                0 <= j < self@.len() ==> match self@[j] {
                    GeneView::Receptor(r) => #[trigger] levels@[j] == level_in(creature@.chems, r.chemical),
                    _ => true,
                },
    {
        let mut levels: Vec<Concentration> = Vec::with_capacity(self.genes.len());
        for i in 0..self.genes.len()
            invariant
                levels@.len() == i,
                forall|j: int|
                    0 <= j < i ==> match self.genes@[j]@ {
                        GeneView::Receptor(r) => #[trigger] levels@[j] == level_in(creature@.chems, r.chemical),
                        _ => true,
                    },
        {
            let level = match &self.genes[i] {
                Gene::Receptor(r) => match creature.chemo_body().peek(r.chemical) {
                    Some(level) => level,
                    None => 0,
                },
                _ => 0,
            };
            levels.push(level);
        }
        levels
    }

    /// One tick: each gene in order takes its step on the creature. Returns
    /// the signals that the receptors gave, in the order of the genes. A
    /// receptor gives one where the level of its chemical, as the genes
    /// before it left it, has crossed the threshold since the tick began.
    pub fn step(&mut self, creature: &mut Creature) -> (fired: Vec<Signal>)
        requires
            well_formed(old(self)@),
        ensures
            final(self)@ == ticked(old(self)@),
            final(creature)@ == stepped(old(self)@, old(creature)@),
            fired@ == signals(old(self)@, old(creature)@),
    {
        let began = self.watched(creature);
        let mut fired: Vec<Signal> = Vec::new();
        let ghost start = creature@.chems;
        assert(self@.take(0) =~= Seq::<GeneView<W>>::empty());
        let n = self.genes.len();
        for i in 0..n
            invariant
                n == self.genes@.len() == old(self)@.len() == began@.len(),
                well_formed(old(self)@),
                start == old(creature)@.chems,
                forall|j: int|
                    0 <= j < n ==> match old(self)@[j] {
                        GeneView::Receptor(r) => #[trigger] began@[j] == level_in(start, r.chemical),
                        _ => true,
                    },
                forall|j: int| 0 <= j < i ==> (#[trigger] self.genes@[j])@ == old(self)@[j].ticked(),
                forall|j: int| i <= j < n ==> (#[trigger] self.genes@[j])@ == old(self)@[j],
                creature@ == stepped_within(old(self)@.take(i as int), old(creature)@, start),
                fired@ == signals_within(old(self)@.take(i as int), old(creature)@, start),
        {
            proof {
                assert(old(self)@.take(i + 1).drop_last() =~= old(self)@.take(i as int));
                assert(old(self)@.take(i + 1).last() == old(self)@[i as int]);
                assert(self.genes@[i as int]@ == old(self)@[i as int]);
                assert(old(self)@[i as int].well_formed());
                assert(began@[i as int] == began@[i as int]);
            }
            let ghost before = self.genes@;
            let prev = began[i];
            match &mut self.genes[i] {
                Gene::Emitter(e) => e.step(creature),
                Gene::Reaction(r) => r.step(creature),
                Gene::Receptor(r) => {
                    if let Some(value) = r.step(creature, prev) {
                        fired.push((r.chemical, value));
                    }
                },
                _ => (),
            }
            assert(self.genes@.len() == n);
            assert(forall|j: int| 0 <= j < n && j != i ==> self.genes@[j] == before[j]);
            assert(self.genes@[i as int]@ == before[i as int]@.ticked());
        }
        assert(old(self)@.take(n as int) =~= old(self)@);
        assert(self@ =~= ticked(old(self)@));
        fired
    }
}

/// The signals of some ticks as sequences, tick by tick.
pub open spec fn tick_views(fired: Seq<Vec<Signal>>) -> Seq<Seq<Signal>> {
    Seq::new(fired.len(), |t: int| fired[t]@)
}

/// Steps a genome on a creature `steps` times and returns, tick by tick,
/// the signals that the receptors gave.
pub fn simulate_genome<W>(steps: u32, genome: &mut Genome<W>, creature: &mut Creature) -> (fired: Vec<Vec<Signal>>)
    requires
        well_formed(old(genome)@),
    ensures
        tick_views(fired@) == trace(old(genome)@, old(creature)@, steps as nat),
        final(genome)@ == after_ticks(old(genome)@, old(creature)@, steps as nat).0,
        final(creature)@ == after_ticks(old(genome)@, old(creature)@, steps as nat).1,
        well_formed(final(genome)@),
{
    let mut fired: Vec<Vec<Signal>> = Vec::new();
    assert(tick_views(fired@) =~= trace(genome@, creature@, 0));
    for t in 0..steps
        invariant
            well_formed(genome@),
            tick_views(fired@) == trace(old(genome)@, old(creature)@, t as nat),
            genome@ == after_ticks(old(genome)@, old(creature)@, t as nat).0,
            creature@ == after_ticks(old(genome)@, old(creature)@, t as nat).1,
    {
        proof {
            lemma_ticked_well_formed(genome@);
        }
        let ghost so_far = fired@;
        let tick = genome.step(creature);
        fired.push(tick);
        assert(tick_views(fired@) =~= tick_views(so_far).push(tick@));
    }
    fired
}

impl<W: Copy> Genome<W> {
    /// The network that the genome encodes for a body with `input_count`
    /// senses and `output_count` actions: that of its last brain. `None`
    /// where there is no brain, or where the last brain does not hold as
    /// many weights as its topology asks for.
    pub fn brain(&self, input_count: usize, output_count: usize) -> (net: Option<NeuralNet<W>>)
        ensures
            match last_brain(self@) {
                None => net.is_none(),
                Some((hidden, width, weights)) => {
                    &&& net.is_some() <==> weights.len() == weight_count(input_count, output_count, hidden, width)
                    &&& net matches Some(n) ==> n@ == (NetView {
                        input_count: input_count,
                        layers: layers_of(input_count, output_count, hidden, width, weights),
                    })
                },
            },
    {
        let mut i = self.genes.len();
        assert(self@.take(i as int) =~= self@);
        while i > 0
            invariant
                i <= self.genes@.len(),
                last_brain(self@) == last_brain(self@.take(i as int)),
            decreases i,
        {
            i = i - 1;
            proof {
                assert(self@.take(i + 1).drop_last() =~= self@.take(i as int));
                assert(self@.take(i + 1).last() == self.genes@[i as int]@);
            }
            if let Gene::Brain(hidden, width, weights) = &self.genes[i] {
                return NeuralNet::with_weights(input_count, output_count, *hidden, *width, weights.as_slice());
            }
        }
        None
    }
}

} // verus!
