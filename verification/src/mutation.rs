//! Mutation: the edits that a genome can undergo, what each does, and how
//! one is drawn at random.
use crate::chem::{Chemical, Concentration, Id};
use crate::creature::{LocusId, LocusValue};
use crate::emitter::Emitter;
use crate::genome::{well_formed, Gene, GeneView, Genome};
use crate::kinetics::{IoType, TickCount};
use crate::random::{draw_byte, draw_flag, draw_range};
use crate::reaction::{Reaction, ReactionType};
use crate::receptor::Receptor;
use rand::StdRng;
use vstd::prelude::*;

verus! {

/// A new value for one field of an initial state.
#[derive(Clone, Copy, Debug, PartialEq, Eq, Structural)]
pub enum ChemicalEdit {
    Id(Id),
    Concentration(Concentration),
}

/// A new value for one field of an emitter.
#[derive(Clone, Copy, Debug, PartialEq, Eq, Structural)]
pub enum EmitterEdit {
    Kind(IoType),
    Chemical(Id),
    Rate(u8),
    Gain(Concentration),
    Locus(LocusId),
    Threshold(LocusValue),
    ClearAfterRead(bool),
    Invert(bool),
}

/// A new value for one field of a reaction.
#[derive(Clone, Copy, Debug, PartialEq, Eq, Structural)]
pub enum ReactionEdit {
    Kind(ReactionType),
    Rate(u8),
}

/// A new value for one field of a receptor.
#[derive(Clone, Copy, Debug, PartialEq, Eq, Structural)]
pub enum ReceptorEdit {
    Kind(IoType),
    Chemical(Id),
    Locus(LocusId),
    Nominal(LocusValue),
    Gain(LocusValue),
    Threshold(Concentration),
    Invert(bool),
}

/// A new value for one field of a gene. A brain has no field that mutates,
/// so there is no edit for one.
#[derive(Clone, Copy, Debug, PartialEq, Eq, Structural)]
pub enum GeneEdit {
    InitialState(ChemicalEdit),
    Emitter(EmitterEdit),
    Reaction(ReactionEdit),
    Receptor(ReceptorEdit),
}

/// One mutation of a genome: a gene more at its end, or one field of one of
/// its genes replaced.
#[derive(Debug, PartialEq)]
pub enum Mutation<W> {
    Append(Gene<W>),
    Edit(usize, GeneEdit),
}

/// Whether the low bit of a byte is set.
pub open spec fn odd(value: u8) -> bool {
    value % 2 == 1
}

impl ChemicalEdit {
    /// The chemical with the edited field replaced.
    pub open spec fn applied(self, c: Chemical) -> Chemical {
        match self {
            ChemicalEdit::Id(id) => Chemical { id: id, ..c },
            ChemicalEdit::Concentration(concentration) => Chemical { concentration: concentration, ..c },
        }
    }

    /// The edit that puts `value` into the concentration, or else into the
    /// id.
    pub fn with_field(concentration: bool, value: u8) -> (edit: ChemicalEdit)
        ensures
            edit == if concentration { ChemicalEdit::Concentration(value) } else { ChemicalEdit::Id(value) },
    {
        if concentration {
            ChemicalEdit::Concentration(value)
        } else {
            ChemicalEdit::Id(value)
        }
    }

    /// An edit of a field chosen at random, with a random value.
    pub fn rand(rng: &mut StdRng) -> (edit: ChemicalEdit) {
        let concentration = draw_flag(rng);
        let value = draw_byte(rng);
        ChemicalEdit::with_field(concentration, value)
    }
}

impl EmitterEdit {
    /// The emitter with the edited field replaced; its tick count stays.
    pub open spec fn applied(self, e: Emitter) -> Emitter {
        match self {
            EmitterEdit::Kind(kind) => Emitter { kind: kind, ..e },
            EmitterEdit::Chemical(chemical) => Emitter { chemical: chemical, ..e },
            EmitterEdit::Rate(rate) => Emitter { rate: rate, ..e },
            EmitterEdit::Gain(gain) => Emitter { gain: gain, ..e },
            EmitterEdit::Locus(locus) => Emitter { locus: locus, ..e },
            EmitterEdit::Threshold(threshold) => Emitter { threshold: threshold, ..e },
            EmitterEdit::ClearAfterRead(clear) => Emitter { clear_after_read: clear, ..e },
            EmitterEdit::Invert(invert) => Emitter { invert: invert, ..e },
        }
    }

    /// What `with_field` returns.
    pub open spec fn of_field(field: usize, value: u8) -> EmitterEdit {
        if field == 1 {
            EmitterEdit::Kind(if odd(value) { IoType::Analogue } else { IoType::Digital })
        } else if field == 2 {
            EmitterEdit::Chemical(value)
        } else if field == 3 {
            EmitterEdit::Rate(value)
        } else if field == 4 {
            EmitterEdit::Gain(value)
        } else if field == 5 {
            EmitterEdit::Locus(value)
        } else if field == 6 {
            EmitterEdit::Threshold(value)
        } else if field == 7 {
            EmitterEdit::ClearAfterRead(odd(value))
        } else {
            EmitterEdit::Invert(odd(value))
        }
    }

    /// The edit that puts `value` into the field numbered `field`: 1 the
    /// kind, 2 the chemical, 3 the rate, 4 the gain, 5 the locus, 6 the
    /// threshold, 7 the clearing flag, any other number the inverting flag.
    /// A flag, and the kind, go by the low bit of `value`.
    pub fn with_field(field: usize, value: u8) -> (edit: EmitterEdit)
        ensures
            edit == EmitterEdit::of_field(field, value),
    {
        let flag = value % 2 == 1;
        match field {
            1 => EmitterEdit::Kind(IoType::from_flag(flag)),
            2 => EmitterEdit::Chemical(value),
            3 => EmitterEdit::Rate(value),
            4 => EmitterEdit::Gain(value),
            5 => EmitterEdit::Locus(value),
            6 => EmitterEdit::Threshold(value),
            7 => EmitterEdit::ClearAfterRead(flag),
            _ => EmitterEdit::Invert(flag),
        }
    }

    /// An edit of a field chosen at random, with a random value.
    pub fn rand(rng: &mut StdRng) -> (edit: EmitterEdit) {
        let field = draw_range(rng, 0, 8);
        let value = draw_byte(rng);
        EmitterEdit::with_field(field, value)
    }
}

impl ReactionEdit {
    /// The reaction with the edited field replaced; its tick count stays.
    pub open spec fn applied(self, r: Reaction) -> Reaction {
        match self {
            ReactionEdit::Kind(kind) => Reaction { kind: kind, ..r },
            ReactionEdit::Rate(rate) => Reaction { rate: rate, ..r },
        }
    }

    /// Whether the edit leaves a reaction that can be stepped.
    pub open spec fn sound(self) -> bool {
        match self {
            ReactionEdit::Kind(kind) => kind.well_formed(),
            ReactionEdit::Rate(_) => true,
        }
    }

    /// Whether the edit is one that `rand` gives: a new kind moves every
    /// chemical in an amount from 1 to 16 per event; a new rate is any byte.
    pub open spec fn drawn(self) -> bool {
        match self {
            ReactionEdit::Kind(kind) => kind.modest(),
            ReactionEdit::Rate(_) => true,
        }
    }

    /// The edit that replaces the kind by `kind`, or else the rate by
    /// `rate`.
    pub fn with_field(replace_kind: bool, kind: ReactionType, rate: u8) -> (edit: ReactionEdit)
        ensures
            edit == if replace_kind { ReactionEdit::Kind(kind) } else { ReactionEdit::Rate(rate) },
    {
        if replace_kind {
            ReactionEdit::Kind(kind)
        } else {
            ReactionEdit::Rate(rate)
        }
    }

    /// An edit of a field chosen at random, with a random value. A random
    /// kind is one that `ReactionType::rand` gives.
    pub fn rand(rng: &mut StdRng) -> (edit: ReactionEdit)
        ensures
            edit.sound(),
            edit.drawn(),
    {
        let replace_kind = draw_flag(rng);
        let kind = ReactionType::rand(rng);
        let rate = draw_byte(rng);
        ReactionEdit::with_field(replace_kind, kind, rate)
    }
}

impl ReceptorEdit {
    /// The receptor with the edited field replaced.
    pub open spec fn applied(self, r: Receptor) -> Receptor {
        match self {
            ReceptorEdit::Kind(kind) => Receptor { kind: kind, ..r },
            ReceptorEdit::Chemical(chemical) => Receptor { chemical: chemical, ..r },
            ReceptorEdit::Locus(locus) => Receptor { locus: locus, ..r },
            ReceptorEdit::Nominal(nominal) => Receptor { nominal: nominal, ..r },
            ReceptorEdit::Gain(gain) => Receptor { gain: gain, ..r },
            ReceptorEdit::Threshold(threshold) => Receptor { threshold: threshold, ..r },
            ReceptorEdit::Invert(invert) => Receptor { invert: invert, ..r },
        }
    }

    /// What `with_field` returns.
    pub open spec fn of_field(field: usize, value: u8) -> ReceptorEdit {
        if field == 1 {
            ReceptorEdit::Kind(if odd(value) { IoType::Analogue } else { IoType::Digital })
        } else if field == 2 {
            ReceptorEdit::Chemical(value)
        } else if field == 3 {
            ReceptorEdit::Locus(value)
        } else if field == 4 {
            ReceptorEdit::Nominal(value)
        } else if field == 5 {
            ReceptorEdit::Gain(value)
        } else if field == 6 {
            ReceptorEdit::Threshold(value)
        } else {
            ReceptorEdit::Invert(odd(value))
        }
    }

    /// The edit that puts `value` into the field numbered `field`: 1 the
    /// kind, 2 the chemical, 3 the locus, 4 the nominal value, 5 the gain,
    /// 6 the threshold, any other number the inverting flag. The flag, and
    /// the kind, go by the low bit of `value`.
    pub fn with_field(field: usize, value: u8) -> (edit: ReceptorEdit)
        ensures
            edit == ReceptorEdit::of_field(field, value),
    {
        let flag = value % 2 == 1;
        match field {
            1 => ReceptorEdit::Kind(IoType::from_flag(flag)),
            2 => ReceptorEdit::Chemical(value),
            3 => ReceptorEdit::Locus(value),
            4 => ReceptorEdit::Nominal(value),
            5 => ReceptorEdit::Gain(value),
            6 => ReceptorEdit::Threshold(value),
            _ => ReceptorEdit::Invert(flag),
        }
    }

    /// An edit of a field chosen at random, with a random value.
    pub fn rand(rng: &mut StdRng) -> (edit: ReceptorEdit) {
        let field = draw_range(rng, 0, 7);
        let value = draw_byte(rng);
        ReceptorEdit::with_field(field, value)
    }
}

impl Chemical {
    /// This chemical with one field replaced.
    pub fn edited(&self, edit: ChemicalEdit) -> (c: Chemical)
        ensures
            c == edit.applied(*self),
    {
        match edit {
            ChemicalEdit::Id(id) => Chemical::with_concentration(id, self.concnt()),
            ChemicalEdit::Concentration(concentration) => Chemical::with_concentration(self.id(), concentration),
        }
    }

    /// A random species in a random amount.
    pub fn rand(rng: &mut StdRng) -> (c: Chemical) {
        let id = draw_byte(rng);
        let concentration = draw_byte(rng);
        Chemical::with_concentration(id, concentration)
    }
}

impl IoType {
    /// Either kind, at random.
    pub fn rand(rng: &mut StdRng) -> (kind: IoType) {
        IoType::from_flag(draw_flag(rng))
    }
}

impl Emitter {
    /// This emitter with one field replaced.
    pub fn edited(&self, edit: EmitterEdit) -> (e: Emitter)
        ensures
            e == edit.applied(*self),
    {
        let mut e = *self;
        match edit {
            EmitterEdit::Kind(kind) => { e.kind = kind; },
            EmitterEdit::Chemical(chemical) => { e.chemical = chemical; },
            EmitterEdit::Rate(rate) => { e.rate = rate; },
            EmitterEdit::Gain(gain) => { e.gain = gain; },
            EmitterEdit::Locus(locus) => { e.locus = locus; },
            EmitterEdit::Threshold(threshold) => { e.threshold = threshold; },
            EmitterEdit::ClearAfterRead(clear) => { e.clear_after_read = clear; },
            EmitterEdit::Invert(invert) => { e.invert = invert; },
        }
        e
    }

    /// An emitter with every field drawn at random, and no tick counted.
    pub fn rand(rng: &mut StdRng) -> (e: Emitter)
        ensures
            e.tick == TickCount(0),
    {
        let kind = IoType::rand(rng);
        let chemical = draw_byte(rng);
        let rate = draw_byte(rng);
        let gain = draw_byte(rng);
        let locus = draw_byte(rng);
        let threshold = draw_byte(rng);
        let clear_after_read = draw_flag(rng);
        let invert = draw_flag(rng);
        Emitter::new(kind, chemical, rate, gain, locus, threshold, clear_after_read, invert)
    }
}

/// Whether an amount is one that a random reaction moves per event: from 1
/// to 16.
pub open spec fn modest(c: Chemical) -> bool {
    1 <= c.concentration <= 16
}

/// A random species in an amount from 1 to 16.
fn rand_reactant(rng: &mut StdRng) -> (c: Chemical)
    ensures
        modest(c),
{
    let id = draw_byte(rng);
    let amount = draw_range(rng, 1, 17);
    Chemical::with_concentration(id, amount as u8)
}

impl ReactionType {
    /// Whether every chemical of the reaction is moved in an amount from 1
    /// to 16 per event, as in a reaction drawn at random.
    pub open spec fn modest(self) -> bool {
        match self {
            ReactionType::Normal(a, b, c, d) => modest(a) && modest(b) && modest(c) && modest(d),
            ReactionType::Fusion(a, b, c) => modest(a) && modest(b) && modest(c),
            ReactionType::Decay(a) => modest(a),
            ReactionType::Catalytic(a, b, c) => modest(a) && modest(b) && modest(c),
            ReactionType::CatalyticBreakdown(a, b) => modest(a) && modest(b),
        }
    }

    /// What `with_shape` returns.
    pub open spec fn of_shape(shape: usize, a: Chemical, b: Chemical, c: Chemical, d: Chemical) -> ReactionType {
        if shape == 1 {
            ReactionType::Normal(a, b, c, d)
        } else if shape == 2 {
            ReactionType::Fusion(a, b, c)
        } else if shape == 3 {
            ReactionType::Decay(a)
        } else if shape == 4 {
            ReactionType::Catalytic(a, b, c)
        } else {
            ReactionType::CatalyticBreakdown(a, b)
        }
    }

    /// The reaction of the shape numbered `shape` on the first chemicals
    /// given: 1 normal, 2 fusion, 3 decay, 4 catalytic, any other number a
    /// catalytic breakdown.
    pub fn with_shape(shape: usize, a: Chemical, b: Chemical, c: Chemical, d: Chemical) -> (kind: ReactionType)
        ensures
            kind == ReactionType::of_shape(shape, a, b, c, d),
    {
        match shape {
            1 => ReactionType::Normal(a, b, c, d),
            2 => ReactionType::Fusion(a, b, c),
            3 => ReactionType::Decay(a),
            4 => ReactionType::Catalytic(a, b, c),
            _ => ReactionType::CatalyticBreakdown(a, b),
        }
    }

    /// A reaction of a random shape on random species, each in an amount
    /// from 1 to 16 per event.
    pub fn rand(rng: &mut StdRng) -> (kind: ReactionType)
        ensures
            kind.well_formed(),
            kind.modest(),
            exists|shape: usize, a: Chemical, b: Chemical, c: Chemical, d: Chemical|
                modest(a) && modest(b) && modest(c) && modest(d) && kind == ReactionType::of_shape(
                    shape,
                    a,
                    b,
                    c,
                    d,
                ),
    {
        let shape = draw_range(rng, 0, 5);
        let a = rand_reactant(rng);
        let b = rand_reactant(rng);
        let c = rand_reactant(rng);
        let d = rand_reactant(rng);
        ReactionType::with_shape(shape, a, b, c, d)
    }
}

impl Reaction {
    /// This reaction with one field replaced.
    pub fn edited(&self, edit: ReactionEdit) -> (r: Reaction)
        ensures
            r == edit.applied(*self),
    {
        let mut r = *self;
        match edit {
            ReactionEdit::Kind(kind) => { r.kind = kind; },
            ReactionEdit::Rate(rate) => { r.rate = rate; },
        }
        r
    }

    /// A reaction that `ReactionType::rand` gives, at a random rate, with
    /// no tick counted.
    pub fn rand(rng: &mut StdRng) -> (r: Reaction)
        ensures
            r.kind.well_formed(),
            r.kind.modest(),
            r.tick == TickCount(0),
    {
        let kind = ReactionType::rand(rng);
        let rate = draw_byte(rng);
        Reaction::new(kind, rate)
    }
}

impl Receptor {
    /// This receptor with one field replaced.
    pub fn edited(&self, edit: ReceptorEdit) -> (r: Receptor)
        ensures
            r == edit.applied(*self),
    {
        let mut r = *self;
        match edit {
            ReceptorEdit::Kind(kind) => { r.kind = kind; },
            ReceptorEdit::Chemical(chemical) => { r.chemical = chemical; },
            ReceptorEdit::Locus(locus) => { r.locus = locus; },
            ReceptorEdit::Nominal(nominal) => { r.nominal = nominal; },
            ReceptorEdit::Gain(gain) => { r.gain = gain; },
            ReceptorEdit::Threshold(threshold) => { r.threshold = threshold; },
            ReceptorEdit::Invert(invert) => { r.invert = invert; },
        }
        r
    }

    /// A receptor with every field drawn at random.
    pub fn rand(rng: &mut StdRng) -> (r: Receptor) {
        let kind = IoType::rand(rng);
        let chemical = draw_byte(rng);
        let locus = draw_byte(rng);
        let nominal = draw_byte(rng);
        let gain = draw_byte(rng);
        let threshold = draw_byte(rng);
        let invert = draw_flag(rng);
        Receptor::new(kind, chemical, locus, nominal, gain, threshold, invert)
    }
}

impl GeneEdit {
    /// Whether the edit is one for this gene: for its variant.
    pub open spec fn fits<W>(self, gene: GeneView<W>) -> bool {
        match (self, gene) {
            (GeneEdit::InitialState(_), GeneView::InitialState(_)) => true,
            (GeneEdit::Emitter(_), GeneView::Emitter(_)) => true,
            (GeneEdit::Reaction(_), GeneView::Reaction(_)) => true,
            (GeneEdit::Receptor(_), GeneView::Receptor(_)) => true,
            _ => false,
        }
    }

    /// The gene with the edited field replaced; a gene that the edit does
    /// not fit stays as it is.
    pub open spec fn applied<W>(self, gene: GeneView<W>) -> GeneView<W> {
        match (self, gene) {
            (GeneEdit::InitialState(edit), GeneView::InitialState(c)) => GeneView::InitialState(edit.applied(c)),
            (GeneEdit::Emitter(edit), GeneView::Emitter(e)) => GeneView::Emitter(edit.applied(e)),
            (GeneEdit::Reaction(edit), GeneView::Reaction(r)) => GeneView::Reaction(edit.applied(r)),
            (GeneEdit::Receptor(edit), GeneView::Receptor(r)) => GeneView::Receptor(edit.applied(r)),
            _ => gene,
        }
    }

    /// Whether the edit leaves a gene that can be stepped.
    pub open spec fn sound(self) -> bool {
        match self {
            GeneEdit::Reaction(edit) => edit.sound(),
            _ => true,
        }
    }

    /// Whether the edit is one that `rand_for` gives: an edit of a
    /// reaction is one that `ReactionEdit::rand` gives, any other edit is
    /// any of its type.
    pub open spec fn drawn(self) -> bool {
        match self {
            GeneEdit::Reaction(edit) => edit.drawn(),
            _ => true,
        }
    }

    /// A random edit for the gene; none for a brain.
    pub fn rand_for<W>(gene: &Gene<W>, rng: &mut StdRng) -> (edit: Option<GeneEdit>)
        ensures
            edit.is_some() <==> !(gene@ is Brain),
            edit matches Some(e) ==> e.fits(gene@) && e.sound() && e.drawn(),
    {
        match gene {
            Gene::InitialState(_) => Some(GeneEdit::InitialState(ChemicalEdit::rand(rng))),
            Gene::Emitter(_) => Some(GeneEdit::Emitter(EmitterEdit::rand(rng))),
            Gene::Reaction(_) => Some(GeneEdit::Reaction(ReactionEdit::rand(rng))),
            Gene::Receptor(_) => Some(GeneEdit::Receptor(ReceptorEdit::rand(rng))),
            Gene::Brain(_, _, _) => None,
        }
    }
}

/// Whether a gene is one that `Gene::rand` gives: no brain; an emitter or a
/// reaction that has counted no tick; a reaction that moves every chemical
/// in an amount from 1 to 16 per event.
pub open spec fn fresh<W>(gene: GeneView<W>) -> bool {
    match gene {
        GeneView::InitialState(_) => true,
        GeneView::Emitter(e) => e.tick == TickCount(0),
        GeneView::Reaction(r) => r.tick == TickCount(0) && r.kind.modest(),
        GeneView::Receptor(_) => true,
        GeneView::Brain(_, _, _) => false,
    }
}

impl<W> Gene<W> {
    /// Replaces one field of the gene and says whether the edit fitted; a
    /// gene that it does not fit stays as it is.
    pub fn edit(&mut self, edit: GeneEdit) -> (fitted: bool)
        ensures
            fitted == edit.fits(old(self)@),
            final(self)@ == edit.applied(old(self)@),
    {
        match (&*self, edit) {
            (Gene::InitialState(c), GeneEdit::InitialState(e)) => {
                *self = Gene::InitialState(c.edited(e));
                true
            },
            (Gene::Emitter(g), GeneEdit::Emitter(e)) => {
                *self = Gene::Emitter(g.edited(e));
                true
            },
            (Gene::Reaction(g), GeneEdit::Reaction(e)) => {
                *self = Gene::Reaction(g.edited(e));
                true
            },
            (Gene::Receptor(g), GeneEdit::Receptor(e)) => {
                *self = Gene::Receptor(g.edited(e));
                true
            },
            _ => false,
        }
    }

    /// The gene of the variant numbered `variant`, made of the part given
    /// for that variant: 1 an initial state, 2 an emitter, 3 a reaction, any
    /// other number a receptor.
    pub fn with_variant(
        variant: usize,
        chemical: Chemical,
        emitter: Emitter,
        reaction: Reaction,
        receptor: Receptor,
    ) -> (gene: Gene<W>)
        ensures
            gene@ == if variant == 1 {
                GeneView::<W>::InitialState(chemical)
            } else if variant == 2 {
                GeneView::<W>::Emitter(emitter)
            } else if variant == 3 {
                GeneView::<W>::Reaction(reaction)
            } else {
                GeneView::<W>::Receptor(receptor)
            },
    {
        match variant {
            1 => Gene::InitialState(chemical),
            2 => Gene::Emitter(emitter),
            3 => Gene::Reaction(reaction),
            _ => Gene::Receptor(receptor),
        }
    }

    /// A gene of a random variant other than a brain, with random fields:
    /// an emitter or a reaction that has counted no tick, a reaction that
    /// moves every chemical in an amount from 1 to 16 per event.
    pub fn rand(rng: &mut StdRng) -> (gene: Gene<W>)
        ensures
            !(gene@ is Brain),
            gene@.well_formed(),
            fresh(gene@),
    {
        let variant = draw_range(rng, 0, 4);
        let chemical = Chemical::rand(rng);
        let emitter = Emitter::rand(rng);
        let reaction = Reaction::rand(rng);
        let receptor = Receptor::rand(rng);
        Gene::with_variant(variant, chemical, emitter, reaction, receptor)
    }
}

impl<W> Mutation<W> {
    /// Whether the mutation can be made on these genes: an edit needs a
    /// gene at its index, of its variant.
    pub open spec fn fits(self, genes: Seq<GeneView<W>>) -> bool {
        match self {
            Mutation::Append(_) => true,
            Mutation::Edit(index, edit) => index < genes.len() && edit.fits(genes[index as int]),
        }
    }

    /// The genes after the mutation.
    pub open spec fn applied(self, genes: Seq<GeneView<W>>) -> Seq<GeneView<W>> {
        match self {
            Mutation::Append(gene) => genes.push(gene@),
            Mutation::Edit(index, edit) => genes.update(index as int, edit.applied(genes[index as int])),
        }
    }

    /// Whether the mutation leaves genes that can be stepped, if they could
    /// be before.
    pub open spec fn sound(self) -> bool {
        match self {
            Mutation::Append(gene) => gene@.well_formed(),
            Mutation::Edit(_, edit) => edit.sound(),
        }
    }

    /// Whether the mutation is one that `Genome::draw` gives: it appends a
    /// gene that `Gene::rand` gives, or makes on a gene an edit that
    /// `GeneEdit::rand_for` gives.
    pub open spec fn drawn(self) -> bool {
        match self {
            Mutation::Append(gene) => fresh(gene@),
            Mutation::Edit(_, edit) => edit.drawn(),
        }
    }
}

/// The indices of the genes that mutation can edit, in rising order: those
/// of all genes but the brains.
pub open spec fn targets<W>(genes: Seq<GeneView<W>>) -> Seq<usize>
    decreases genes.len(),
{
    if genes.len() == 0 {
        Seq::empty()
    } else if genes.last() is Brain {
        targets(genes.drop_last())
    } else {
        targets(genes.drop_last()).push((genes.len() - 1) as usize)
    }
}

/// Every target is the index of a gene that is no brain.
pub proof fn lemma_targets_are_editable<W>(genes: Seq<GeneView<W>>, k: int)
    requires
        genes.len() <= usize::MAX,
        0 <= k < targets(genes).len(),
    ensures
        targets(genes)[k] < genes.len(),
        !(genes[targets(genes)[k] as int] is Brain),
    decreases genes.len(),
{
    if genes.len() > 0 {
        let rest = targets(genes.drop_last());
        if k < rest.len() {
            lemma_targets_are_editable(genes.drop_last(), k);
        }
    }
}

/// There are no more targets than genes.
pub proof fn lemma_targets_bounded<W>(genes: Seq<GeneView<W>>)
    ensures
        targets(genes).len() <= genes.len(),
    decreases genes.len(),
{
    if genes.len() > 0 {
        lemma_targets_bounded(genes.drop_last());
    }
}

/// The gene that a drawn number stands for: the target of that number, or
/// none, which means a gene more, where the number is past the last target.
pub fn target(found: &Vec<usize>, val: usize) -> (target: Option<usize>)
    ensures
        target == if val < found@.len() { Some(found@[val as int]) } else { None },
{
    if val < found.len() {
        Some(found[val])
    } else {
        None
    }
}

impl<W> Genome<W> {
    /// The indices of the genes that mutation can edit.
    pub fn targets(&self) -> (found: Vec<usize>)
        ensures
            found@ == targets(self@),
    {
        let genes = self.genes();
        assert(genes@.map_values(|g: Gene<W>| g@).take(0) =~= Seq::<GeneView<W>>::empty());
        let mut found: Vec<usize> = Vec::new();
        for i in 0..genes.len()
            invariant
                genes@.map_values(|g: Gene<W>| g@) == self@,
                found@ == targets(self@.take(i as int)),
        {
            proof {
                assert(self@.take(i + 1).drop_last() =~= self@.take(i as int));
                assert(self@.take(i + 1).last() == genes@[i as int]@);
            }
            match &genes[i] {
                Gene::Brain(_, _, _) => (),
                _ => {
                    found.push(i);
                },
            }
        }
        assert(self@.take(self@.len() as int) =~= self@);
        found
    }

    /// Decides whether the mutation can be made on this genome.
    pub fn fits(&self, mutation: &Mutation<W>) -> (ok: bool)
        ensures
            ok == mutation.fits(self@),
    {
        match mutation {
            Mutation::Append(_) => true,
            Mutation::Edit(index, edit) => {
                let genes = self.genes();
                if *index < genes.len() {
                    assert(genes@[*index as int]@ == self@[*index as int]);
                    match (edit, &genes[*index]) {
                        (GeneEdit::InitialState(_), Gene::InitialState(_)) => true,
                        (GeneEdit::Emitter(_), Gene::Emitter(_)) => true,
                        (GeneEdit::Reaction(_), Gene::Reaction(_)) => true,
                        (GeneEdit::Receptor(_), Gene::Receptor(_)) => true,
                        _ => false,
                    }
                } else {
                    false
                }
            },
        }
    }

    /// The genome after the mutation. The mutation must fit the genome: an
    /// edit of a gene that is not there, or of a gene of another variant,
    /// has no meaning.
    pub fn mutated(self, mutation: Mutation<W>) -> (genome: Genome<W>)
        requires
            mutation.fits(self@),
        ensures
            genome@ == mutation.applied(self@),
            well_formed(self@) && mutation.sound() ==> well_formed(genome@),
    {
        let ghost before = self@;
        let mut genes = self.into_genes();
        match mutation {
            Mutation::Append(gene) => {
                genes.push(gene);
            },
            Mutation::Edit(index, edit) => {
                let ghost old_genes = genes@;
                genes[index].edit(edit);
                assert(forall|j: int| 0 <= j < genes@.len() && j != index ==> genes@[j] == old_genes[j]);
            },
        }
        let genome = Genome::from_genes(genes);
        assert(genome@ =~= mutation.applied(before));
        genome
    }

    /// Draws one mutation for this genome. Among the genes that are no
    /// brain and one gene more, all equally likely, it draws one by number
    /// and hands the number to `target`: an existing gene has one of its
    /// fields, chosen at random, replaced by a random value, and the gene
    /// more stands for appending a random gene.
    pub fn draw(&self, rng: &mut StdRng) -> (mutation: Mutation<W>)
        requires
            self@.len() < usize::MAX,
        ensures
            mutation.fits(self@),
            mutation.sound(),
            mutation.drawn(),
    {
        let found = self.targets();
        proof {
            lemma_targets_bounded(self@);
        }
        let val = draw_range(rng, 0, found.len() + 1);
        match target(&found, val) {
            None => Mutation::Append(Gene::rand(rng)),
            Some(index) => {
                proof {
                    lemma_targets_are_editable(self@, val as int);
                }
                match GeneEdit::rand_for(&self.genes()[index], rng) {
                    Some(edit) => Mutation::Edit(index, edit),
                    None => vstd::pervasive::unreached(),
                }
            },
        }
    }

    /// One random mutation: the genome after a mutation that `draw` gave
    /// for it.
    pub fn mutate(self, rng: &mut StdRng) -> (genome: Genome<W>)
        requires
            self@.len() < usize::MAX,
        ensures
            exists|mutation: Mutation<W>|
                mutation.fits(self@) && mutation.sound() && mutation.drawn() && genome@ == mutation.applied(
                    self@,
                ),
            well_formed(self@) ==> well_formed(genome@),
    {
        let mutation = self.draw(rng);
        self.mutated(mutation)
    }
}

} // verus!
