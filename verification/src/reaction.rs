//! Reactions: genes that turn chemicals into other chemicals.
use crate::brain::ClampExt;
use crate::chem::{gained, level_in, lost, touched, Chemical, ChemoBody, Concentration, Id};
use crate::creature::{Creature, CreatureView};
use crate::kinetics::TickCount;
use vstd::prelude::*;

verus! {

/// The amount that `events` events move of a chemical of which one event
/// moves `per_event`: the product, held at 255.
pub open spec fn moved(events: u8, per_event: Concentration) -> Concentration {
    if events * per_event > 255 {
        255
    } else {
        (events * per_event) as u8
    }
}

/// Computes `moved`.
pub fn amount_moved(events: u8, per_event: Concentration) -> (amount: Concentration)
    ensures
        amount == moved(events, per_event),
{
    assert(events * per_event <= 255 * 255) by (nonlinear_arith)
        requires
            events <= 255,
            per_event <= 255,
    ;
    let larger: i32 = events as i32 * per_event as i32;
    ClampExt::clamp(&larger, 0, 255) as u8
}

/// The five shapes of a reaction. Each chemical carries the amount of it
/// that one event consumes or produces.
#[derive(Clone, Copy, Debug, PartialEq, Eq, Structural)]
pub enum ReactionType {
    /// A + B -> C + D
    Normal(Chemical, Chemical, Chemical, Chemical),
    /// A + B -> C
    Fusion(Chemical, Chemical, Chemical),
    /// A -> nothing
    Decay(Chemical),
    /// A + B -> A + C
    Catalytic(Chemical, Chemical, Chemical),
    /// A + B -> A
    CatalyticBreakdown(Chemical, Chemical),
}

impl ReactionType {
    /// Whether one event needs a nonzero amount of each chemical that limits
    /// the reaction. Only such a reaction can be stepped.
    pub open spec fn well_formed(self) -> bool {
        match self {
            ReactionType::Normal(a, b, _, _) => a.concentration > 0 && b.concentration > 0,
            ReactionType::Fusion(a, b, _) => a.concentration > 0 && b.concentration > 0,
            ReactionType::Decay(a) => a.concentration > 0,
            ReactionType::Catalytic(a, b, _) => a.concentration > 0 && b.concentration > 0,
            ReactionType::CatalyticBreakdown(a, b) => a.concentration > 0 && b.concentration > 0,
        }
    }

    /// Decides `well_formed`.
    pub fn is_well_formed(&self) -> (ok: bool)
        ensures
            ok == self.well_formed(),
    {
        match self {
            ReactionType::Normal(a, b, _, _) => a.concnt() > 0 && b.concnt() > 0,
            ReactionType::Fusion(a, b, _) => a.concnt() > 0 && b.concnt() > 0,
            ReactionType::Decay(a) => a.concnt() > 0,
            ReactionType::Catalytic(a, b, _) => a.concnt() > 0 && b.concnt() > 0,
            ReactionType::CatalyticBreakdown(a, b) => a.concnt() > 0 && b.concnt() > 0,
        }
    }

    /// The number of complete events that the levels allow: the least, over
    /// the limiting chemicals, of level divided by amount per event, rounded
    /// down.
    pub open spec fn events(self, levels: Map<Id, Concentration>) -> u8
        recommends
            self.well_formed(),
    {
        match self {
            ReactionType::Normal(a, b, _, _) => fewer(runs(levels, a), runs(levels, b)),
            ReactionType::Fusion(a, b, _) => fewer(runs(levels, a), runs(levels, b)),
            ReactionType::Decay(a) => runs(levels, a),
            ReactionType::Catalytic(a, b, _) => fewer(runs(levels, a), runs(levels, b)),
            ReactionType::CatalyticBreakdown(a, b) => fewer(runs(levels, a), runs(levels, b)),
        }
    }

    /// The levels that the reaction leaves. With `n` the number of events,
    /// it takes `n` times their amount from the chemicals it consumes, one
    /// after the other, then adds `n` times their amount to those it
    /// produces. A catalyst is looked up and left as it is.
    pub open spec fn reacted(self, levels: Map<Id, Concentration>) -> Map<Id, Concentration>
        recommends
            self.well_formed(),
    {
        let n = self.events(levels);
        match self {
            ReactionType::Normal(a, b, c, d) => gained(
                gained(
                    lost(lost(levels, a.id, moved(n, a.concentration)), b.id, moved(n, b.concentration)),
                    c.id,
                    moved(n, c.concentration),
                ),
                d.id,
                moved(n, d.concentration),
            ),
            ReactionType::Fusion(a, b, c) => gained(
                lost(lost(levels, a.id, moved(n, a.concentration)), b.id, moved(n, b.concentration)),
                c.id,
                moved(n, c.concentration),
            ),
            ReactionType::Decay(a) => lost(levels, a.id, moved(n, a.concentration)),
            ReactionType::Catalytic(a, b, c) => gained(
                lost(touched(levels, a.id), b.id, moved(n, b.concentration)),
                c.id,
                moved(n, c.concentration),
            ),
            ReactionType::CatalyticBreakdown(a, b) => lost(
                touched(levels, a.id),
                b.id,
                moved(n, b.concentration),
            ),
        }
    }

    /// Runs the reaction on a body.
    pub fn react(&self, body: &mut ChemoBody)
        requires
            self.well_formed(),
        ensures
            final(body)@ == self.reacted(old(body)@),
    {
        match *self {
            ReactionType::Normal(a, b, c, d) => {
                let n = count_events(body, &a, &b);
                body.lose(a.id(), amount_moved(n, a.concnt()));
                body.lose(b.id(), amount_moved(n, b.concnt()));
                body.gain(c.id(), amount_moved(n, c.concnt()));
                body.gain(d.id(), amount_moved(n, d.concnt()));
            },
            ReactionType::Fusion(a, b, c) => {
                let n = count_events(body, &a, &b);
                body.lose(a.id(), amount_moved(n, a.concnt()));
                body.lose(b.id(), amount_moved(n, b.concnt()));
                body.gain(c.id(), amount_moved(n, c.concnt()));
            },
            ReactionType::Decay(a) => {
                let n = body.concnt(a.id()) / a.concnt();
                body.lose(a.id(), amount_moved(n, a.concnt()));
            },
            ReactionType::Catalytic(a, b, c) => {
                let n = count_events(body, &a, &b);
                body.lose(b.id(), amount_moved(n, b.concnt()));
                body.gain(c.id(), amount_moved(n, c.concnt()));
            },
            ReactionType::CatalyticBreakdown(a, b) => {
                let n = count_events(body, &a, &b);
                body.lose(b.id(), amount_moved(n, b.concnt()));
            },
        }
        assert(body@ =~= self.reacted(old(body)@));
    }
}

/// How many times the level of a chemical holds the amount that one event
/// needs of it.
pub open spec fn runs(levels: Map<Id, Concentration>, reactant: Chemical) -> u8
    recommends
        reactant.concentration > 0,
{
    level_in(levels, reactant.id) / reactant.concentration
}

/// The smaller of two counts.
pub open spec fn fewer(m: u8, n: u8) -> u8 {
    if m <= n {
        m
    } else {
        n
    }
}

/// Looks up both limiting chemicals and counts the events that they allow.
fn count_events(body: &mut ChemoBody, a: &Chemical, b: &Chemical) -> (n: u8)
    requires
        a.concentration > 0,
        b.concentration > 0,
    ensures
        n == fewer(runs(old(body)@, *a), runs(old(body)@, *b)),
        final(body)@ == touched(touched(old(body)@, a.id), b.id),
{
    let of_a = body.concnt(a.id()) / a.concnt();
    let of_b = body.concnt(b.id()) / b.concnt();
    if of_a <= of_b {
        of_a
    } else {
        of_b
    }
}

/// A gene that runs a reaction once every `rate` ticks.
#[derive(Clone, Copy, Debug, PartialEq, Eq, Structural)]
pub struct Reaction {
    pub kind: ReactionType,
    pub rate: u8,
    pub tick: TickCount,
}

impl Reaction {
    /// The reaction after one tick: only its counter moves.
    pub open spec fn ticked(self) -> Reaction {
        Reaction { tick: self.tick.advanced(self.rate), ..self }
    }

    /// The state after one tick of this reaction.
    pub open spec fn stepped(self, state: CreatureView) -> CreatureView
        recommends
            self.kind.well_formed(),
    {
        if self.tick.fires(self.rate) {
            state.with_chems(self.kind.reacted(state.chems))
        } else {
            state
        }
    }

    /// A reaction that has counted no tick yet.
    pub fn new(kind: ReactionType, rate: u8) -> (reaction: Reaction)
        ensures
            reaction == (Reaction { kind: kind, rate: rate, tick: TickCount(0) }),
    {
        Reaction { kind: kind, rate: rate, tick: TickCount::new() }
    }

    /// One tick: counts it and, where the count has reached the rate, runs
    /// the reaction on the creature's chemistry.
    pub fn step(&mut self, creature: &mut Creature)
        requires
            old(self).kind.well_formed(),
        ensures
            *final(self) == old(self).ticked(),
            final(creature)@ == old(self).stepped(old(creature)@),
    {
        if !self.tick.advance(self.rate) {
            return;
        }
        let body = creature.chemo_body_mut();
        self.kind.react(body);
    }
}

/// A fusion never yields more of its product than the events it ran account
/// for: the product's level rises by at most the number of events times the
/// amount of it that one event produces.
pub proof fn lemma_fusion_yield_bounded(
    a: Chemical,
    b: Chemical,
    c: Chemical,
    levels: Map<Id, Concentration>,
)
    requires
        ReactionType::Fusion(a, b, c).well_formed(),
    ensures
        level_in(ReactionType::Fusion(a, b, c).reacted(levels), c.id) <= level_in(levels, c.id)
            + ReactionType::Fusion(a, b, c).events(levels) * c.concentration,
{
    let n = ReactionType::Fusion(a, b, c).events(levels);
    assert(n * c.concentration >= 0) by (nonlinear_arith)
        requires
            n >= 0,
            c.concentration >= 0,
    ;
}

/// A decay never raises the level of any chemical, the decaying one
/// included.
pub proof fn lemma_decay_never_raises(a: Chemical, levels: Map<Id, Concentration>, id: Id)
    requires
        ReactionType::Decay(a).well_formed(),
    ensures
        level_in(ReactionType::Decay(a).reacted(levels), id) <= level_in(levels, id),
{
}

} // verus!
