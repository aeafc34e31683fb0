//! Chemical species and the body that holds their concentrations.
use std::collections::HashMap;
use vstd::prelude::*;

verus! {

broadcast use vstd::std_specs::hash::group_hash_axioms;

/// Identifier of a chemical species.
pub type Id = u8;

/// Concentration of a species, or a stoichiometric amount of it.
pub type Concentration = u8;

/// A species together with an amount of it: a level in a body, or the
/// amount that one event of a reaction consumes or produces.
#[derive(Clone, Copy, Debug, PartialEq, Eq, Structural)]
pub struct Chemical {
    pub id: Id,
    pub concentration: Concentration,
}

impl Chemical {
    /// The species `id` at concentration zero.
    pub fn new(id: Id) -> (c: Chemical)
        ensures
            c == (Chemical { id: id, concentration: 0 }),
    {
        Chemical { id: id, concentration: 0 }
    }

    /// The species `id` in the given amount.
    pub fn with_concentration(id: Id, concentration: Concentration) -> (c: Chemical)
        ensures
            c == (Chemical { id: id, concentration: concentration }),
    {
        Chemical { id: id, concentration: concentration }
    }

    /// The species.
    pub fn id(&self) -> (id: Id)
        ensures
            id == self.id,
    {
        self.id
    }

    /// The amount.
    pub fn concnt(&self) -> (c: Concentration)
        ensures
            c == self.concentration,
    {
        self.concentration
    }
}

/// A table after `id` was named: the species is present, at the level it had.
pub open spec fn touched(levels: Map<Id, Concentration>, id: Id) -> Map<Id, Concentration> {
    levels.insert(id, level_in(levels, id))
}

/// What `gain` leaves in a table of levels: the level of `id` raised by
/// `amount`, held at 255.
pub open spec fn gained(levels: Map<Id, Concentration>, id: Id, amount: Concentration) -> Map<Id, Concentration> {
    let level = level_in(levels, id);
    levels.insert(id, if level + amount > 255 { 255u8 } else { (level + amount) as u8 })
}

/// The level of `id` in a table in which an absent species stands at zero.
pub open spec fn level_in(levels: Map<Id, Concentration>, id: Id) -> Concentration {
    if levels.dom().contains(id) { levels[id] } else { 0 }
}

/// What `lose` leaves: the level of `id` lowered by `amount` where it covers
/// the amount, and unchanged where it does not.
pub open spec fn lost(levels: Map<Id, Concentration>, id: Id, amount: Concentration) -> Map<Id, Concentration> {
    let level = level_in(levels, id);
    levels.insert(id, if level >= amount { (level - amount) as u8 } else { level })
}

/// A table after as much of `amount` as there is was taken from `id`: the
/// level lowered by `amount`, held at zero.
pub open spec fn drained(levels: Map<Id, Concentration>, id: Id, amount: Concentration) -> Map<Id, Concentration> {
    let level = level_in(levels, id);
    levels.insert(id, if level >= amount { (level - amount) as u8 } else { 0u8 })
}

/// The concentrations of an organism's chemistry.
///
/// A species enters the table, at level zero, the first time any operation
/// names it.
pub struct ChemoBody {
    chems: HashMap<Id, Concentration>,
}

impl View for ChemoBody {
    type V = Map<Id, Concentration>;

    /// The species touched so far, each with its level.
    closed spec fn view(&self) -> Map<Id, Concentration> {
        self.chems@
    }
}

impl ChemoBody {
    /// The level of `id`; a species never touched stands at zero.
    pub open spec fn level(&self, id: Id) -> Concentration {
        level_in(self@, id)
    }

    /// A body in which no species was touched yet.
    pub fn new() -> (body: ChemoBody)
        ensures
            body@ == Map::<Id, Concentration>::empty(),
    {
        ChemoBody { chems: HashMap::new() }
    }

    /// The level of a species that was touched before, without touching it.
    pub fn peek(&self, id: Id) -> (level: Option<Concentration>)
        ensures
            level == if self@.dom().contains(id) { Some(self@[id]) } else { None },
    {
        match self.chems.get(&id) {
            Some(level) => Some(*level),
            None => None,
        }
    }

    /// Looks a species up, creating it at level zero if it was never touched.
    pub fn get(&mut self, id: Id) -> (c: Chemical)
        ensures
            c == (Chemical { id: id, concentration: old(self).level(id) }),
            final(self)@ == touched(old(self)@, id),
    {
        let level = self.concnt(id);
        Chemical::with_concentration(id, level)
    }

    /// The level of a species, creating it at zero if it was never touched.
    pub fn concnt(&mut self, id: Id) -> (level: Concentration)
        ensures
            level == old(self).level(id),
            final(self)@ == touched(old(self)@, id),
    {
        let slot = self.chems.entry(id).or_insert(0);
        *slot
    }

    /// Adds `amount` to a species and says whether the sum fitted; where it
    /// did not, the level stops at 255.
    pub fn gain(&mut self, id: Id, amount: Concentration) -> (fitted: bool)
        ensures
            fitted == (old(self).level(id) + amount <= 255),
            final(self)@ == gained(old(self)@, id, amount),
    {
        let slot = self.chems.entry(id).or_insert(0);
        match (*slot).checked_add(amount) {
            Some(sum) => {
                *slot = sum;
                true
            },
            None => {
                *slot = 255;
                false
            },
        }
    }

    /// Takes `amount` from a species and says whether its level covered it;
    /// where it did not, the level stays as it was.
    pub fn lose(&mut self, id: Id, amount: Concentration) -> (covered: bool)
        ensures
            covered == (old(self).level(id) >= amount),
            final(self)@ == lost(old(self)@, id, amount),
    {
        let slot = self.chems.entry(id).or_insert(0);
        match (*slot).checked_sub(amount) {
            Some(rest) => {
                *slot = rest;
                true
            },
            None => false,
        }
    }
}

/// No gain or loss takes a level out of the range from 0 to 255, and none
/// moves the level of a species other than its own.
pub proof fn lemma_levels_bounded(levels: Map<Id, Concentration>, id: Id, amount: Concentration, other: Id)
    ensures
        0 <= level_in(gained(levels, id, amount), other) <= 255,
        0 <= level_in(lost(levels, id, amount), other) <= 255,
        0 <= level_in(drained(levels, id, amount), other) <= 255,
        0 <= level_in(touched(levels, id), other) <= 255,
        other != id ==> {
            &&& level_in(gained(levels, id, amount), other) == level_in(levels, other)
            &&& level_in(lost(levels, id, amount), other) == level_in(levels, other)
            &&& level_in(drained(levels, id, amount), other) == level_in(levels, other)
        },
        level_in(touched(levels, id), other) == level_in(levels, other),
{
}

} // verus!
