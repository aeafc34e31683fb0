//! The organism: its chemistry and its table of loci.
use crate::chem::{ChemoBody, Concentration, Id};
use std::collections::HashMap;
use vstd::prelude::*;

verus! {

broadcast use vstd::std_specs::hash::group_hash_axioms;

/// Identifier of a locus, a byte register of the organism.
pub type LocusId = u8;

/// Value held by a locus.
pub type LocusValue = u8;

/// The loci with a fixed meaning.
#[derive(Clone, Copy, Debug, PartialEq, Eq, Structural)]
pub enum Locus {
    Death,
    AgedToChild,
    AgedToAdolescent,
    AgedToYouth,
    AgedToAdult,
    AgedToOld,
    AgedToSenile,
    Hunger,
}

impl Locus {
    /// The register that holds this locus.
    pub open spec fn spec_id(self) -> LocusId {
        match self {
            Locus::Death => 0,
            Locus::AgedToChild => 1,
            Locus::AgedToAdolescent => 2,
            Locus::AgedToYouth => 3,
            Locus::AgedToAdult => 4,
            Locus::AgedToOld => 5,
            Locus::AgedToSenile => 6,
            Locus::Hunger => 7,
        }
    }

    /// The register that holds this locus.
    #[verifier::when_used_as_spec(spec_id)]
    pub fn id(self) -> (id: LocusId)
        ensures
            id == self.spec_id(),
    {
        match self {
            Locus::Death => 0,
            Locus::AgedToChild => 1,
            Locus::AgedToAdolescent => 2,
            Locus::AgedToYouth => 3,
            Locus::AgedToAdult => 4,
            Locus::AgedToOld => 5,
            Locus::AgedToSenile => 6,
            Locus::Hunger => 7,
        }
    }
}

/// Stages of life, youngest first.
#[derive(Clone, Copy, Debug, PartialEq, Eq, Structural, PartialOrd, Ord, Hash)]
pub enum Age {
    Baby,
    Child,
    Adolescent,
    Youth,
    Adult,
    Old,
    Senile,
}

/// Needs of the organism that a locus reports.
#[derive(Clone, Copy, Debug, PartialEq, Eq, Structural)]
pub enum Drive {
    Hunger,
}

/// The value of locus `id` in a table in which an absent locus holds zero.
pub open spec fn locus_in(loci: Map<LocusId, LocusValue>, id: LocusId) -> LocusValue {
    if loci.dom().contains(id) { loci[id] } else { 0 }
}

/// The stage that a table of loci stands for: that of the most mature
/// marker that is set, and `Baby` where none is.
pub open spec fn age_of(loci: Map<LocusId, LocusValue>) -> Age {
    if locus_in(loci, Locus::AgedToSenile.id()) != 0 {
        Age::Senile
    } else if locus_in(loci, Locus::AgedToOld.id()) != 0 {
        Age::Old
    } else if locus_in(loci, Locus::AgedToAdult.id()) != 0 {
        Age::Adult
    } else if locus_in(loci, Locus::AgedToYouth.id()) != 0 {
        Age::Youth
    } else if locus_in(loci, Locus::AgedToAdolescent.id()) != 0 {
        Age::Adolescent
    } else if locus_in(loci, Locus::AgedToChild.id()) != 0 {
        Age::Child
    } else {
        Age::Baby
    }
}

/// The state of an organism as the contracts see it.
pub struct CreatureView {
    /// The loci written so far.
    pub loci: Map<LocusId, LocusValue>,
    /// The species touched so far, each with its level.
    pub chems: Map<Id, Concentration>,
}

impl CreatureView {
    /// The state of an organism that nothing has acted on.
    pub open spec fn blank() -> CreatureView {
        CreatureView { loci: Map::empty(), chems: Map::empty() }
    }

    /// The value of a locus; one never written holds zero.
    pub open spec fn locus(self, id: LocusId) -> LocusValue {
        locus_in(self.loci, id)
    }

    /// The stage of life that the ageing markers stand for.
    pub open spec fn age(self) -> Age {
        age_of(self.loci)
    }

    /// This state with another chemistry.
    pub open spec fn with_chems(self, chems: Map<Id, Concentration>) -> CreatureView {
        CreatureView { loci: self.loci, chems: chems }
    }

    /// This state with `value` written to locus `id`.
    pub open spec fn with_locus(self, id: LocusId, value: LocusValue) -> CreatureView {
        CreatureView { loci: self.loci.insert(id, value), chems: self.chems }
    }
}

/// An organism. A locus enters its table when it is first written; one never
/// written reads as zero.
pub struct Creature {
    loci: HashMap<LocusId, LocusValue>,
    chem: ChemoBody,
}

impl View for Creature {
    type V = CreatureView;

    closed spec fn view(&self) -> CreatureView {
        CreatureView { loci: self.loci@, chems: self.chem@ }
    }
}

impl Creature {
    /// A creature with no locus written and no chemical touched.
    pub fn new() -> (creature: Creature)
        ensures
            creature@ == CreatureView::blank(),
    {
        Creature { loci: HashMap::new(), chem: ChemoBody::new() }
    }

    /// The value of a locus; one never written holds zero.
    pub fn get_locus(&self, id: LocusId) -> (value: LocusValue)
        ensures
            value == self@.locus(id),
    {
        match self.loci.get(&id) {
            Some(value) => *value,
            None => 0,
        }
    }

    /// Writes a locus; the chemistry stays as it is.
    pub fn set_locus(&mut self, id: LocusId, value: LocusValue)
        ensures
            final(self)@ == old(self)@.with_locus(id, value),
    {
        self.loci.insert(id, value);
    }

    /// The chemistry, to look at.
    pub fn chemo_body(&self) -> (body: &ChemoBody)
        ensures
            body@ == self@.chems,
    {
        &self.chem
    }

    /// The chemistry, to act on; the loci stay as they are.
    pub fn chemo_body_mut(&mut self) -> (body: &mut ChemoBody)
        ensures
            body@ == old(self)@.chems,
            final(self)@ == old(self)@.with_chems(final(body)@),
    {
        &mut self.chem
    }

    /// The value of a locus with a fixed meaning.
    fn get(&self, id: Locus) -> (value: LocusValue)
        ensures
            value == self@.locus(id.id()),
    {
        self.get_locus(id.id())
    }

    /// Whether the death locus is still unset.
    pub fn is_alive(&self) -> (alive: bool)
        ensures
            alive == (self@.locus(Locus::Death.id()) == 0),
    {
        self.get(Locus::Death) == 0
    }

    /// The stage of life that the ageing markers stand for.
    pub fn age(&self) -> (age: Age)
        ensures
            age == self@.age(),
    {
        if self.get(Locus::AgedToSenile) != 0 {
            Age::Senile
        } else if self.get(Locus::AgedToOld) != 0 {
            Age::Old
        } else if self.get(Locus::AgedToAdult) != 0 {
            Age::Adult
        } else if self.get(Locus::AgedToYouth) != 0 {
            Age::Youth
        } else if self.get(Locus::AgedToAdolescent) != 0 {
            Age::Adolescent
        } else if self.get(Locus::AgedToChild) != 0 {
            Age::Child
        } else {
            Age::Baby
        }
    }

    /// How strongly the creature feels a need.
    pub fn get_drive(&self, drive: Drive) -> (value: LocusValue)
        ensures
            value == match drive {
                Drive::Hunger => self@.locus(Locus::Hunger.id()),
            },
    {
        self.get(
            match drive {
                Drive::Hunger => Locus::Hunger,
            },
        )
    }
}

} // verus!
