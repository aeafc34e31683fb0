//! Receptors: genes that watch the level of a chemical and, on the tick on
//! which it crosses their threshold, give a signal and write it to a locus.
use crate::chem::{level_in, touched, Concentration, Id};
use crate::creature::{Creature, CreatureView, LocusId, LocusValue};
use crate::kinetics::{scale, scaled, IoType};
use vstd::prelude::*;

verus! {

/// A gene that signals a crossing of its threshold and writes the signal to
/// its locus.
///
/// A receptor that does not invert watches for its chemical rising above
/// the threshold, an inverting one for a fall below it. `kind` and
/// `nominal` are carried in the genome and open to mutation; no step reads
/// them.
#[derive(Clone, Copy, Debug, PartialEq, Eq, Structural)]
pub struct Receptor {
    pub kind: IoType,
    pub chemical: Id,
    pub locus: LocusId,
    pub nominal: LocusValue,
    pub gain: LocusValue,
    pub threshold: Concentration,
    pub invert: bool,
}

impl Receptor {
    /// Whether a level that went from `prev` to `curr` crossed the
    /// threshold in the direction that the receptor watches: upward, from
    /// below the threshold to above it, or downward for an inverting
    /// receptor. A level that starts or ends on the threshold has not
    /// crossed it.
    pub open spec fn crossed(self, prev: Concentration, curr: Concentration) -> bool {
        if self.invert {
            prev > self.threshold && curr < self.threshold
        } else {
            prev < self.threshold && curr > self.threshold
        }
    }

    /// The signal that the receptor gives when its chemical goes from
    /// `prev` to `curr`: on a crossing, the new level scaled by the gain;
    /// else none.
    pub open spec fn signal(self, prev: Concentration, curr: Concentration) -> Option<LocusValue> {
        if self.crossed(prev, curr) {
            Some(scaled(curr, self.gain))
        } else {
            None
        }
    }

    /// The state after one tick of this receptor, where `prev` is the level
    /// that its chemical had when the tick began: the chemical has been
    /// looked up, and where its level has crossed the threshold since, the
    /// locus holds the signal. Without a crossing no locus is written.
    pub open spec fn stepped(self, state: CreatureView, prev: Concentration) -> CreatureView {
        let looked = state.with_chems(touched(state.chems, self.chemical));
        match self.signal(prev, level_in(state.chems, self.chemical)) {
            Some(value) => looked.with_locus(self.locus, value),
            None => looked,
        }
    }

    /// A receptor with the given fields.
    pub fn new(
        kind: IoType,
        chemical: Id,
        locus: LocusId,
        nominal: LocusValue,
        gain: LocusValue,
        threshold: Concentration,
        invert: bool,
    ) -> (receptor: Receptor)
        ensures
            receptor == (Receptor {
                kind: kind,
                chemical: chemical,
                locus: locus,
                nominal: nominal,
                gain: gain,
                threshold: threshold,
                invert: invert,
            }),
    {
        Receptor {
            kind: kind,
            chemical: chemical,
            locus: locus,
            nominal: nominal,
            gain: gain,
            threshold: threshold,
            invert: invert,
        }
    }

    /// The signal for a level that went from `prev` to `curr`. A level that
    /// stays on one side of the threshold gives none, however long it
    /// stays.
    pub fn trigger(&self, prev: Concentration, curr: Concentration) -> (signal: Option<LocusValue>)
        ensures
            signal == self.signal(prev, curr),
    {
        let fired = if self.invert {
            prev > self.threshold && curr < self.threshold
        } else {
            prev < self.threshold && curr > self.threshold
        };
        if fired {
            Some(scale(curr, self.gain))
        } else {
            None
        }
    }

    /// One tick: looks the chemical up and, where its level has crossed the
    /// threshold since the tick began at `prev`, writes the signal to the
    /// locus and returns it.
    pub fn step(&self, creature: &mut Creature, prev: Concentration) -> (signal: Option<LocusValue>)
        ensures
            signal == self.signal(prev, level_in(old(creature)@.chems, self.chemical)),
            final(creature)@ == self.stepped(old(creature)@, prev),
    {
        let curr = creature.chemo_body_mut().concnt(self.chemical);
        let signal = self.trigger(prev, curr);
        if let Some(value) = signal {
            creature.set_locus(self.locus, value);
        }
        signal
    }
}

} // verus!
