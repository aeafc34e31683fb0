//! Emitters: genes that turn the value of a locus into a chemical.
use crate::chem::{drained, gained, Concentration, Id};
use crate::creature::{Creature, CreatureView, LocusId, LocusValue};
use crate::kinetics::{scale, scaled, IoType, TickCount};
use vstd::prelude::*;

verus! {

/// A gene that reads a locus and, once every `rate` ticks, adds to or takes
/// from a chemical accordingly.
#[derive(Clone, Copy, Debug, PartialEq, Eq, Structural)]
pub struct Emitter {
    pub kind: IoType,
    pub chemical: Id,
    pub rate: u8,
    pub gain: Concentration,
    pub locus: LocusId,
    pub threshold: LocusValue,
    pub clear_after_read: bool,
    pub invert: bool,
    pub tick: TickCount,
}

impl Emitter {
    /// The value that the emitter acts on: its locus, or the complement of
    /// it where the emitter inverts.
    pub open spec fn signal(self, state: CreatureView) -> LocusValue {
        if self.invert {
            (255 - state.locus(self.locus)) as u8
        } else {
            state.locus(self.locus)
        }
    }

    /// The state that a firing leaves.
    ///
    /// An analogue emitter with its signal at or above the threshold adds
    /// the scaled distance to its chemical; with the signal below, it takes
    /// the scaled distance away, down to zero. A digital emitter adds its
    /// whole gain at or above the threshold and nothing below.
    pub open spec fn fired(self, state: CreatureView) -> CreatureView {
        let signal = self.signal(state);
        state.with_chems(
            match self.kind {
                IoType::Analogue => if signal >= self.threshold {
                    gained(state.chems, self.chemical, scaled((signal - self.threshold) as u8, self.gain))
                } else {
                    drained(state.chems, self.chemical, scaled((self.threshold - signal) as u8, self.gain))
                },
                IoType::Digital => gained(
                    state.chems,
                    self.chemical,
                    if signal >= self.threshold { self.gain } else { 0 },
                ),
            },
        )
    }

    /// The emitter after one tick: only its counter moves.
    pub open spec fn ticked(self) -> Emitter {
        Emitter { tick: self.tick.advanced(self.rate), ..self }
    }

    /// The state after one tick of this emitter.
    pub open spec fn stepped(self, state: CreatureView) -> CreatureView {
        if self.tick.fires(self.rate) {
            self.fired(state)
        } else {
            state
        }
    }

    /// An emitter that has counted no tick yet.
    pub fn new(
        kind: IoType,
        chemical: Id,
        rate: u8,
        gain: Concentration,
        locus: LocusId,
        threshold: LocusValue,
        clear_after_read: bool,
        invert: bool,
    ) -> (emitter: Emitter)
        ensures
            emitter == (Emitter {
                kind: kind,
                chemical: chemical,
                rate: rate,
                gain: gain,
                locus: locus,
                threshold: threshold,
                clear_after_read: clear_after_read,
                invert: invert,
                tick: TickCount(0),
            }),
    {
        Emitter {
            kind: kind,
            chemical: chemical,
            rate: rate,
            gain: gain,
            locus: locus,
            threshold: threshold,
            clear_after_read: clear_after_read,
            invert: invert,
            tick: TickCount::new(),
        }
    }

    /// One tick: counts it and, where the count has reached the rate, fires.
    pub fn step(&mut self, creature: &mut Creature)
        ensures
            *final(self) == old(self).ticked(),
            final(creature)@ == old(self).stepped(old(creature)@),
    {
        if !self.tick.advance(self.rate) {
            return;
        }
        let value = creature.get_locus(self.locus);
        let signal = if self.invert { 255 - value } else { value };
        let body = creature.chemo_body_mut();
        match self.kind {
            IoType::Analogue => {
                if signal >= self.threshold {
                    let output = scale(signal - self.threshold, self.gain);
                    body.gain(self.chemical, output);
                } else {
                    let output = scale(self.threshold - signal, self.gain);
                    if !body.lose(self.chemical, output) {
                        let concnt = body.concnt(self.chemical);
                        body.lose(self.chemical, concnt);
                    }
                }
            },
            IoType::Digital => {
                body.gain(self.chemical, if signal >= self.threshold { self.gain } else { 0 });
            },
        }
        assert(body@ =~= old(self).fired(old(creature)@).chems);
    }
}

} // verus!
