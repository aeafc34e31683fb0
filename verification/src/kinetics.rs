//! What the stepping genes share: the two signal kinds, the scaling of a
//! value by a gain, and the tick counter that gates a gene to one firing
//! every `rate` ticks.
use vstd::prelude::*;

verus! {

/// Whether a gene follows its input in proportion or switches on a
/// threshold.
#[derive(Clone, Copy, Debug, PartialEq, Eq, Structural)]
pub enum IoType {
    Analogue,
    Digital,
}

impl IoType {
    /// `Analogue` for a set flag, `Digital` for a clear one.
    pub fn from_flag(flag: bool) -> (kind: IoType)
        ensures
            kind == if flag { IoType::Analogue } else { IoType::Digital },
    {
        if flag {
            IoType::Analogue
        } else {
            IoType::Digital
        }
    }
}

/// `span * gain / 255`, rounded down: `span` scaled by a gain of which 255
/// is the whole.
pub open spec fn scaled(span: u8, gain: u8) -> u8 {
    (span * gain / 255) as u8
}

/// Computes `scaled`.
pub fn scale(span: u8, gain: u8) -> (share: u8)
    ensures
        share == scaled(span, gain),
{
    assert(span * gain <= 255 * 255) by (nonlinear_arith)
        requires
            span <= 255,
            gain <= 255,
    ;
    let product: u32 = span as u32 * gain as u32;
    (product / 255) as u8
}

/// Ticks counted since a gene last fired.
#[derive(Clone, Copy, Debug, PartialEq, Eq, Structural)]
pub struct TickCount(pub u8);

impl TickCount {
    /// A count of zero.
    pub fn new() -> (tick: TickCount)
        ensures
            tick == TickCount(0),
    {
        TickCount(0)
    }

    /// Counts one tick. The count must have room for it.
    pub fn inc(&mut self)
        requires
            old(self).0 < 255,
        ensures
            final(self).0 == old(self).0 + 1,
    {
        self.0 = self.0 + 1;
    }

    /// Starts the count again.
    pub fn zero(&mut self)
        ensures
            final(self).0 == 0,
    {
        self.0 = 0;
    }

    /// The ticks counted.
    pub fn val(&self) -> (count: u8)
        ensures
            count == self.0,
    {
        self.0
    }

    /// Whether a gene of this `rate` fires on the tick that follows this
    /// count: the count, once raised by one, has reached the rate.
    pub open spec fn fires(self, rate: u8) -> bool {
        self.0 + 1 >= rate
    }

    /// The count after that tick: zero where the gene fired, one more where
    /// it did not.
    pub open spec fn advanced(self, rate: u8) -> TickCount {
        if self.fires(rate) {
            TickCount(0)
        } else {
            TickCount((self.0 + 1) as u8)
        }
    }

    /// Counts one tick against `rate` and says whether the gene fires on it.
    pub fn advance(&mut self, rate: u8) -> (fires: bool)
        ensures
            fires == old(self).fires(rate),
            *final(self) == old(self).advanced(rate),
    {
        if self.val() < 255 {
            self.inc();
            if self.val() < rate {
                return false;
            }
        }
        self.zero();
        true
    }
}

} // verus!
