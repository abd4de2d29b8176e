//! The filter sections: their coefficients and their memory, as sample
//! words. A section is made, and its memory cleared, here; the coefficient
//! formulas and the filtering itself are arithmetic on sample values and
//! live with the caller.
use vstd::prelude::*;
use crate::sample::{ONE, ZERO};

verus! {

/// Response of a two-pole filter section.
#[derive(Clone, Copy, Debug, PartialEq, Eq, Structural)]
pub enum FilterType {
    Lowpass,
    Highpass,
    Bandpass,
    Notch,
    Peak,
    LowShelf,
    HighShelf,
}

/// A two-pole, two-zero section,
/// `H(z) = (b0 + b1 z^-1 + b2 z^-2) / (1 + a1 z^-1 + a2 z^-2)`, with the two
/// last inputs and the two last outputs as its memory.
#[derive(Clone, Copy, Debug, PartialEq, Eq, Structural)]
pub struct Biquad {
    pub b0: u32,
    pub b1: u32,
    pub b2: u32,
    pub a1: u32,
    pub a2: u32,
    pub x1: u32,
    pub x2: u32,
    pub y1: u32,
    pub y2: u32,
}

impl Biquad {
    /// The section that passes its input through: `b0` is 1 and every other
    /// coefficient, like the memory, is zero.
    pub open spec fn passthrough() -> Biquad {
        Biquad {
            b0: ONE,
            b1: ZERO,
            b2: ZERO,
            a1: ZERO,
            a2: ZERO,
            x1: ZERO,
            x2: ZERO,
            y1: ZERO,
            y2: ZERO,
        }
    }

    /// The section with its memory cleared and its coefficients kept.
    pub open spec fn cleared(self) -> Biquad {
        Biquad { x1: ZERO, x2: ZERO, y1: ZERO, y2: ZERO, ..self }
    }

    /// A section that passes its input through.
    pub fn new() -> (filter: Biquad)
        ensures
            filter == Biquad::passthrough(),
    {
        Biquad {
            b0: ONE,
            b1: ZERO,
            b2: ZERO,
            a1: ZERO,
            a2: ZERO,
            x1: ZERO,
            x2: ZERO,
            y1: ZERO,
            y2: ZERO,
        }
    }

    /// Forgets the last inputs and outputs.
    pub fn reset(&mut self)
        ensures
            *final(self) == old(self).cleared(),
    {
        self.x1 = ZERO;
        self.x2 = ZERO;
        self.y1 = ZERO;
        self.y2 = ZERO;
    }
}

impl Default for Biquad {
    fn default() -> (filter: Biquad)
        ensures
            filter == Biquad::passthrough(),
    {
        Biquad::new()
    }
}

/// A one-pole section, `y[n] = a0 x[n] + b1 y[n-1]`, with its last output
/// as its memory.
#[derive(Clone, Copy, Debug, PartialEq, Eq, Structural)]
pub struct OnePole {
    pub a0: u32,
    pub b1: u32,
    pub y1: u32,
}

impl OnePole {
    /// The section that passes its input through: `a0` is 1, `b1` and the
    /// memory are zero.
    pub open spec fn passthrough() -> OnePole {
        OnePole { a0: ONE, b1: ZERO, y1: ZERO }
    }

    /// The section with its memory cleared and its coefficients kept.
    pub open spec fn cleared(self) -> OnePole {
        OnePole { y1: ZERO, ..self }
    }

    /// A section that passes its input through.
    pub fn new() -> (filter: OnePole)
        ensures
            filter == OnePole::passthrough(),
    {
        OnePole { a0: ONE, b1: ZERO, y1: ZERO }
    }

    /// Forgets the last output.
    pub fn reset(&mut self)
        ensures
            *final(self) == old(self).cleared(),
    {
        self.y1 = ZERO;
    }
}

impl Default for OnePole {
    fn default() -> (filter: OnePole)
        ensures
            filter == OnePole::passthrough(),
    {
        OnePole::new()
    }
}

/// Two independent two-pole sections, one per channel.
#[derive(Clone, Copy, Debug, PartialEq, Eq, Structural)]
pub struct StereoBiquad {
    pub left: Biquad,
    pub right: Biquad,
}

impl StereoBiquad {
    /// Two sections that pass their input through.
    pub fn new() -> (filter: StereoBiquad)
        ensures
            filter.left == Biquad::passthrough(),
            filter.right == Biquad::passthrough(),
    {
        StereoBiquad { left: Biquad::new(), right: Biquad::new() }
    }

    /// Forgets the memory of both channels.
    pub fn reset(&mut self)
        ensures
            final(self).left == old(self).left.cleared(),
            final(self).right == old(self).right.cleared(),
    {
        self.left.reset();
        self.right.reset();
    }
}

impl Default for StereoBiquad {
    fn default() -> (filter: StereoBiquad)
        ensures
            filter.left == Biquad::passthrough(),
            filter.right == Biquad::passthrough(),
    {
        StereoBiquad::new()
    }
}

} // verus!
