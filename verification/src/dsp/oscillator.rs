//! Oscillator waveforms.

use vstd::prelude::*;

verus! {

/// The waveform of the oscillator.
#[derive(Debug, Clone, Copy, PartialEq, Eq, Structural)]
pub enum Waveform {
    Sawtooth,
    Square,
}

impl Waveform {
    /// Whether the pulse width shapes this waveform (only the square wave
    /// has one).
    pub fn uses_pulse_width(self) -> (r: bool)
        ensures
            r == (self == Waveform::Square),
    {
        match self {
            Waveform::Sawtooth => false,
            Waveform::Square => true,
        }
    }
}

} // verus!
