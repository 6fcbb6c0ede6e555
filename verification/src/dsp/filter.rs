//! Filter modes of the ladder filter.

use vstd::prelude::*;

verus! {

/// The slope of the low-pass ladder filter.
#[derive(Debug, Clone, Copy, PartialEq, Eq, Structural)]
pub enum FilterMode {
    /// Classic 4-pole -24dB low-pass
    LowPass,
    /// 2-pole -12dB low-pass
    LowPass2Pole,
}

/// The number of one-pole stages that the signal passes through.
pub open spec fn spec_poles(mode: FilterMode) -> nat {
    match mode {
        FilterMode::LowPass => 4,
        FilterMode::LowPass2Pole => 2,
    }
}

impl FilterMode {
    /// The index of the ladder stage whose state is the filter's output: the
    /// last of the stages that the mode's poles span.
    pub fn output_stage(self) -> (r: usize)
        ensures
            r == spec_poles(self) - 1,
            r < 4,
            self == FilterMode::LowPass ==> r == 3,
            self == FilterMode::LowPass2Pole ==> r == 1,
    {
        match self {
            FilterMode::LowPass => 3,
            FilterMode::LowPass2Pole => 1,
        }
    }
}

} // verus!
