//! The stages of an ADSR envelope and the order in which it passes through
//! them.

use vstd::prelude::*;

verus! {

/// The stage an ADSR envelope is in.
#[derive(Debug, Clone, Copy, PartialEq, Eq, Structural)]
pub enum EnvelopeStage {
    Idle,
    Attack,
    Decay,
    Sustain,
    Release,
}

/// The stage once a note starts: attack, from whatever stage (and level)
/// the envelope is at.
pub open spec fn spec_gate_on(stage: EnvelopeStage) -> EnvelopeStage {
    EnvelopeStage::Attack
}

/// The stage once the note is released: release, unless the envelope is
/// idle.
pub open spec fn spec_gate_off(stage: EnvelopeStage) -> EnvelopeStage {
    if stage == EnvelopeStage::Idle {
        EnvelopeStage::Idle
    } else {
        EnvelopeStage::Release
    }
}

/// The stage after one sample, where `reached` tells whether the level
/// computed for that sample reached the current stage's goal: the peak in
/// attack, the sustain level in decay, silence in release.
pub open spec fn spec_after_sample(stage: EnvelopeStage, reached: bool) -> EnvelopeStage {
    match stage {
        EnvelopeStage::Attack => if reached {
            EnvelopeStage::Decay
        } else {
            EnvelopeStage::Attack
        },
        EnvelopeStage::Decay => if reached {
            EnvelopeStage::Sustain
        } else {
            EnvelopeStage::Decay
        },
        EnvelopeStage::Release => if reached {
            EnvelopeStage::Idle
        } else {
            EnvelopeStage::Release
        },
        _ => stage,
    }
}

impl EnvelopeStage {
    /// The stage once a note starts.
    pub fn gate_on(self) -> (r: EnvelopeStage)
        ensures
            r == spec_gate_on(self),
    {
        EnvelopeStage::Attack
    }

    /// The stage once the note is released.
    pub fn gate_off(self) -> (r: EnvelopeStage)
        ensures
            r == spec_gate_off(self),
    {
        match self {
            EnvelopeStage::Idle => EnvelopeStage::Idle,
            _ => EnvelopeStage::Release,
        }
    }

    /// The stage after one sample; `reached` tells whether that sample's
    /// level reached the goal of the current stage.
    pub fn after_sample(self, reached: bool) -> (r: EnvelopeStage)
        ensures
            r == spec_after_sample(self, reached),
    {
        match self {
            EnvelopeStage::Attack => if reached {
                EnvelopeStage::Decay
            } else {
                EnvelopeStage::Attack
            },
            EnvelopeStage::Decay => if reached {
                EnvelopeStage::Sustain
            } else {
                EnvelopeStage::Decay
            },
            EnvelopeStage::Release => if reached {
                EnvelopeStage::Idle
            } else {
                EnvelopeStage::Release
            },
            EnvelopeStage::Idle => EnvelopeStage::Idle,
            EnvelopeStage::Sustain => EnvelopeStage::Sustain,
        }
    }
}

/// The stage after `n` samples from `stage` when every sample reaches its
/// goal.
pub open spec fn stage_after_reaching(stage: EnvelopeStage, n: nat) -> EnvelopeStage
    decreases n,
{
    if n == 0 {
        stage
    } else {
        stage_after_reaching(spec_after_sample(stage, true), (n - 1) as nat)
    }
}

/// A sample that does not reach its stage's goal leaves every stage as it
/// is; one that does moves attack to decay, decay to sustain and release to
/// idle.
pub proof fn stage_changes_only_on_goal(stage: EnvelopeStage)
    ensures
        spec_after_sample(stage, false) == stage,
        spec_after_sample(EnvelopeStage::Attack, true) == EnvelopeStage::Decay,
        spec_after_sample(EnvelopeStage::Decay, true) == EnvelopeStage::Sustain,
        spec_after_sample(EnvelopeStage::Release, true) == EnvelopeStage::Idle,
{
}

/// An idle envelope stays idle, whatever its samples do, until a note
/// starts; the sustain stage lasts until the note is released.
pub proof fn idle_and_sustain_hold(reached: bool)
    ensures
        spec_after_sample(EnvelopeStage::Idle, reached) == EnvelopeStage::Idle,
        spec_after_sample(EnvelopeStage::Sustain, reached) == EnvelopeStage::Sustain,
{
}

/// Starting a note begins the attack from every stage, so a retrigger
/// during release continues from the current level; releasing the note
/// moves every stage but idle to release, and an idle envelope ignores it.
pub proof fn gate_transitions(stage: EnvelopeStage)
    ensures
        spec_gate_on(stage) == EnvelopeStage::Attack,
        stage != EnvelopeStage::Idle ==> spec_gate_off(stage) == EnvelopeStage::Release,
        spec_gate_off(EnvelopeStage::Idle) == EnvelopeStage::Idle,
        spec_gate_off(spec_gate_off(stage)) == spec_gate_off(stage),
{
}

/// Attack, decay and sustain follow one another: from attack, the envelope
/// is in decay after one goal reached and in sustain after two, and stays
/// there; from release, it is idle after one goal reached.
pub proof fn stage_sequence(n: nat)
    ensures
        stage_after_reaching(EnvelopeStage::Attack, 1) == EnvelopeStage::Decay,
        n >= 2 ==> stage_after_reaching(EnvelopeStage::Attack, n) == EnvelopeStage::Sustain,
        n >= 1 ==> stage_after_reaching(EnvelopeStage::Release, n) == EnvelopeStage::Idle,
    decreases n,
{
    reveal_with_fuel(stage_after_reaching, 3);
    if n >= 3 {
        stage_sequence((n - 1) as nat);
        lemma_fixed_point(EnvelopeStage::Sustain, (n - 2) as nat);
        lemma_fixed_point(EnvelopeStage::Idle, (n - 1) as nat);
    } else if n == 2 {
        lemma_fixed_point(EnvelopeStage::Idle, 1);
    }
}

proof fn lemma_fixed_point(stage: EnvelopeStage, n: nat)
    requires
        stage == EnvelopeStage::Idle || stage == EnvelopeStage::Sustain,
    ensures
        stage_after_reaching(stage, n) == stage,
    decreases n,
{
    if n > 0 {
        lemma_fixed_point(stage, (n - 1) as nat);
    }
}

} // verus!
