//! Note tracking of the monophonic voice.

use vstd::prelude::*;
use crate::dsp::envelope::{EnvelopeStage, spec_after_sample, spec_gate_off, spec_gate_on};

verus! {

/// The note a monophonic voice is sounding, if any.
#[derive(Debug, Clone, Copy, PartialEq, Eq, Structural)]
pub struct Voice {
    current_note: Option<u8>,
}

/// What a note-off does to the sounding note: whether it releases the envelopes,
/// and the note sounding afterwards. A note-off for any other note is
/// ignored, since a new note may have been struck before the old one was
/// released.
pub open spec fn spec_note_off(current: Option<u8>, note: u8) -> (bool, Option<u8>) {
    if current == Some(note) {
        (true, None)
    } else {
        (false, current)
    }
}

/// A voice is active while a note sounds or its amplitude envelope is not
/// idle.
pub open spec fn spec_is_active(current: Option<u8>, amp_stage: EnvelopeStage) -> bool {
    current is Some || amp_stage != EnvelopeStage::Idle
}

impl Voice {
    /// The note this voice is sounding, if any.
    pub closed spec fn note(self) -> Option<u8> {
        self.current_note
    }

    /// A voice that sounds no note.
    pub fn new() -> (r: Voice)
        ensures
            r.note() is None,
    {
        Voice { current_note: None }
    }

    /// The note this voice is sounding, if any.
    pub fn current_note(&self) -> (r: Option<u8>)
        ensures
            r == self.note(),
    {
        self.current_note
    }

    /// Starts `note`, replacing whatever note was sounding.
    pub fn note_on(&mut self, note: u8)
        ensures
            final(self).note() == Some(note),
    {
        self.current_note = Some(note);
    }

    /// Ends `note` if it is the one sounding; returns whether it was, that
    /// is, whether the envelopes are released.
    pub fn note_off(&mut self, note: u8) -> (released: bool)
        ensures
            (released, final(self).note()) == spec_note_off(old(self).note(), note),
    {
        if self.current_note == Some(note) {
            self.current_note = None;
            true
        } else {
            false
        }
    }

    /// Whether the voice produces sound, given the stage of its amplitude
    /// envelope.
    pub fn is_active(&self, amp_stage: EnvelopeStage) -> (r: bool)
        ensures
            r == spec_is_active(self.note(), amp_stage),
    {
        self.current_note.is_some() || amp_stage != EnvelopeStage::Idle
    }
}

/// A note-off releases exactly when it names the sounding note, and never
/// makes a note sound: afterwards no note sounds (it released) or the same
/// note as before does (it was ignored).
pub proof fn note_off_never_starts_a_note(current: Option<u8>, note: u8)
    ensures
        spec_note_off(current, note).0 <==> current == Some(note),
        spec_note_off(current, note).0 ==> spec_note_off(current, note).1 is None,
        !spec_note_off(current, note).0 ==> spec_note_off(current, note).1 == current,
        spec_note_off(None, note) == (false, None::<u8>),
{
}

/// A sounding note keeps the voice active whatever its envelope does; with
/// no note, the voice is active exactly while the amplitude envelope is not
/// idle.
pub proof fn activity(note: u8, stage: EnvelopeStage)
    ensures
        spec_is_active(Some(note), stage),
        spec_is_active(None, stage) <==> stage != EnvelopeStage::Idle,
{
}

/// A note-off for a note other than the sounding one changes nothing: the
/// note keeps sounding and the voice stays active.
pub proof fn wrong_note_off_is_ignored(note: u8, other: u8, amp_stage: EnvelopeStage)
    requires
        note != other,
    ensures
        spec_note_off(Some(note), other) == (false, Some(note)),
        spec_is_active(spec_note_off(Some(note), other).1, amp_stage),
{
}

/// A struck note makes the voice active; its note-off releases the envelopes and
/// leaves the voice active through the release, and once the release
/// reaches silence the voice is idle.
pub proof fn note_lifecycle(note: u8, amp_stage: EnvelopeStage)
    ensures
        spec_is_active(Some(note), spec_gate_on(amp_stage)),
        spec_note_off(Some(note), note) == (true, None::<u8>),
        spec_is_active(None, spec_gate_off(spec_gate_on(amp_stage))),
        spec_is_active(None, spec_after_sample(spec_gate_off(spec_gate_on(amp_stage)), false)),
        !spec_is_active(None, spec_after_sample(spec_gate_off(spec_gate_on(amp_stage)), true)),
{
}

} // verus!
