//! Control logic of a monophonic subtractive synthesizer: MIDI decoding and
//! channel filtering, MIDI port selection, envelope stage sequencing, note
//! tracking, and patch-file naming.

pub mod dsp;
pub mod midi;
pub mod text;
pub mod patch_manager;

pub use dsp::{EnvelopeStage, FilterMode, Voice, Waveform};
pub use midi::{MidiChannel, NoteEvent};
