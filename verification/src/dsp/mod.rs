//! The discrete side of the synthesizer voice: envelope stages, note
//! tracking, filter modes and waveforms.

pub mod engine;
pub mod envelope;
pub mod filter;
pub mod oscillator;

pub use engine::Voice;
pub use envelope::EnvelopeStage;
pub use filter::FilterMode;
pub use oscillator::Waveform;
