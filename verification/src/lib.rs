//! TuneSmith: deterministic, rule-based music composition.
//!
//! The library holds the parts of TuneSmith that compute: the musical data
//! model, the seeded composition engine (harmony, melody, rhythm), the mood
//! catalogue, and the Standard MIDI File encoder. Audio synthesis, device
//! I/O and file writing live in the application around it.

pub mod types;
pub mod error;

pub use error::Error;
pub use types::{
    ExportFormat, GeneratedTune, Instrument, MidiEvent, MidiEventType, MidiTrack, TuneProgram,
};
pub mod random;
pub mod utils;
pub mod text;
pub mod composition;
pub mod export;
pub mod mood;
pub mod metadata;
