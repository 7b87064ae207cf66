//! Sine-wave tone synthesis support: musical notes, sampled PCM channels and a
//! byte-exact codec for the canonical 16-bit RIFF/WAVE container.

pub mod beep;
pub mod decimal;
pub mod endian;
pub mod generator;
pub mod note;
pub mod wav;

pub use beep::{Action, Beep, Seen};
pub use note::{Note, NoteType};
pub use wav::{Channel, DataError, Error, Samples, WavAudio};
