//! The audio container: channels of samples and their canonical byte form.

pub mod audio;
pub mod channel;
pub mod error;
pub mod format;
pub mod laws;
pub mod sample;

pub use audio::WavAudio;
pub use channel::{Channel, ChannelView};
pub use error::{DataError, Error};
pub use sample::{Samples, SamplesView};
