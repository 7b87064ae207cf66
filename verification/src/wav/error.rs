//! The error domain of the codec and of the playback hand-off.

use crate::decimal::{push_signed_decimal, signed_decimal};
use vstd::prelude::*;
use vstd::std_specs::convert::FromSpecImpl;
use vstd::string::StringExecFns;

verus! {

/// `std::io::Error`, a failure of a stream. Nothing of its inside is known
/// here.
#[verifier::external_type_specification]
#[verifier::external_body]
pub struct ExIoError(std::io::Error);

/// Why a byte stream is not a canonical container, or why a channel cannot
/// be written as one.
#[derive(Copy, Clone, Debug, PartialEq, Eq, Structural)]
pub enum DataError {
    /// The stream ends before the `needed` bytes of a chunk are complete.
    Truncated { needed: usize, len: usize },
    /// The stream does not start with `RIFF`.
    RiffMagic,
    /// The form type is not `WAVE`.
    WaveMagic,
    /// The declared RIFF size plus 8 is not the stream's length.
    RiffSize { declared: u32, len: usize },
    /// The second chunk is not `fmt `.
    FmtMagic,
    /// The format chunk does not declare 16 bytes.
    FmtSize { declared: u32 },
    /// The audio format is not 1, uncompressed PCM.
    AudioFormat { code: u16 },
    /// The channel count is neither 1 nor 2.
    ChannelCount { count: u16 },
    /// The samples are not 16 bits wide.
    BitsPerSample { bits: u16 },
    /// The block alignment is not two bytes per channel.
    BlockAlign { align: u16, channels: u16 },
    /// The byte rate is not the sample rate times the block alignment.
    ByteRate { declared: u32, sample_rate: u32, channels: u16 },
    /// The third chunk is not `data`.
    DataMagic,
    /// The declared data size plus 44 is not the stream's length.
    DataSize { declared: u32, len: usize },
    /// A channel holds no sample at `index`, which the write asks for.
    MissingSample { index: usize },
    /// The size of the sample data does not fit the header's 32-bit fields.
    TooLong { samples: usize },
    /// The byte rate does not fit its 32-bit field.
    RateTooHigh { sample_rate: u32 },
    /// A decoded frame has neither one channel nor two.
    FrameChannels { channels: usize },
    /// A decoded stereo frame holds an odd number of samples.
    FrameLength { len: usize },
}

#[derive(Debug)]
pub enum Error {
    /// A failure of the underlying stream, passed on unchanged.
    IoError(std::io::Error),
    /// The external player ended with the given exit code.
    ExecutionError(i32, String),
    /// The container is malformed, or cannot be formed.
    InvalidFileData(DataError),
    Other(String),
}

impl DataError {
    /// What the error says of itself.
    pub open spec fn spec_text(self) -> Seq<char> {
        match self {
            DataError::Truncated { .. } => "the stream ends within a chunk"@,
            DataError::RiffMagic => "the stream does not start with RIFF"@,
            DataError::WaveMagic => "the form type is not WAVE"@,
            DataError::RiffSize { .. } => "the RIFF size does not match the length of the stream"@,
            DataError::FmtMagic => "the second chunk is not a format chunk"@,
            DataError::FmtSize { .. } => "the format chunk is not 16 bytes long"@,
            DataError::AudioFormat { .. } => "the audio format is not uncompressed PCM"@,
            DataError::ChannelCount { .. } => "the channel count is neither 1 nor 2"@,
            DataError::BitsPerSample { .. } => "the samples are not 16 bits wide"@,
            DataError::BlockAlign { .. } => "the block alignment is not two bytes per channel"@,
            DataError::ByteRate { .. } => {
                "the byte rate is not the sample rate times the block alignment"@
            },
            DataError::DataMagic => "the third chunk is not a data chunk"@,
            DataError::DataSize { .. } => "the data size does not match the length of the stream"@,
            DataError::MissingSample { .. } => {
                "a channel has fewer samples than are to be written"@
            },
            DataError::TooLong { .. } => "the sample data does not fit the size fields"@,
            DataError::RateTooHigh { .. } => "the byte rate does not fit its field"@,
            DataError::FrameChannels { .. } => "a decoded frame has neither one channel nor two"@,
            DataError::FrameLength { .. } => {
                "a decoded stereo frame holds an odd number of samples"@
            },
        }
    }

    /// What the error says of itself.
    pub fn text(&self) -> (s: &'static str)
        ensures
            s@ == self.spec_text(),
    {
        match self {
            DataError::Truncated { .. } => "the stream ends within a chunk",
            DataError::RiffMagic => "the stream does not start with RIFF",
            DataError::WaveMagic => "the form type is not WAVE",
            DataError::RiffSize { .. } => "the RIFF size does not match the length of the stream",
            DataError::FmtMagic => "the second chunk is not a format chunk",
            DataError::FmtSize { .. } => "the format chunk is not 16 bytes long",
            DataError::AudioFormat { .. } => "the audio format is not uncompressed PCM",
            DataError::ChannelCount { .. } => "the channel count is neither 1 nor 2",
            DataError::BitsPerSample { .. } => "the samples are not 16 bits wide",
            DataError::BlockAlign { .. } => "the block alignment is not two bytes per channel",
            DataError::ByteRate { .. } => {
                "the byte rate is not the sample rate times the block alignment"
            },
            DataError::DataMagic => "the third chunk is not a data chunk",
            DataError::DataSize { .. } => "the data size does not match the length of the stream",
            DataError::MissingSample { .. } => "a channel has fewer samples than are to be written",
            DataError::TooLong { .. } => "the sample data does not fit the size fields",
            DataError::RateTooHigh { .. } => "the byte rate does not fit its field",
            DataError::FrameChannels { .. } => "a decoded frame has neither one channel nor two",
            DataError::FrameLength { .. } => {
                "a decoded stereo frame holds an odd number of samples"
            },
        }
    }
}

/// `std::io::Error` as text, by way of `to_string`. The text is the
/// failure's own, and nothing is claimed of it.
#[verifier::external_body]
fn stream_text(err: &std::io::Error) -> (s: String) {
    err.to_string()
}

impl Error {
    /// What the error says of itself: a message, with the exit code where
    /// the player failed and with the kind of error where the data is
    /// invalid. A failure of the stream speaks for itself.
    pub fn message(&self) -> (s: String)
        ensures
            match self {
                Error::IoError(_) => true,
                Error::ExecutionError(code, complaint) => s@ == complaint@ + " (Error code "@
                    + signed_decimal(*code as int) + ")"@,
                Error::InvalidFileData(why) => s@ == "InvalidFileData: "@ + why.spec_text(),
                Error::Other(what) => s@ == what@,
            },
    {
        match self {
            Error::IoError(err) => stream_text(err),
            Error::ExecutionError(code, complaint) => {
                let mut s = complaint.clone();
                s.append(" (Error code ");
                push_signed_decimal(&mut s, *code);
                s.append(")");
                s
            },
            Error::InvalidFileData(why) => {
                let mut s = "InvalidFileData: ".to_owned();
                s.append(why.text());
                s
            },
            Error::Other(what) => what.clone(),
        }
    }
}

impl From<std::io::Error> for Error {
    fn from(err: std::io::Error) -> (e: Error) {
        Error::IoError(err)
    }
}

impl FromSpecImpl<std::io::Error> for Error {
    open spec fn obeys_from_spec() -> bool {
        true
    }

    open spec fn from_spec(err: std::io::Error) -> Error {
        Error::IoError(err)
    }
}

} // verus!
