//! The byte layout of the container, as functions on sequences: what a
//! channel is written as, and what a byte stream is read as.
//!
//! A stream is a 12-byte RIFF header, a 24-byte format chunk, an 8-byte data
//! chunk header and then the samples: 16-bit signed little-endian integers,
//! one per channel and frame, the right channel before the left.

use crate::endian::{i16_le, le_i16, le_u16, le_u32, u16_le, u32_le};
use crate::wav::channel::ChannelView;
use crate::wav::error::DataError;
use crate::wav::sample::SamplesView;
use vstd::prelude::*;

verus! {

/// Length of the RIFF header: tag, size and form type.
pub const RIFF_LEN: usize = 12;

/// Length of the stream up to the end of the format chunk.
pub const FMT_END: usize = 36;

/// Length of everything that precedes the samples.
pub const HEADER_LEN: usize = 44;

/// The bytes of `RIFF`.
pub open spec fn riff_tag() -> Seq<u8> {
    seq![0x52u8, 0x49u8, 0x46u8, 0x46u8]
}

/// The bytes of `WAVE`.
pub open spec fn wave_tag() -> Seq<u8> {
    seq![0x57u8, 0x41u8, 0x56u8, 0x45u8]
}

/// The bytes of `fmt `.
pub open spec fn fmt_tag() -> Seq<u8> {
    seq![0x66u8, 0x6du8, 0x74u8, 0x20u8]
}

/// The bytes of `data`.
pub open spec fn data_tag() -> Seq<u8> {
    seq![0x64u8, 0x61u8, 0x74u8, 0x61u8]
}

/// The 44 bytes that precede `data_size` bytes of samples.
pub open spec fn header(channels: u16, sample_rate: u32, data_size: u32) -> Seq<u8> {
    riff_tag() + u32_le((data_size + 36) as u32) + wave_tag() + fmt_tag() + u32_le(16) + u16_le(1)
        + u16_le(channels) + u32_le(sample_rate) + u32_le((sample_rate * channels * 2) as u32)
        + u16_le((channels * 2) as u16) + u16_le(16) + data_tag() + u32_le(data_size)
}

/// Two channels of equal length as one sequence, frame by frame, the right
/// sample before the left.
pub open spec fn interleave(right: Seq<i16>, left: Seq<i16>) -> Seq<i16> {
    Seq::new(
        2 * right.len(),
        |i: int|
            if i % 2 == 0 {
                right[i / 2]
            } else {
                left[i / 2]
            },
    )
}

/// The samples at even positions, in order.
pub open spec fn evens(s: Seq<i16>) -> Seq<i16> {
    Seq::new(((s.len() + 1) / 2) as nat, |i: int| s[2 * i])
}

/// The samples at odd positions, in order.
pub open spec fn odds(s: Seq<i16>) -> Seq<i16> {
    Seq::new((s.len() / 2) as nat, |i: int| s[2 * i + 1])
}

/// The samples of the first `n` frames of `ch`, in the order they are
/// written.
pub open spec fn frames(ch: ChannelView, n: nat) -> Seq<i16> {
    match ch {
        ChannelView::Mono(s) => s.points.take(n as int),
        ChannelView::Stereo(right, left) => interleave(
            right.points.take(n as int),
            left.points.take(n as int),
        ),
    }
}

/// The samples as bytes, two per sample.
pub open spec fn pcm(samples: Seq<i16>) -> Seq<u8> {
    Seq::new(2 * samples.len(), |i: int| i16_le(samples[i / 2])[i % 2])
}

/// The complete samples that `bytes` holds from `start` on; a trailing odd
/// byte belongs to none.
pub open spec fn samples_from(bytes: Seq<u8>, start: int) -> Seq<i16> {
    Seq::new(((bytes.len() - start) / 2) as nat, |i: int| le_i16(bytes, start + 2 * i))
}

/// Why the first `n` frames of `ch` cannot be written, if they cannot.
pub open spec fn encode_error(ch: ChannelView, n: nat) -> Option<DataError> {
    if 2 * ch.channels() * n + 36 > u32::MAX {
        Some(DataError::TooLong { samples: n as usize })
    } else if n > ch.available() {
        Some(DataError::MissingSample { index: ch.available() as usize })
    } else if ch.sample_rate() * ch.channels() * 2 > u32::MAX {
        Some(DataError::RateTooHigh { sample_rate: ch.sample_rate() })
    } else {
        None
    }
}

/// The stream that holds the first `n` frames of `ch`.
pub open spec fn encoded(ch: ChannelView, n: nat) -> Seq<u8> {
    header(ch.channels(), ch.sample_rate(), (2 * ch.channels() * n) as u32) + pcm(frames(ch, n))
}

/// The first validation that `bytes` fails, if it fails one. The checks run
/// in the order of the stream.
pub open spec fn decode_error(bytes: Seq<u8>) -> Option<DataError> {
    let len = bytes.len() as usize;
    let channels = le_u16(bytes, 22);
    let sample_rate = le_u32(bytes, 24);
    if bytes.len() < RIFF_LEN {
        Some(DataError::Truncated { needed: RIFF_LEN, len })
    } else if bytes.subrange(0, 4) != riff_tag() {
        Some(DataError::RiffMagic)
    } else if bytes.subrange(8, 12) != wave_tag() {
        Some(DataError::WaveMagic)
    } else if le_u32(bytes, 4) + 8 != bytes.len() {
        Some(DataError::RiffSize { declared: le_u32(bytes, 4), len })
    } else if bytes.len() < FMT_END {
        Some(DataError::Truncated { needed: FMT_END, len })
    } else if bytes.subrange(12, 16) != fmt_tag() {
        Some(DataError::FmtMagic)
    } else if le_u32(bytes, 16) != 16 {
        Some(DataError::FmtSize { declared: le_u32(bytes, 16) })
    } else if le_u16(bytes, 20) != 1 {
        Some(DataError::AudioFormat { code: le_u16(bytes, 20) })
    } else if channels != 1 && channels != 2 {
        Some(DataError::ChannelCount { count: channels })
    } else if le_u16(bytes, 34) != 16 {
        Some(DataError::BitsPerSample { bits: le_u16(bytes, 34) })
    } else if le_u16(bytes, 32) != channels * 2 {
        Some(DataError::BlockAlign { align: le_u16(bytes, 32), channels })
    } else if le_u32(bytes, 28) != sample_rate * channels * 2 {
        Some(DataError::ByteRate { declared: le_u32(bytes, 28), sample_rate, channels })
    } else if bytes.len() < HEADER_LEN {
        Some(DataError::Truncated { needed: HEADER_LEN, len })
    } else if bytes.subrange(36, 40) != data_tag() {
        Some(DataError::DataMagic)
    } else if le_u32(bytes, 40) + 44 != bytes.len() {
        Some(DataError::DataSize { declared: le_u32(bytes, 40), len })
    } else {
        None
    }
}

/// The channel that a valid stream holds. Every source runs at the rate that
/// the format chunk declares.
pub open spec fn decoded(bytes: Seq<u8>) -> ChannelView {
    let samples = samples_from(bytes, HEADER_LEN as int);
    let sample_rate = le_u32(bytes, 24);
    if le_u16(bytes, 22) == 1 {
        ChannelView::Mono(SamplesView { points: samples, sample_rate })
    } else {
        ChannelView::Stereo(
            SamplesView { points: evens(samples), sample_rate },
            SamplesView { points: odds(samples), sample_rate },
        )
    }
}

/// With one channel or two, the sizes of the header are plain multiples.
pub proof fn lemma_channel_multiples(channels: u16, x: int)
    requires
        channels == 1 || channels == 2,
    ensures
        2 * channels * x == (if channels == 1 {
            2 * x
        } else {
            4 * x
        }),
        x * channels * 2 == 2 * channels * x,
        x * (channels * 2) == 2 * channels * x,
{
    assert(2 * channels * x == (if channels == 1 {
        2 * x
    } else {
        4 * x
    }) && x * channels * 2 == 2 * channels * x && x * (channels * 2) == 2 * channels * x)
        by (nonlinear_arith)
        requires
            channels == 1 || channels == 2,
    ;
}

/// One more sample adds its two bytes at the end.
pub proof fn lemma_pcm_push(samples: Seq<i16>, x: i16)
    ensures
        pcm(samples.push(x)) == pcm(samples) + i16_le(x),
{
    assert(pcm(samples.push(x)) =~= pcm(samples) + i16_le(x));
}

/// One more frame of a mono channel adds one sample.
pub proof fn lemma_frames_step_mono(s: SamplesView, i: nat)
    requires
        i < s.points.len(),
    ensures
        frames(ChannelView::Mono(s), i + 1) == frames(ChannelView::Mono(s), i).push(
            s.points[i as int],
        ),
{
    assert(s.points.take((i + 1) as int) =~= s.points.take(i as int).push(s.points[i as int]));
}

/// One more frame of a stereo channel adds the right sample, then the left.
pub proof fn lemma_frames_step_stereo(right: SamplesView, left: SamplesView, i: nat)
    requires
        i < right.points.len(),
        i < left.points.len(),
    ensures
        frames(ChannelView::Stereo(right, left), i + 1) == frames(
            ChannelView::Stereo(right, left),
            i,
        ).push(right.points[i as int]).push(left.points[i as int]),
{
    assert(frames(ChannelView::Stereo(right, left), i + 1) =~= frames(
        ChannelView::Stereo(right, left),
        i,
    ).push(right.points[i as int]).push(left.points[i as int]));
}

} // verus!
