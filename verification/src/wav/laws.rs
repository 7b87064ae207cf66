//! What holds of the byte layout as a whole: writing and reading are
//! inverse, and the reader refuses what it must.

use crate::endian::{
    i16_le, le_u16, le_u32, lemma_i16_bytes_round_trip, lemma_i16_round_trip,
    lemma_u16_bytes_round_trip, lemma_u16_round_trip, lemma_u32_bytes_round_trip,
    lemma_u32_round_trip, u16_le, u32_le,
};
use crate::wav::channel::ChannelView;
use crate::wav::error::DataError;
use crate::wav::format::{
    data_tag, decode_error, decoded, encode_error, encoded, evens, fmt_tag, frames, header,
    interleave, lemma_channel_multiples, odds, pcm, riff_tag, samples_from, wave_tag, HEADER_LEN,
};
use vstd::prelude::*;

verus! {

/// A stream that starts with a header holds that header's fields at their
/// offsets.
pub proof fn lemma_header_fields(bytes: Seq<u8>, channels: u16, sample_rate: u32, data_size: u32)
    requires
        channels == 1 || channels == 2,
        data_size + 36 <= u32::MAX,
        sample_rate * channels * 2 <= u32::MAX,
        bytes.len() >= HEADER_LEN,
        bytes.subrange(0, HEADER_LEN as int) == header(channels, sample_rate, data_size),
    ensures
        bytes.subrange(0, 4) == riff_tag(),
        le_u32(bytes, 4) == data_size + 36,
        bytes.subrange(8, 12) == wave_tag(),
        bytes.subrange(12, 16) == fmt_tag(),
        le_u32(bytes, 16) == 16,
        le_u16(bytes, 20) == 1,
        le_u16(bytes, 22) == channels,
        le_u32(bytes, 24) == sample_rate,
        le_u32(bytes, 28) == sample_rate * channels * 2,
        le_u16(bytes, 32) == channels * 2,
        le_u16(bytes, 34) == 16,
        bytes.subrange(36, 40) == data_tag(),
        le_u32(bytes, 40) == data_size,
{
    let h = header(channels, sample_rate, data_size);
    let head = bytes.subrange(0, HEADER_LEN as int);
    lemma_channel_multiples(channels, sample_rate as int);
    assert(h.len() == 44);
    assert forall|i: int| 0 <= i < 44 implies bytes[i] == h[i] by {
        assert(head[i] == bytes[i]);
    }
    assert(bytes.subrange(0, 4) =~= riff_tag());
    assert(bytes.subrange(8, 12) =~= wave_tag());
    assert(bytes.subrange(12, 16) =~= fmt_tag());
    assert(bytes.subrange(36, 40) =~= data_tag());
    assert(bytes.subrange(4, 8) =~= u32_le((data_size + 36) as u32));
    lemma_u32_round_trip(bytes, 4, (data_size + 36) as u32);
    assert(bytes.subrange(16, 20) =~= u32_le(16));
    lemma_u32_round_trip(bytes, 16, 16);
    assert(bytes.subrange(20, 22) =~= u16_le(1));
    lemma_u16_round_trip(bytes, 20, 1);
    assert(bytes.subrange(22, 24) =~= u16_le(channels));
    lemma_u16_round_trip(bytes, 22, channels);
    assert(bytes.subrange(24, 28) =~= u32_le(sample_rate));
    lemma_u32_round_trip(bytes, 24, sample_rate);
    assert(bytes.subrange(28, 32) =~= u32_le((sample_rate * channels * 2) as u32));
    lemma_u32_round_trip(bytes, 28, (sample_rate * channels * 2) as u32);
    assert(bytes.subrange(32, 34) =~= u16_le((channels * 2) as u16));
    lemma_u16_round_trip(bytes, 32, (channels * 2) as u16);
    assert(bytes.subrange(34, 36) =~= u16_le(16));
    lemma_u16_round_trip(bytes, 34, 16);
    assert(bytes.subrange(40, 44) =~= u32_le(data_size));
    lemma_u32_round_trip(bytes, 40, data_size);
}

/// A header is 44 bytes long.
pub proof fn lemma_header_len(channels: u16, sample_rate: u32, data_size: u32)
    ensures
        header(channels, sample_rate, data_size).len() == HEADER_LEN,
{
}

/// A stream made of a header and samples starts with that header, and the
/// samples read after it are the samples written there.
pub proof fn lemma_stream_parts(head: Seq<u8>, samples: Seq<i16>)
    requires
        head.len() == HEADER_LEN,
    ensures
        (head + pcm(samples)).len() == HEADER_LEN + 2 * samples.len(),
        (head + pcm(samples)).subrange(0, HEADER_LEN as int) == head,
        samples_from(head + pcm(samples), HEADER_LEN as int) == samples,
{
    let bytes = head + pcm(samples);
    let read = samples_from(bytes, HEADER_LEN as int);
    assert(bytes.subrange(0, HEADER_LEN as int) =~= head);
    assert(read.len() == samples.len());
    assert forall|i: int| 0 <= i < samples.len() implies read[i] == samples[i] by {
        let at = HEADER_LEN + 2 * i;
        assert(bytes[at] == pcm(samples)[2 * i]);
        assert(bytes[at + 1] == pcm(samples)[2 * i + 1]);
        assert(bytes.subrange(at, at + 2) =~= i16_le(samples[i]));
        lemma_i16_round_trip(bytes, at, samples[i]);
    }
    assert(read =~= samples);
}

/// Splitting an interleaved sequence by position gives the two channels back.
pub proof fn lemma_split_interleaved(right: Seq<i16>, left: Seq<i16>)
    requires
        right.len() == left.len(),
    ensures
        evens(interleave(right, left)) == right,
        odds(interleave(right, left)) == left,
{
    assert(evens(interleave(right, left)) =~= right);
    assert(odds(interleave(right, left)) =~= left);
}

/// The first `n` frames of a channel hold one sample per source and frame.
proof fn lemma_frames_len(ch: ChannelView, n: nat)
    requires
        n <= ch.available(),
    ensures
        frames(ch, n).len() == ch.channels() * n,
{
}

/// The stream written for a channel is its header followed by its samples,
/// and reads back as both.
proof fn lemma_encoded_parts(ch: ChannelView, n: nat)
    requires
        encode_error(ch, n) is None,
    ensures
        frames(ch, n).len() == ch.channels() * n,
        encoded(ch, n).len() == HEADER_LEN + 2 * ch.channels() * n,
        encoded(ch, n).subrange(0, HEADER_LEN as int) == header(
            ch.channels(),
            ch.sample_rate(),
            (2 * ch.channels() * n) as u32,
        ),
        samples_from(encoded(ch, n), HEADER_LEN as int) == frames(ch, n),
{
    let head = header(ch.channels(), ch.sample_rate(), (2 * ch.channels() * n) as u32);
    lemma_channel_multiples(ch.channels(), n as int);
    lemma_header_len(ch.channels(), ch.sample_rate(), (2 * ch.channels() * n) as u32);
    lemma_frames_len(ch, n);
    lemma_stream_parts(head, frames(ch, n));
}

/// Writing the first `n` frames of a channel and reading the stream back
/// gives a channel of the same kind and sample rate, with those frames'
/// samples and no others.
pub proof fn round_trip(ch: ChannelView, n: nat)
    requires
        ch.wf(),
        encode_error(ch, n) is None,
    ensures
        decode_error(encoded(ch, n)) is None,
        decoded(encoded(ch, n)) == ch.take(n as int),
{
    let channels = ch.channels();
    let sample_rate = ch.sample_rate();
    let data_size = (2 * channels * n) as u32;
    let bytes = encoded(ch, n);
    lemma_channel_multiples(channels, n as int);
    lemma_channel_multiples(channels, sample_rate as int);
    lemma_encoded_parts(ch, n);
    lemma_header_fields(bytes, channels, sample_rate, data_size);
    match ch {
        ChannelView::Mono(s) => {},
        ChannelView::Stereo(right, left) => {
            lemma_split_interleaved(right.points.take(n as int), left.points.take(n as int));
        },
    }
}

/// A stream whose fields at their offsets are those of a header starts with
/// that header.
proof fn lemma_header_from_fields(bytes: Seq<u8>)
    requires
        decode_error(bytes) is None,
    ensures
        bytes.subrange(0, HEADER_LEN as int) == header(
            le_u16(bytes, 22),
            le_u32(bytes, 24),
            le_u32(bytes, 40),
        ),
{
    let channels = le_u16(bytes, 22);
    let sample_rate = le_u32(bytes, 24);
    let data_size = le_u32(bytes, 40);
    lemma_channel_multiples(channels, sample_rate as int);
    lemma_u32_bytes_round_trip(bytes, 4);
    lemma_u32_bytes_round_trip(bytes, 16);
    lemma_u16_bytes_round_trip(bytes, 20);
    lemma_u16_bytes_round_trip(bytes, 22);
    lemma_u32_bytes_round_trip(bytes, 24);
    lemma_u32_bytes_round_trip(bytes, 28);
    lemma_u16_bytes_round_trip(bytes, 32);
    lemma_u16_bytes_round_trip(bytes, 34);
    lemma_u32_bytes_round_trip(bytes, 40);
    let head = bytes.subrange(0, 4) + bytes.subrange(4, 8) + bytes.subrange(8, 12)
        + bytes.subrange(12, 16) + bytes.subrange(16, 20) + bytes.subrange(20, 22)
        + bytes.subrange(22, 24) + bytes.subrange(24, 28) + bytes.subrange(28, 32)
        + bytes.subrange(32, 34) + bytes.subrange(34, 36) + bytes.subrange(36, 40)
        + bytes.subrange(40, 44);
    assert(bytes.subrange(0, HEADER_LEN as int) =~= head);
    assert(head == header(channels, sample_rate, data_size));
}

/// The bytes after a header are the bytes of the samples read there, where
/// no byte is left over.
proof fn lemma_pcm_from_samples(bytes: Seq<u8>)
    requires
        bytes.len() >= HEADER_LEN,
        (bytes.len() - HEADER_LEN) % 2 == 0,
    ensures
        pcm(samples_from(bytes, HEADER_LEN as int)) == bytes.subrange(
            HEADER_LEN as int,
            bytes.len() as int,
        ),
{
    let samples = samples_from(bytes, HEADER_LEN as int);
    let tail = bytes.subrange(HEADER_LEN as int, bytes.len() as int);
    assert(pcm(samples).len() == tail.len());
    assert forall|i: int| 0 <= i < tail.len() implies pcm(samples)[i] == tail[i] by {
        let k = i / 2;
        let at = HEADER_LEN + 2 * k;
        lemma_i16_bytes_round_trip(bytes, at);
        assert(bytes.subrange(at, at + 2)[i % 2] == bytes[at + i % 2]);
    }
    assert(pcm(samples) =~= tail);
}

/// Interleaving what was split by position gives the sequence back, where
/// it has an even length.
proof fn lemma_interleave_split(samples: Seq<i16>)
    requires
        samples.len() % 2 == 0,
    ensures
        interleave(evens(samples), odds(samples)) == samples,
{
    assert(interleave(evens(samples), odds(samples)) =~= samples);
}

/// What the fields of a valid stream are known to hold.
spec fn valid_fields(bytes: Seq<u8>) -> bool {
    let channels = le_u16(bytes, 22);
    &&& bytes.len() >= HEADER_LEN
    &&& channels == 1 || channels == 2
    &&& le_u32(bytes, 4) + 8 == bytes.len()
    &&& le_u32(bytes, 28) == le_u32(bytes, 24) * channels * 2
    &&& le_u32(bytes, 40) + HEADER_LEN == bytes.len()
}

/// A stream that passes every validation holds valid fields.
proof fn lemma_valid_fields(bytes: Seq<u8>)
    requires
        decode_error(bytes) is None,
    ensures
        valid_fields(bytes),
{
}

/// The channel read from a mono stream supplies every sample of the
/// stream, in order.
proof fn lemma_frames_of_mono(bytes: Seq<u8>)
    requires
        bytes.len() >= HEADER_LEN,
        le_u16(bytes, 22) == 1,
        (bytes.len() - HEADER_LEN) % 2 == 0,
    ensures
        2 * decoded(bytes).available() == bytes.len() - HEADER_LEN,
        frames(decoded(bytes), decoded(bytes).available()) == samples_from(
            bytes,
            HEADER_LEN as int,
        ),
{
    let samples = samples_from(bytes, HEADER_LEN as int);
    assert(samples.take(samples.len() as int) =~= samples);
}

/// The channel read from a stereo stream of whole frames supplies every
/// sample of the stream, in order.
proof fn lemma_frames_of_stereo(bytes: Seq<u8>)
    requires
        bytes.len() >= HEADER_LEN,
        le_u16(bytes, 22) == 2,
        (bytes.len() - HEADER_LEN) % 4 == 0,
    ensures
        4 * decoded(bytes).available() == bytes.len() - HEADER_LEN,
        frames(decoded(bytes), decoded(bytes).available()) == samples_from(
            bytes,
            HEADER_LEN as int,
        ),
{
    let samples = samples_from(bytes, HEADER_LEN as int);
    let right = evens(samples);
    let left = odds(samples);
    assert(samples.len() % 2 == 0);
    assert(right.len() == left.len());
    assert(right.take(right.len() as int) =~= right);
    assert(left.take(right.len() as int) =~= left);
    lemma_interleave_split(samples);
}

/// The channel read from a stream of whole frames supplies as many frames
/// as the stream holds, and they are the samples of the stream in order.
proof fn lemma_frames_of_decoded(bytes: Seq<u8>)
    requires
        valid_fields(bytes),
        (bytes.len() - HEADER_LEN) % (2 * le_u16(bytes, 22)) == 0,
    ensures
        2 * le_u16(bytes, 22) * decoded(bytes).available() == bytes.len() - HEADER_LEN,
        frames(decoded(bytes), decoded(bytes).available()) == samples_from(
            bytes,
            HEADER_LEN as int,
        ),
        decoded(bytes).channels() == le_u16(bytes, 22),
        decoded(bytes).sample_rate() == le_u32(bytes, 24),
{
    let channels = le_u16(bytes, 22);
    lemma_channel_multiples(channels, decoded(bytes).available() as int);
    if channels == 1 {
        assert(2 * channels == 2);
        lemma_frames_of_mono(bytes);
    } else {
        assert(2 * channels == 4);
        lemma_frames_of_stereo(bytes);
    }
}

/// A stream is its first 44 bytes followed by the rest.
proof fn lemma_head_and_tail(bytes: Seq<u8>, head: Seq<u8>, tail: Seq<u8>)
    requires
        bytes.len() >= HEADER_LEN,
        head == bytes.subrange(0, HEADER_LEN as int),
        tail == bytes.subrange(HEADER_LEN as int, bytes.len() as int),
    ensures
        head + tail == bytes,
{
    assert(head + tail =~= bytes);
}

/// A valid stream of whole frames is, byte for byte, the stream written for
/// the channel it holds: no two such streams hold the same channel.
pub proof fn read_stream_is_written_again(bytes: Seq<u8>)
    requires
        decode_error(bytes) is None,
        (bytes.len() - HEADER_LEN) % (2 * le_u16(bytes, 22)) == 0,
    ensures
        encode_error(decoded(bytes), decoded(bytes).available()) is None,
        encoded(decoded(bytes), decoded(bytes).available()) == bytes,
{
    let channels = le_u16(bytes, 22);
    let ch = decoded(bytes);
    let n = ch.available();
    lemma_valid_fields(bytes);
    lemma_frames_of_decoded(bytes);
    lemma_channel_multiples(channels, n as int);
    lemma_channel_multiples(channels, le_u32(bytes, 24) as int);
    lemma_header_from_fields(bytes);
    lemma_pcm_from_samples(bytes);
    lemma_head_and_tail(
        bytes,
        header(channels, le_u32(bytes, 24), le_u32(bytes, 40)),
        pcm(frames(ch, n)),
    );
}

/// `bytes` with the bytes from `at` on overwritten by `patch`.
pub open spec fn patched(bytes: Seq<u8>, at: int, patch: Seq<u8>) -> Seq<u8> {
    bytes.subrange(0, at) + patch + bytes.subrange(at + patch.len(), bytes.len() as int)
}

/// A stream whose declared data size disagrees with its length is refused,
/// whatever else it holds.
pub proof fn data_size_mismatch_is_refused(bytes: Seq<u8>)
    requires
        le_u32(bytes, 40) + HEADER_LEN != bytes.len(),
    ensures
        decode_error(bytes) is Some,
{
}

/// A stream whose audio format is not uncompressed PCM is refused, whatever
/// else it holds.
pub proof fn foreign_format_is_refused(bytes: Seq<u8>)
    requires
        le_u16(bytes, 20) != 1,
    ensures
        decode_error(bytes) is Some,
{
}

/// A valid stream whose data size field is overwritten with a size that
/// disagrees with its length is refused for that very reason.
pub proof fn corrupt_data_size_is_refused(bytes: Seq<u8>, declared: u32)
    requires
        decode_error(bytes) is None,
        declared + HEADER_LEN != bytes.len(),
    ensures
        decode_error(patched(bytes, 40, u32_le(declared))) == Some(
            DataError::DataSize { declared, len: bytes.len() as usize },
        ),
{
    let corrupt = patched(bytes, 40, u32_le(declared));
    assert(corrupt.len() == bytes.len());
    assert forall|i: int| 0 <= i < 40 implies corrupt[i] == bytes[i] by {}
    assert(corrupt.subrange(0, 4) =~= bytes.subrange(0, 4));
    assert(corrupt.subrange(8, 12) =~= bytes.subrange(8, 12));
    assert(corrupt.subrange(12, 16) =~= bytes.subrange(12, 16));
    assert(corrupt.subrange(36, 40) =~= bytes.subrange(36, 40));
    assert(corrupt.subrange(40, 44) =~= u32_le(declared));
    lemma_u32_round_trip(corrupt, 40, declared);
}

/// A valid stream whose audio format field is overwritten with a code other
/// than that of uncompressed PCM is refused for that very reason.
pub proof fn corrupt_format_is_refused(bytes: Seq<u8>, code: u16)
    requires
        decode_error(bytes) is None,
        code != 1,
    ensures
        decode_error(patched(bytes, 20, u16_le(code))) == Some(DataError::AudioFormat { code }),
{
    let corrupt = patched(bytes, 20, u16_le(code));
    assert(corrupt.len() == bytes.len());
    assert forall|i: int| 0 <= i < 20 implies corrupt[i] == bytes[i] by {}
    assert(corrupt.subrange(0, 4) =~= bytes.subrange(0, 4));
    assert(corrupt.subrange(8, 12) =~= bytes.subrange(8, 12));
    assert(corrupt.subrange(12, 16) =~= bytes.subrange(12, 16));
    assert(corrupt.subrange(20, 22) =~= u16_le(code));
    lemma_u16_round_trip(corrupt, 20, code);
}

} // verus!
