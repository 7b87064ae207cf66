//! The container itself: a channel, and its passage to and from bytes.

use crate::endian::{
    push_i16_le, push_u16_le, push_u32_le, read_i16_le, read_u16_le, read_u32_le,
};
use crate::wav::channel::{Channel, ChannelView};
use crate::wav::error::{DataError, Error};
use crate::wav::format::{
    data_tag, decode_error, decoded, encode_error, encoded, evens, fmt_tag, frames, header,
    lemma_channel_multiples, lemma_frames_step_mono, lemma_frames_step_stereo, lemma_pcm_push,
    odds, pcm, riff_tag, samples_from, wave_tag, FMT_END, HEADER_LEN, RIFF_LEN,
};
use crate::wav::sample::Samples;
use vstd::prelude::*;

verus! {

/// Audio held as one channel, ready to be written as a container or just
/// read from one.
pub struct WavAudio {
    channel: Channel,
}

impl View for WavAudio {
    type V = ChannelView;

    closed spec fn view(&self) -> ChannelView {
        self.channel@
    }
}

/// Appends the four bytes of a chunk tag.
fn push_tag(out: &mut Vec<u8>, tag: [u8; 4])
    ensures
        final(out)@ == old(out)@ + tag@,
{
    out.push(tag[0]);
    out.push(tag[1]);
    out.push(tag[2]);
    out.push(tag[3]);
    assert(out@ =~= old(out)@ + tag@);
}

/// Whether the four bytes at `at` are those of `tag`.
fn has_tag(bytes: &[u8], at: usize, tag: [u8; 4]) -> (found: bool)
    requires
        at + 4 <= bytes.len(),
    ensures
        found == (bytes@.subrange(at as int, at + 4) == tag@),
{
    let found = bytes[at] == tag[0] && bytes[at + 1] == tag[1] && bytes[at + 2] == tag[2]
        && bytes[at + 3] == tag[3];
    proof {
        let sub = bytes@.subrange(at as int, at + 4);
        assert(sub[0] == bytes@[at as int]);
        assert(sub[1] == bytes@[at + 1]);
        assert(sub[2] == bytes@[at + 2]);
        assert(sub[3] == bytes@[at + 3]);
        if found {
            assert(sub =~= tag@);
        }
    }
    found
}

/// Writes the RIFF header, the format chunk and the data chunk header of a
/// stream that holds `data_size` bytes of samples.
pub fn write_header(out: &mut Vec<u8>, channels: u16, sample_rate: u32, data_size: u32)
    requires
        channels == 1 || channels == 2,
        data_size + 36 <= u32::MAX,
        sample_rate * channels * 2 <= u32::MAX,
    ensures
        final(out)@ == old(out)@ + header(channels, sample_rate, data_size),
{
    let riff: [u8; 4] = [0x52, 0x49, 0x46, 0x46];
    let wave: [u8; 4] = [0x57, 0x41, 0x56, 0x45];
    let fmt: [u8; 4] = [0x66, 0x6d, 0x74, 0x20];
    let data: [u8; 4] = [0x64, 0x61, 0x74, 0x61];
    proof {
        assert(riff@ =~= riff_tag());
        assert(wave@ =~= wave_tag());
        assert(fmt@ =~= fmt_tag());
        assert(data@ =~= data_tag());
        lemma_channel_multiples(channels, sample_rate as int);
    }
    let byte_rate: u32 = sample_rate * (channels as u32 * 2);
    push_tag(out, riff);
    push_u32_le(out, data_size + 36);
    push_tag(out, wave);
    push_tag(out, fmt);
    push_u32_le(out, 16);
    push_u16_le(out, 1);
    push_u16_le(out, channels);
    push_u32_le(out, sample_rate);
    push_u32_le(out, byte_rate);
    push_u16_le(out, channels * 2);
    push_u16_le(out, 16);
    push_tag(out, data);
    push_u32_le(out, data_size);
    assert(out@ =~= old(out)@ + header(channels, sample_rate, data_size));
}

/// What is reported when the external player ends with the nonzero exit
/// code `code`.
pub open spec fn player_complaint(code: i32) -> Seq<char> {
    if code == 1 {
        "Error occured while running 'play'"@
    } else if code == 2 || code == 3 || code == 126 {
        "Permission denied"@
    } else if code == 127 {
        "'play' is not installed. Install sox to play .wav files"@
    } else {
        "Unkown Error"@
    }
}

impl WavAudio {
    /// Both sources of a stereo channel run at one sample rate.
    pub open spec fn wf(&self) -> bool {
        self@.wf()
    }

    /// Wraps `channel`, whose sources must agree on the sample rate.
    pub fn from_channel(channel: Channel) -> (audio: WavAudio)
        requires
            channel@.wf(),
        ensures
            audio@ == channel@,
            audio.wf(),
    {
        WavAudio { channel }
    }

    /// Audio of a single source.
    pub fn mono(samples: Samples) -> (audio: WavAudio)
        ensures
            audio@ == ChannelView::Mono(samples@),
            audio.wf(),
    {
        WavAudio { channel: Channel::Mono(samples) }
    }

    /// Pairs two sources, which must agree on the sample rate.
    pub fn stereo(right: Samples, left: Samples) -> (audio: WavAudio)
        requires
            right@.sample_rate == left@.sample_rate,
        ensures
            audio@ == ChannelView::Stereo(right@, left@),
            audio.wf(),
    {
        WavAudio { channel: Channel::Stereo(right, left) }
    }

    /// The channel, open to change. Nothing keeps a change from pairing
    /// sources of different sample rates.
    pub fn get_channel(&mut self) -> (channel: &mut Channel)
        ensures
            channel@ == old(self)@,
            final(self)@ == final(channel)@,
    {
        &mut self.channel
    }

    /// The container that holds the first `samples` frames of the channel.
    ///
    /// Fails, and says why, where a size does not fit its header field or a
    /// source has fewer samples than that.
    pub fn encode(&self, samples: usize) -> (r: Result<Vec<u8>, Error>)
        ensures
            match r {
                Ok(bytes) => encode_error(self@, samples as nat) is None && bytes@ == encoded(
                    self@,
                    samples as nat,
                ),
                Err(e) => encode_error(self@, samples as nat) matches Some(why) && e
                    == Error::InvalidFileData(why),
            },
    {
        let channels: u16 = self.channel.channels();
        let sample_rate: u32 = self.channel.sample_rate();
        let available: usize = match &self.channel {
            Channel::Mono(s) => s.sample_count(),
            Channel::Stereo(right, left) => if right.sample_count() <= left.sample_count() {
                right.sample_count()
            } else {
                left.sample_count()
            },
        };
        proof {
            lemma_channel_multiples(channels, samples as int);
            lemma_channel_multiples(channels, sample_rate as int);
        }
        let frame_bytes: u64 = 2 * channels as u64;
        assert(frame_bytes == 2 || frame_bytes == 4);
        if samples as u64 > (u32::MAX as u64 - 36) / frame_bytes {
            assert(2 * self@.channels() * (samples as nat) + 36 > u32::MAX);
            return Err(Error::InvalidFileData(DataError::TooLong { samples }));
        }
        assert(2 * self@.channels() * (samples as nat) + 36 <= u32::MAX);
        if samples > available {
            return Err(Error::InvalidFileData(DataError::MissingSample { index: available }));
        }
        if sample_rate as u64 * (channels as u64 * 2) > u32::MAX as u64 {
            return Err(Error::InvalidFileData(DataError::RateTooHigh { sample_rate }));
        }
        let data_size: u32 = (frame_bytes * samples as u64) as u32;
        let mut out: Vec<u8> = Vec::new();
        write_header(&mut out, channels, sample_rate, data_size);
        let ghost head = header(channels, sample_rate, data_size);
        assert(out@ =~= head + pcm(frames(self@, 0)));
        match &self.channel {
            Channel::Mono(s) => {
                let mut i: usize = 0;
                while i < samples
                    invariant
                        i <= samples <= s@.points.len(),
                        self@ == ChannelView::Mono(s@),
                        out@ == head + pcm(frames(self@, i as nat)),
                    decreases samples - i,
                {
                    let x: i16 = s.sample(i).unwrap();
                    proof {
                        lemma_frames_step_mono(s@, i as nat);
                        lemma_pcm_push(frames(self@, i as nat), x);
                    }
                    push_i16_le(&mut out, x);
                    i = i + 1;
                    assert(out@ =~= head + pcm(frames(self@, i as nat)));
                }
            },
            Channel::Stereo(right, left) => {
                let mut i: usize = 0;
                while i < samples
                    invariant
                        i <= samples,
                        samples <= right@.points.len(),
                        samples <= left@.points.len(),
                        self@ == ChannelView::Stereo(right@, left@),
                        out@ == head + pcm(frames(self@, i as nat)),
                    decreases samples - i,
                {
                    let x: i16 = right.sample(i).unwrap();
                    let y: i16 = left.sample(i).unwrap();
                    proof {
                        lemma_frames_step_stereo(right@, left@, i as nat);
                        lemma_pcm_push(frames(self@, i as nat), x);
                        lemma_pcm_push(frames(self@, i as nat).push(x), y);
                    }
                    push_i16_le(&mut out, x);
                    push_i16_le(&mut out, y);
                    i = i + 1;
                    assert(out@ =~= head + pcm(frames(self@, i as nat)));
                }
            },
        }
        Ok(out)
    }

    /// Judges how the external player ended. An exit code of zero, or none at
    /// all where the player was stopped from outside, is success; any other
    /// code is an error that carries the code and says what it stands for.
    pub fn play_outcome(code: Option<i32>) -> (r: Result<(), Error>)
        ensures
            r is Ok <==> code is None || code == Some(0i32),
            r matches Err(e) ==> code matches Some(c) && e matches Error::ExecutionError(
                failed,
                complaint,
            ) && failed == c && complaint@ == player_complaint(c),
    {
        match code {
            None => Ok(()),
            Some(c) => {
                if c == 0 {
                    Ok(())
                } else if c == 1 {
                    Err(Error::ExecutionError(c, "Error occured while running 'play'".to_owned()))
                } else if c == 2 || c == 3 || c == 126 {
                    Err(Error::ExecutionError(c, "Permission denied".to_owned()))
                } else if c == 127 {
                    Err(
                        Error::ExecutionError(
                            c,
                            "'play' is not installed. Install sox to play .wav files".to_owned(),
                        ),
                    )
                } else {
                    Err(Error::ExecutionError(c, "Unkown Error".to_owned()))
                }
            },
        }
    }

    /// Reads a container back into the channel it holds.
    ///
    /// The stream must be canonical to the byte: three chunks in order, sizes
    /// that match its length, 16-bit PCM in one or two channels. Fails, and
    /// names the first validation that failed, on any other stream.
    pub fn decode(bytes: &[u8]) -> (r: Result<WavAudio, Error>)
        ensures
            match r {
                Ok(audio) => decode_error(bytes@) is None && audio@ == decoded(bytes@)
                    && audio.wf(),
                Err(e) => decode_error(bytes@) matches Some(why) && e == Error::InvalidFileData(
                    why,
                ),
            },
    {
        let riff: [u8; 4] = [0x52, 0x49, 0x46, 0x46];
        let wave: [u8; 4] = [0x57, 0x41, 0x56, 0x45];
        let fmt: [u8; 4] = [0x66, 0x6d, 0x74, 0x20];
        let data: [u8; 4] = [0x64, 0x61, 0x74, 0x61];
        proof {
            assert(riff@ =~= riff_tag());
            assert(wave@ =~= wave_tag());
            assert(fmt@ =~= fmt_tag());
            assert(data@ =~= data_tag());
        }
        let len: usize = bytes.len();

        if len < RIFF_LEN {
            return Err(Error::InvalidFileData(DataError::Truncated { needed: RIFF_LEN, len }));
        }
        if !has_tag(bytes, 0, riff) {
            return Err(Error::InvalidFileData(DataError::RiffMagic));
        }
        if !has_tag(bytes, 8, wave) {
            return Err(Error::InvalidFileData(DataError::WaveMagic));
        }
        let riff_size: u32 = read_u32_le(bytes, 4);
        if riff_size as u64 + 8 != len as u64 {
            return Err(Error::InvalidFileData(DataError::RiffSize { declared: riff_size, len }));
        }
        if len < FMT_END {
            return Err(Error::InvalidFileData(DataError::Truncated { needed: FMT_END, len }));
        }
        if !has_tag(bytes, 12, fmt) {
            return Err(Error::InvalidFileData(DataError::FmtMagic));
        }
        let fmt_size: u32 = read_u32_le(bytes, 16);
        if fmt_size != 16 {
            return Err(Error::InvalidFileData(DataError::FmtSize { declared: fmt_size }));
        }
        let code: u16 = read_u16_le(bytes, 20);
        if code != 1 {
            return Err(Error::InvalidFileData(DataError::AudioFormat { code }));
        }
        let channels: u16 = read_u16_le(bytes, 22);
        if channels != 1 && channels != 2 {
            return Err(Error::InvalidFileData(DataError::ChannelCount { count: channels }));
        }
        let sample_rate: u32 = read_u32_le(bytes, 24);
        let bits: u16 = read_u16_le(bytes, 34);
        if bits != 16 {
            return Err(Error::InvalidFileData(DataError::BitsPerSample { bits }));
        }
        let align: u16 = read_u16_le(bytes, 32);
        if align != channels * 2 {
            return Err(Error::InvalidFileData(DataError::BlockAlign { align, channels }));
        }
        let byte_rate: u32 = read_u32_le(bytes, 28);
        proof {
            lemma_channel_multiples(channels, sample_rate as int);
        }
        let expected_rate: u64 = sample_rate as u64 * (channels as u64 * 2);
        if byte_rate as u64 != expected_rate {
            return Err(
                Error::InvalidFileData(
                    DataError::ByteRate { declared: byte_rate, sample_rate, channels },
                ),
            );
        }
        if len < HEADER_LEN {
            return Err(Error::InvalidFileData(DataError::Truncated { needed: HEADER_LEN, len }));
        }
        if !has_tag(bytes, 36, data) {
            return Err(Error::InvalidFileData(DataError::DataMagic));
        }
        let data_size: u32 = read_u32_le(bytes, 40);
        if data_size as u64 + 44 != len as u64 {
            return Err(Error::InvalidFileData(DataError::DataSize { declared: data_size, len }));
        }
        let count: usize = (len - HEADER_LEN) / 2;
        let ghost all = samples_from(bytes@, HEADER_LEN as int);
        if channels == 1 {
            let mut points: Vec<i16> = Vec::new();
            let mut i: usize = 0;
            while i < count
                invariant
                    i <= count,
                    count == (bytes.len() - HEADER_LEN) / 2,
                    bytes.len() >= HEADER_LEN,
                    all == samples_from(bytes@, HEADER_LEN as int),
                    points@ == all.take(i as int),
                decreases count - i,
            {
                let x: i16 = read_i16_le(bytes, HEADER_LEN + 2 * i);
                points.push(x);
                i = i + 1;
                assert(points@ =~= all.take(i as int));
            }
            assert(points@ =~= all);
            Ok(WavAudio::mono(Samples::new(points).with_sample_rate(sample_rate)))
        } else {
            let mut right: Vec<i16> = Vec::new();
            let mut left: Vec<i16> = Vec::new();
            let mut i: usize = 0;
            assert(right@ =~= evens(all.take(0)));
            assert(left@ =~= odds(all.take(0)));
            while i < count
                invariant
                    i <= count,
                    count == (bytes.len() - HEADER_LEN) / 2,
                    bytes.len() >= HEADER_LEN,
                    all == samples_from(bytes@, HEADER_LEN as int),
                    right@ == evens(all.take(i as int)),
                    left@ == odds(all.take(i as int)),
                decreases count - i,
            {
                let x: i16 = read_i16_le(bytes, HEADER_LEN + 2 * i);
                if i % 2 == 0 {
                    right.push(x);
                } else {
                    left.push(x);
                }
                i = i + 1;
                assert(right@ =~= evens(all.take(i as int)));
                assert(left@ =~= odds(all.take(i as int)));
            }
            assert(all.take(count as int) =~= all);
            Ok(
                WavAudio::stereo(
                    Samples::new(right).with_sample_rate(sample_rate),
                    Samples::new(left).with_sample_rate(sample_rate),
                ),
            )
        }
    }
}

} // verus!
