//! Decoded MP3 audio as one mono track of 16-bit samples.

use crate::wav::error::{DataError, Error};
use minimp3::Decoder;
use vstd::arithmetic::div_mod::lemma_fundamental_div_mod;
use vstd::arithmetic::mul::lemma_mul_is_commutative;
use vstd::arithmetic::power2::{
    lemma2_to64, lemma_pow2_pos, lemma_pow2_strictly_increases, lemma_pow2_unfold, pow2,
};
use vstd::prelude::*;

verus! {

/// `minimp3::Decoder`, a decoder that reads MP3 data from `R` and hands
/// out frames. Nothing of its inside is known here.
#[verifier::external_type_specification]
#[verifier::external_body]
#[verifier::reject_recursive_types(R)]
pub struct ExDecoder<R>(Decoder<R>);

/// One decoded frame: its samples, interleaved where it has two channels,
/// its sample rate in hertz and its number of channels.
pub struct Frame {
    pub data: Vec<i16>,
    pub sample_rate: i32,
    pub channels: usize,
}

/// What a [`Frame`] stands for.
pub ghost struct FrameView {
    pub data: Seq<i16>,
    pub sample_rate: i32,
    pub channels: usize,
}

impl View for Frame {
    type V = FrameView;

    open spec fn view(&self) -> FrameView {
        FrameView { data: self.data@, sample_rate: self.sample_rate, channels: self.channels }
    }
}

/// The frames that a decoder over a byte slice hands out, call by call,
/// before it first halts.
pub uninterp spec fn pending(decoder: Decoder<&[u8]>) -> Seq<FrameView>;

/// `minimp3::Decoder::new` over a byte slice. Nothing is decoded yet, and
/// nothing is claimed of what the decoder holds.
#[verifier::external_body]
fn decoder_over(bytes: &[u8]) -> (decoder: Decoder<&[u8]>) {
    Decoder::new(bytes)
}

/// Why a decoder handed out no frame.
#[derive(Copy, Clone, Debug, PartialEq, Eq, Structural)]
pub enum Halt {
    /// The input is used up.
    Eof,
    /// Reading the input failed.
    Io,
    /// The buffered input holds no complete frame.
    InsufficientData,
    /// Input that is no frame was skipped.
    SkippedData,
}

/// `minimp3::Decoder::next_frame` over a byte slice. A call hands out the
/// next pending frame, with the samples, rate and channel count the decoder
/// gave it, and leaves the rest pending; or it halts, when none is pending.
/// Every frame uses up some of the input, so only finitely many are pending.
/// Reading from a slice cannot fail, and the decoder retries by itself after
/// skipped or insufficient data, so the only halt it passes on is the end of
/// its input.
#[verifier::external_body]
fn next_frame(decoder: &mut Decoder<&[u8]>) -> (frame: Result<Frame, Halt>)
    ensures
        frame is Ok <==> pending(*old(decoder)).len() > 0,
        frame matches Ok(f) ==> f@ == pending(*old(decoder))[0] && pending(*final(decoder))
            == pending(*old(decoder)).skip(1),
        frame matches Err(halt) ==> halt == Halt::Eof,
{
    match decoder.next_frame() {
        Ok(f) => Ok(Frame { data: f.data, sample_rate: f.sample_rate, channels: f.channels }),
        Err(minimp3::Error::Eof) => Err(Halt::Eof),
        Err(minimp3::Error::Io(_)) => Err(Halt::Io),
        Err(minimp3::Error::InsufficientData) => Err(Halt::InsufficientData),
        Err(minimp3::Error::SkippedData) => Err(Halt::SkippedData),
    }
}

/// The mean of two samples, rounded toward zero.
pub open spec fn mean(a: i16, b: i16) -> i16 {
    if a + b >= 0 {
        ((a + b) / 2) as i16
    } else {
        (-((-(a + b)) / 2)) as i16
    }
}

/// A stereo frame mixed down: each pair of samples replaced by its mean.
pub open spec fn downmix(data: Seq<i16>) -> Seq<i16> {
    Seq::new(data.len() / 2, |i: int| mean(data[2 * i], data[2 * i + 1]))
}

/// Why a frame cannot join a mono track, if it cannot.
pub open spec fn frame_error(frame: FrameView) -> Option<DataError> {
    if frame.channels == 2 {
        if frame.data.len() % 2 == 0 {
            None
        } else {
            Some(DataError::FrameLength { len: frame.data.len() as usize })
        }
    } else if frame.channels == 1 {
        None
    } else {
        Some(DataError::FrameChannels { channels: frame.channels })
    }
}

/// The samples that a frame adds to a mono track.
pub open spec fn frame_mono(frame: FrameView) -> Seq<i16> {
    if frame.channels == 2 {
        downmix(frame.data)
    } else {
        frame.data
    }
}

/// The sample rate of a frame as an unsigned number: the same 32 bits.
pub open spec fn rate_bits(sample_rate: i32) -> u32 {
    if sample_rate < 0 {
        (sample_rate + 0x1_0000_0000) as u32
    } else {
        sample_rate as u32
    }
}

/// The first frame error among `frames`, if there is one.
pub open spec fn track_error(frames: Seq<FrameView>) -> Option<DataError>
    decreases frames.len(),
{
    if frames.len() == 0 {
        None
    } else {
        match track_error(frames.drop_last()) {
            Some(why) => Some(why),
            None => frame_error(frames.last()),
        }
    }
}

/// The mono track that `frames` make up, one after the other.
pub open spec fn track_samples(frames: Seq<FrameView>) -> Seq<i16>
    decreases frames.len(),
{
    if frames.len() == 0 {
        Seq::empty()
    } else {
        track_samples(frames.drop_last()) + frame_mono(frames.last())
    }
}

/// The sample rate of a track: that of its last frame, or zero where it has
/// no frame.
pub open spec fn track_rate(frames: Seq<FrameView>) -> u32 {
    if frames.len() == 0 {
        0
    } else {
        rate_bits(frames.last().sample_rate)
    }
}

/// The mean of two samples, rounded toward zero.
pub fn mean_of(a: i16, b: i16) -> (m: i16)
    ensures
        m == mean(a, b),
{
    let sum: i32 = a as i32 + b as i32;
    (sum / 2) as i16
}

/// Appends the samples of `frame` to `track`: as they are where the frame is
/// mono, each pair mixed down to its mean where it is stereo. Any other frame
/// is refused and leaves the track as it was.
pub fn append_frame(track: &mut Vec<i16>, frame: &Frame) -> (r: Result<(), Error>)
    ensures
        match r {
            Ok(()) => frame_error(frame@) is None && final(track)@ == old(track)@ + frame_mono(
                frame@,
            ),
            Err(e) => frame_error(frame@) matches Some(why) && e == Error::InvalidFileData(why)
                && final(track)@ == old(track)@,
        },
{
    let len: usize = frame.data.len();
    if frame.channels == 2 {
        if len % 2 != 0 {
            return Err(Error::InvalidFileData(DataError::FrameLength { len }));
        }
        let pairs: usize = len / 2;
        let mut i: usize = 0;
        while i < pairs
            invariant
                i <= pairs,
                pairs * 2 == frame.data.len(),
                track@ == old(track)@ + downmix(frame.data@).take(i as int),
            decreases pairs - i,
        {
            let m: i16 = mean_of(frame.data[2 * i], frame.data[2 * i + 1]);
            track.push(m);
            i = i + 1;
            assert(track@ =~= old(track)@ + downmix(frame.data@).take(i as int));
        }
        assert(downmix(frame.data@).take(pairs as int) =~= downmix(frame.data@));
        Ok(())
    } else if frame.channels == 1 {
        let mut i: usize = 0;
        while i < len
            invariant
                i <= len,
                len == frame.data.len(),
                track@ == old(track)@ + frame.data@.take(i as int),
            decreases len - i,
        {
            track.push(frame.data[i]);
            i = i + 1;
            assert(track@ =~= old(track)@ + frame.data@.take(i as int));
        }
        assert(frame.data@.take(len as int) =~= frame.data@);
        Ok(())
    } else {
        Err(Error::InvalidFileData(DataError::FrameChannels { channels: frame.channels }))
    }
}

/// The sample rate of a frame as an unsigned number: the same 32 bits.
pub fn rate_of(sample_rate: i32) -> (rate: u32)
    ensures
        rate == rate_bits(sample_rate),
{
    if sample_rate < 0 {
        (sample_rate as i64 + 0x1_0000_0000) as u32
    } else {
        sample_rate as u32
    }
}

/// Whether `r` is what `frames` come to as one mono track: their samples
/// and sample rate, or the first frame error among them.
pub open spec fn is_track_of(frames: Seq<FrameView>, r: Result<(Vec<i16>, u32), Error>) -> bool {
    match r {
        Ok((samples, rate)) => {
            &&& track_error(frames) is None
            &&& samples@ == track_samples(frames)
            &&& rate == track_rate(frames)
        },
        Err(e) => track_error(frames) matches Some(why) && e == Error::InvalidFileData(why),
    }
}

/// Decodes the frames that `decoder` hands out before it first halts into
/// one mono track, and gives its samples and its sample rate. Fails on the
/// first frame that cannot join the track.
pub fn drain_to_mono(decoder: &mut Decoder<&[u8]>) -> (r: Result<(Vec<i16>, u32), Error>)
    ensures
        is_track_of(pending(*old(decoder)), r),
{
    let ghost all = pending(*decoder);
    let mut samples: Vec<i16> = Vec::new();
    let mut rate: u32 = 0;
    let ghost mut done: int = 0;
    proof {
        assert(all.take(0) =~= Seq::<FrameView>::empty());
        assert(all.skip(0) =~= all);
    }
    loop
        invariant
            0 <= done <= all.len(),
            all == pending(*old(decoder)),
            pending(*decoder) == all.skip(done),
            track_error(all.take(done)) is None,
            samples@ == track_samples(all.take(done)),
            rate == track_rate(all.take(done)),
        decreases all.len() - done,
    {
        match next_frame(decoder) {
            Ok(frame) => {
                proof {
                    assert(all.take(done + 1).drop_last() =~= all.take(done));
                    assert(all.take(done + 1).last() == all[done]);
                    assert(all.skip(done).skip(1) =~= all.skip(done + 1));
                }
                match append_frame(&mut samples, &frame) {
                    Ok(()) => {},
                    Err(e) => {
                        proof {
                            lemma_track_error_stays(all, done + 1);
                        }
                        return Err(e);
                    },
                }
                rate = rate_of(frame.sample_rate);
                proof {
                    done = done + 1;
                }
            },
            Err(halt) => {
                proof {
                    assert(all.take(done) =~= all);
                }
                return match halt {
                    Halt::Eof => Ok((samples, rate)),
                    _ => Err(
                        Error::Other("the decoder halted before the end of its input".to_owned()),
                    ),
                };
            },
        }
    }
}

/// Decodes MP3 data into one mono track, and gives its samples and its
/// sample rate. What comes back is the track of the frames that the decoder
/// found in `bytes`, whichever they were.
pub fn read_mp3_to_mono(bytes: &[u8]) -> (r: Result<(Vec<i16>, u32), Error>)
    ensures
        exists|frames: Seq<FrameView>| #[trigger] is_track_of(frames, r),
{
    let mut decoder = decoder_over(bytes);
    let ghost frames = pending(decoder);
    let r = drain_to_mono(&mut decoder);
    assert(is_track_of(frames, r));
    r
}

/// How a track is cut up for spectral analysis: every `stride`-th sample is
/// kept, and what is kept is cut into `count` batches of `batch_size`.
#[derive(Copy, Clone, Debug, PartialEq, Eq, Structural)]
pub struct Batches {
    pub stride: usize,
    pub batch_size: usize,
    /// How many samples are kept.
    pub kept: usize,
    /// How many whole batches the kept samples fill.
    pub count: usize,
}

/// The distance between kept samples for batches of two to the power
/// `exponent`: one up to an exponent of 13, doubling with each step above.
pub open spec fn stride_of(exponent: u32) -> nat {
    if exponent > 13 {
        pow2((exponent - 13) as nat)
    } else {
        1
    }
}

/// How many of `samples` samples are kept at a distance of `stride`: the
/// first, and then every `stride`-th.
pub open spec fn kept_of(samples: nat, stride: nat) -> nat {
    if samples % stride == 0 {
        samples / stride
    } else {
        samples / stride + 1
    }
}

/// Two to the power `exponent`, where that fits.
pub fn power_of_two(exponent: u32) -> (power: Option<usize>)
    ensures
        match power {
            Some(p) => p == pow2(exponent as nat),
            None => pow2(exponent as nat) > usize::MAX,
        },
{
    let mut p: usize = 1;
    let mut i: u32 = 0;
    proof {
        lemma2_to64();
    }
    while i < exponent
        invariant
            i <= exponent,
            p == pow2(i as nat),
        decreases exponent - i,
    {
        proof {
            lemma_pow2_unfold(i as nat + 1);
        }
        if p > usize::MAX / 2 {
            proof {
                if i + 1 < exponent {
                    lemma_pow2_strictly_increases(i as nat + 1, exponent as nat);
                }
            }
            return None;
        }
        p = p * 2;
        i = i + 1;
    }
    Some(p)
}

/// Plans the analysis of a track of `samples` samples in batches of two to
/// the power `exponent`. There is no plan where a batch of that size cannot
/// exist.
pub fn plan_batches(samples: usize, exponent: u32) -> (plan: Option<Batches>)
    ensures
        plan is Some <==> pow2(exponent as nat) <= usize::MAX,
        plan matches Some(b) ==> {
            &&& b.stride == stride_of(exponent)
            &&& b.batch_size == pow2(exponent as nat)
            &&& b.kept == kept_of(samples as nat, b.stride as nat)
            &&& b.count == b.kept / b.batch_size
            &&& b.count * b.batch_size <= b.kept
        },
{
    let batch_size: usize = match power_of_two(exponent) {
        Some(p) => p,
        None => {
            return None;
        },
    };
    let stride: usize = if exponent > 13 {
        proof {
            lemma_pow2_strictly_increases((exponent - 13) as nat, exponent as nat);
        }
        match power_of_two(exponent - 13) {
            Some(p) => p,
            None => {
                return None;
            },
        }
    } else {
        1
    };
    proof {
        lemma_pow2_pos(exponent as nat);
        if exponent > 13 {
            lemma_pow2_pos((exponent - 13) as nat);
        }
        lemma_fundamental_div_mod(samples as int, stride as int);
        lemma_mul_is_commutative(stride as int, samples as int / stride as int);
        assert(stride >= 1);
        assert((samples as int / stride as int) * stride <= samples);
        assert(samples as int / stride as int <= samples) by (nonlinear_arith)
            requires
                (samples as int / stride as int) * stride <= samples,
                stride >= 1,
                samples as int / stride as int >= 0,
        ;
    }
    let whole: usize = samples / stride;
    let kept: usize = if samples % stride == 0 {
        whole
    } else {
        assert(whole < samples) by (nonlinear_arith)
            requires
                whole * stride <= samples,
                samples % stride != 0,
                samples == stride * whole + samples % stride,
                stride >= 1,
                whole >= 0,
                samples % stride >= 0,
        ;
        whole + 1
    };
    let count: usize = kept / batch_size;
    proof {
        lemma_fundamental_div_mod(kept as int, batch_size as int);
        lemma_mul_is_commutative(batch_size as int, kept as int / batch_size as int);
    }
    Some(Batches { stride, batch_size, kept, count })
}

/// A frame error among the first `n` frames is the first error of the whole.
proof fn lemma_track_error_stays(frames: Seq<FrameView>, n: int)
    requires
        0 <= n <= frames.len(),
        track_error(frames.take(n)) is Some,
    ensures
        track_error(frames) == track_error(frames.take(n)),
    decreases frames.len() - n,
{
    if n < frames.len() {
        assert(frames.take(n + 1).drop_last() =~= frames.take(n));
        lemma_track_error_stays(frames, n + 1);
    } else {
        assert(frames.take(n) =~= frames);
    }
}

} // verus!
