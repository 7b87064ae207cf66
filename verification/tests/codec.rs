use player::endian::{
    push_i16_le, push_u16_le, push_u32_le, read_i16_le, read_u16_le, read_u32_le,
};
use player::wav::audio::{write_header, WavAudio};
use player::wav::channel::Channel;
use player::wav::error::{DataError, Error};
use player::wav::sample::{Samples, DEFAULT_SAMPLE_RATE, MAX_AMPLITUDE};

/// The canonical stream for interleaved `samples`, put together by hand.
fn canonical(channels: u16, rate: u32, samples: &[i16]) -> Vec<u8> {
    let data_size = samples.len() as u32 * 2;
    let mut out = Vec::new();
    out.extend_from_slice(b"RIFF");
    out.extend_from_slice(&(data_size + 36).to_le_bytes());
    out.extend_from_slice(b"WAVE");
    out.extend_from_slice(b"fmt ");
    out.extend_from_slice(&16u32.to_le_bytes());
    out.extend_from_slice(&1u16.to_le_bytes());
    out.extend_from_slice(&channels.to_le_bytes());
    out.extend_from_slice(&rate.to_le_bytes());
    out.extend_from_slice(&(rate * channels as u32 * 2).to_le_bytes());
    out.extend_from_slice(&(channels * 2).to_le_bytes());
    out.extend_from_slice(&16u16.to_le_bytes());
    out.extend_from_slice(b"data");
    out.extend_from_slice(&data_size.to_le_bytes());
    for s in samples {
        out.extend_from_slice(&s.to_le_bytes());
    }
    out
}

fn samples(points: &[i16], rate: u32) -> Samples {
    Samples::new(points.to_vec()).with_sample_rate(rate)
}

fn refusal(bytes: &[u8]) -> DataError {
    match WavAudio::decode(bytes) {
        Err(Error::InvalidFileData(why)) => why,
        Err(other) => panic!("refused for another reason: {:?}", other),
        Ok(_) => panic!("accepted"),
    }
}

fn encode_refusal(audio: &WavAudio, n: usize) -> DataError {
    match audio.encode(n) {
        Err(Error::InvalidFileData(why)) => why,
        Err(other) => panic!("refused for another reason: {:?}", other),
        Ok(_) => panic!("written"),
    }
}

fn loaded(bytes: &[u8]) -> Channel {
    let mut audio = WavAudio::decode(bytes).unwrap();
    audio.get_channel().clone()
}

#[test]
fn little_endian_writes_agree_with_std() {
    for x in [0u32, 1, 255, 256, 65535, 65536, 0x1234_5678, 88200, 88236, u32::MAX] {
        let mut out = vec![9u8];
        push_u32_le(&mut out, x);
        assert_eq!(out[0], 9);
        assert_eq!(&out[1..], &x.to_le_bytes());
        assert_eq!(read_u32_le(&out, 1), x);
    }
    for x in [0u16, 1, 2, 16, 255, 256, 0xabcd, u16::MAX] {
        let mut out = vec![7u8, 7];
        push_u16_le(&mut out, x);
        assert_eq!(&out[2..], &x.to_le_bytes());
        assert_eq!(read_u16_le(&out, 2), x);
    }
    for x in [0i16, 1, -1, 2, -2, 255, 256, -256, 12345, -12345, i16::MAX, i16::MIN] {
        let mut out = Vec::new();
        push_i16_le(&mut out, x);
        assert_eq!(out, x.to_le_bytes());
        assert_eq!(read_i16_le(&out, 0), x);
    }
}

#[test]
fn little_endian_reads_agree_with_std() {
    let bytes = [0x01u8, 0x80, 0xff, 0x7f, 0x00, 0xfe];
    assert_eq!(read_u16_le(&bytes, 0), 0x8001);
    assert_eq!(read_i16_le(&bytes, 0), i16::from_le_bytes([0x01, 0x80]));
    assert_eq!(read_i16_le(&bytes, 2), i16::MAX);
    assert_eq!(read_i16_le(&bytes, 4), -512);
    assert_eq!(read_u32_le(&bytes, 1), u32::from_le_bytes([0x80, 0xff, 0x7f, 0x00]));
    assert_eq!(read_u32_le(&bytes, 2), 0xfe00_7fff);
}

#[test]
fn samples_default_to_44100_hertz() {
    let s = Samples::new(vec![1, 2, 3]);
    assert_eq!(s.sample_rate(), 44100);
    assert_eq!(DEFAULT_SAMPLE_RATE, 44100);
    assert_eq!(MAX_AMPLITUDE, 32768);
    assert_eq!(s.sample_count(), 3);
}

#[test]
fn samples_keep_the_rate_they_are_given() {
    let s = Samples::new(vec![5, -5]).with_sample_rate(16_777_217);
    assert_eq!(s.sample_rate(), 16_777_217);
    assert_eq!(s.sample(0), Some(5));
    assert_eq!(s.sample(1), Some(-5));
    assert_eq!(s.with_sample_rate(8000).sample_rate(), 8000);
}

#[test]
fn a_sample_past_the_end_is_absent() {
    let s = Samples::new(vec![10, 20, 30]);
    assert_eq!(s.sample(0), Some(10));
    assert_eq!(s.sample(2), Some(30));
    assert_eq!(s.sample(3), None);
    assert_eq!(s.sample(usize::MAX), None);
    assert_eq!(Samples::new(Vec::new()).sample(0), None);
}

#[test]
fn a_channel_counts_its_sources() {
    let mono = Channel::Mono(samples(&[1], 8000));
    let stereo = Channel::Stereo(samples(&[1], 22050), samples(&[2], 22050));
    assert_eq!(mono.channels(), 1);
    assert_eq!(stereo.channels(), 2);
    assert_eq!(mono.sample_rate(), 8000);
    assert_eq!(stereo.sample_rate(), 22050);
}

#[test]
fn a_stereo_channel_runs_at_the_right_sources_rate() {
    let stereo = Channel::Stereo(samples(&[1], 48000), samples(&[2], 8000));
    assert_eq!(stereo.sample_rate(), 48000);
}

#[test]
fn constructors_hold_the_channel_they_are_given() {
    let right = samples(&[1, 2], 8000);
    let left = samples(&[3, 4], 8000);
    let mut mono = WavAudio::mono(right.clone());
    assert_eq!(*mono.get_channel(), Channel::Mono(right.clone()));
    let mut stereo = WavAudio::stereo(right.clone(), left.clone());
    assert_eq!(*stereo.get_channel(), Channel::Stereo(right.clone(), left.clone()));
    let mut wrapped = WavAudio::from_channel(Channel::Stereo(right.clone(), left.clone()));
    assert_eq!(*wrapped.get_channel(), Channel::Stereo(right, left));
}

#[test]
fn the_channel_can_be_replaced_in_place() {
    let mut audio = WavAudio::mono(samples(&[1, 2], 8000));
    *audio.get_channel() = Channel::Mono(samples(&[7, 8, 9], 11025));
    assert_eq!(audio.encode(3).unwrap(), canonical(1, 11025, &[7, 8, 9]));
}

#[test]
fn the_header_is_written_field_by_field() {
    let mut out = vec![0xaa];
    write_header(&mut out, 2, 44100, 8);
    assert_eq!(out[0], 0xaa);
    assert_eq!(&out[1..], &canonical(2, 44100, &[0, 0, 0, 0])[..44]);
    assert_eq!(
        &out[1..],
        &[
            0x52, 0x49, 0x46, 0x46, 44, 0, 0, 0, 0x57, 0x41, 0x56, 0x45, 0x66, 0x6d, 0x74, 0x20,
            16, 0, 0, 0, 1, 0, 2, 0, 0x44, 0xac, 0, 0, 0x10, 0xb1, 0x02, 0, 4, 0, 16, 0, 0x64,
            0x61, 0x74, 0x61, 8, 0, 0, 0
        ]
    );
}

#[test]
fn one_second_of_mono_declares_its_sizes() {
    let audio = WavAudio::mono(Samples::new(vec![0; 44100]));
    let bytes = audio.encode(44100).unwrap();
    assert_eq!(bytes.len(), 44 + 88200);
    assert_eq!(u32::from_le_bytes([bytes[40], bytes[41], bytes[42], bytes[43]]), 88200);
    assert_eq!(u32::from_le_bytes([bytes[4], bytes[5], bytes[6], bytes[7]]), 88236);
    assert_eq!(u32::from_le_bytes([bytes[24], bytes[25], bytes[26], bytes[27]]), 44100);
    assert_eq!(u32::from_le_bytes([bytes[28], bytes[29], bytes[30], bytes[31]]), 88200);
    assert_eq!(u16::from_le_bytes([bytes[22], bytes[23]]), 1);
    assert_eq!(u16::from_le_bytes([bytes[32], bytes[33]]), 2);
}

#[test]
fn one_second_of_stereo_declares_its_sizes() {
    let audio = WavAudio::stereo(Samples::new(vec![1; 44100]), Samples::new(vec![-1; 44100]));
    let bytes = audio.encode(44100).unwrap();
    assert_eq!(bytes.len(), 44 + 176400);
    assert_eq!(u32::from_le_bytes([bytes[40], bytes[41], bytes[42], bytes[43]]), 176400);
    assert_eq!(u32::from_le_bytes([bytes[4], bytes[5], bytes[6], bytes[7]]), 176436);
    assert_eq!(u32::from_le_bytes([bytes[28], bytes[29], bytes[30], bytes[31]]), 176400);
    assert_eq!(u16::from_le_bytes([bytes[22], bytes[23]]), 2);
    assert_eq!(u16::from_le_bytes([bytes[32], bytes[33]]), 4);
}

#[test]
fn mono_is_written_sample_by_sample() {
    let points = [0, 1, -1, 256, -256, i16::MAX, i16::MIN, 12345];
    let audio = WavAudio::mono(samples(&points, 8000));
    assert_eq!(audio.encode(8).unwrap(), canonical(1, 8000, &points));
}

#[test]
fn stereo_is_written_right_before_left() {
    let audio = WavAudio::stereo(samples(&[1, 2, 3], 22050), samples(&[-1, -2, -3], 22050));
    assert_eq!(audio.encode(3).unwrap(), canonical(2, 22050, &[1, -1, 2, -2, 3, -3]));
}

#[test]
fn only_the_frames_asked_for_are_written() {
    let mono = WavAudio::mono(samples(&[5, 6, 7, 8], 8000));
    assert_eq!(mono.encode(2).unwrap(), canonical(1, 8000, &[5, 6]));
    assert_eq!(mono.encode(0).unwrap(), canonical(1, 8000, &[]));
    let stereo = WavAudio::stereo(samples(&[1, 2, 3], 8000), samples(&[4, 5], 8000));
    assert_eq!(stereo.encode(2).unwrap(), canonical(2, 8000, &[1, 4, 2, 5]));
    assert_eq!(stereo.encode(1).unwrap(), canonical(2, 8000, &[1, 4]));
}

#[test]
fn mono_survives_the_round_trip() {
    let points = [0, 1, -1, 32767, -32768, 255, -255, 4096];
    let audio = WavAudio::mono(samples(&points, 48000));
    let bytes = audio.encode(points.len()).unwrap();
    assert_eq!(loaded(&bytes), Channel::Mono(samples(&points, 48000)));
}

#[test]
fn stereo_survives_the_round_trip() {
    let right = [10, 20, 30, -32768];
    let left = [-10, -20, -30, 32767];
    let audio = WavAudio::stereo(samples(&right, 44100), samples(&left, 44100));
    let bytes = audio.encode(4).unwrap();
    let channel = loaded(&bytes);
    assert_eq!(channel.channels(), 2);
    assert_eq!(channel.sample_rate(), 44100);
    assert_eq!(channel, Channel::Stereo(samples(&right, 44100), samples(&left, 44100)));
}

#[test]
fn the_round_trip_keeps_a_prefix_where_one_was_written() {
    let audio = WavAudio::stereo(samples(&[1, 2, 3, 4], 8000), samples(&[5, 6, 7], 8000));
    let bytes = audio.encode(3).unwrap();
    assert_eq!(
        loaded(&bytes),
        Channel::Stereo(samples(&[1, 2, 3], 8000), samples(&[5, 6, 7], 8000))
    );
}

#[test]
fn interleaved_samples_are_told_apart_on_reading() {
    let bytes = canonical(2, 32000, &[100, -100, 200, -200, 300, -300]);
    assert_eq!(
        loaded(&bytes),
        Channel::Stereo(samples(&[100, 200, 300], 32000), samples(&[-100, -200, -300], 32000))
    );
}

#[test]
fn an_odd_stereo_sample_goes_to_the_right() {
    let bytes = canonical(2, 8000, &[1, 2, 3]);
    assert_eq!(loaded(&bytes), Channel::Stereo(samples(&[1, 3], 8000), samples(&[2], 8000)));
}

#[test]
fn an_empty_stream_of_samples_is_valid() {
    assert_eq!(loaded(&canonical(1, 8000, &[])), Channel::Mono(samples(&[], 8000)));
    assert_eq!(
        loaded(&canonical(2, 8000, &[])),
        Channel::Stereo(samples(&[], 8000), samples(&[], 8000))
    );
}

#[test]
fn a_trailing_odd_byte_belongs_to_no_sample() {
    let mut bytes = canonical(1, 8000, &[7, 8]);
    bytes.push(0x55);
    bytes[4..8].copy_from_slice(&41u32.to_le_bytes());
    bytes[40..44].copy_from_slice(&5u32.to_le_bytes());
    assert_eq!(loaded(&bytes), Channel::Mono(samples(&[7, 8], 8000)));
}

#[test]
fn a_read_stream_can_be_written_again() {
    let bytes = canonical(2, 11025, &[1, 2, 3, 4, 5, 6]);
    let audio = WavAudio::decode(&bytes).unwrap();
    assert_eq!(audio.encode(3).unwrap(), bytes);
}

#[test]
fn a_short_stream_is_truncated() {
    assert_eq!(refusal(&[]), DataError::Truncated { needed: 12, len: 0 });
    assert_eq!(refusal(b"RIFF"), DataError::Truncated { needed: 12, len: 4 });
    let whole = canonical(1, 8000, &[]);
    let mut riff_only = whole[..12].to_vec();
    riff_only[4..8].copy_from_slice(&4u32.to_le_bytes());
    assert_eq!(refusal(&riff_only), DataError::Truncated { needed: 36, len: 12 });
    let mut no_data = whole[..36].to_vec();
    no_data[4..8].copy_from_slice(&28u32.to_le_bytes());
    assert_eq!(refusal(&no_data), DataError::Truncated { needed: 44, len: 36 });
    let mut half_data = whole[..40].to_vec();
    half_data[4..8].copy_from_slice(&32u32.to_le_bytes());
    assert_eq!(refusal(&half_data), DataError::Truncated { needed: 44, len: 40 });
}

#[test]
fn wrong_tags_are_refused() {
    let whole = canonical(1, 8000, &[1, 2]);
    let mut bytes = whole.clone();
    bytes[0] = b'r';
    assert_eq!(refusal(&bytes), DataError::RiffMagic);
    let mut bytes = whole.clone();
    bytes[11] = b'F';
    assert_eq!(refusal(&bytes), DataError::WaveMagic);
    let mut bytes = whole.clone();
    bytes[15] = b'_';
    assert_eq!(refusal(&bytes), DataError::FmtMagic);
    let mut bytes = whole.clone();
    bytes[36..40].copy_from_slice(b"LIST");
    assert_eq!(refusal(&bytes), DataError::DataMagic);
}

#[test]
fn a_wrong_riff_size_is_refused() {
    let mut bytes = canonical(1, 8000, &[1, 2]);
    bytes[4..8].copy_from_slice(&41u32.to_le_bytes());
    assert_eq!(refusal(&bytes), DataError::RiffSize { declared: 41, len: 48 });
    bytes[4..8].copy_from_slice(&u32::MAX.to_le_bytes());
    assert_eq!(refusal(&bytes), DataError::RiffSize { declared: u32::MAX, len: 48 });
}

#[test]
fn trailing_bytes_are_refused() {
    let mut bytes = canonical(1, 8000, &[1, 2]);
    bytes.extend_from_slice(&[0, 0]);
    assert_eq!(refusal(&bytes), DataError::RiffSize { declared: 40, len: 50 });
    bytes[4..8].copy_from_slice(&42u32.to_le_bytes());
    assert_eq!(refusal(&bytes), DataError::DataSize { declared: 4, len: 50 });
}

#[test]
fn a_wrong_format_chunk_size_is_refused() {
    let mut bytes = canonical(1, 8000, &[1, 2]);
    bytes[16..20].copy_from_slice(&18u32.to_le_bytes());
    assert_eq!(refusal(&bytes), DataError::FmtSize { declared: 18 });
}

#[test]
fn a_compressed_format_is_refused() {
    let mut bytes = canonical(2, 44100, &[1, 2, 3, 4]);
    bytes[20..22].copy_from_slice(&85u16.to_le_bytes());
    assert_eq!(refusal(&bytes), DataError::AudioFormat { code: 85 });
    bytes[20..22].copy_from_slice(&0u16.to_le_bytes());
    assert_eq!(refusal(&bytes), DataError::AudioFormat { code: 0 });
    bytes[20..22].copy_from_slice(&0xfffeu16.to_le_bytes());
    assert_eq!(refusal(&bytes), DataError::AudioFormat { code: 0xfffe });
}

#[test]
fn other_channel_counts_are_refused() {
    let mut bytes = canonical(1, 8000, &[1, 2]);
    bytes[22..24].copy_from_slice(&0u16.to_le_bytes());
    assert_eq!(refusal(&bytes), DataError::ChannelCount { count: 0 });
    bytes[22..24].copy_from_slice(&3u16.to_le_bytes());
    assert_eq!(refusal(&bytes), DataError::ChannelCount { count: 3 });
}

#[test]
fn other_sample_widths_are_refused() {
    let mut bytes = canonical(1, 8000, &[1, 2]);
    bytes[34..36].copy_from_slice(&8u16.to_le_bytes());
    assert_eq!(refusal(&bytes), DataError::BitsPerSample { bits: 8 });
    bytes[34..36].copy_from_slice(&24u16.to_le_bytes());
    assert_eq!(refusal(&bytes), DataError::BitsPerSample { bits: 24 });
}

#[test]
fn a_wrong_block_alignment_is_refused() {
    let mut bytes = canonical(2, 8000, &[1, 2]);
    bytes[32..34].copy_from_slice(&2u16.to_le_bytes());
    assert_eq!(refusal(&bytes), DataError::BlockAlign { align: 2, channels: 2 });
}

#[test]
fn a_wrong_byte_rate_is_refused() {
    let mut bytes = canonical(2, 8000, &[1, 2]);
    bytes[28..32].copy_from_slice(&16000u32.to_le_bytes());
    assert_eq!(
        refusal(&bytes),
        DataError::ByteRate { declared: 16000, sample_rate: 8000, channels: 2 }
    );
}

#[test]
fn a_byte_rate_that_cannot_be_declared_is_refused() {
    let mut bytes = canonical(1, 8000, &[1, 2]);
    bytes[24..28].copy_from_slice(&0x8000_0001u32.to_le_bytes());
    bytes[28..32].copy_from_slice(&2u32.to_le_bytes());
    assert_eq!(
        refusal(&bytes),
        DataError::ByteRate { declared: 2, sample_rate: 0x8000_0001, channels: 1 }
    );
}

#[test]
fn a_corrupted_data_size_is_refused() {
    let mut bytes = canonical(1, 44100, &[1, 2, 3, 4]);
    bytes[40..44].copy_from_slice(&6u32.to_le_bytes());
    assert_eq!(refusal(&bytes), DataError::DataSize { declared: 6, len: 52 });
    bytes[40..44].copy_from_slice(&10u32.to_le_bytes());
    assert_eq!(refusal(&bytes), DataError::DataSize { declared: 10, len: 52 });
    bytes[40..44].copy_from_slice(&u32::MAX.to_le_bytes());
    assert_eq!(refusal(&bytes), DataError::DataSize { declared: u32::MAX, len: 52 });
}

#[test]
fn the_first_failed_validation_is_named() {
    let mut bytes = canonical(1, 8000, &[1, 2]);
    bytes[20..22].copy_from_slice(&3u16.to_le_bytes());
    bytes[34..36].copy_from_slice(&8u16.to_le_bytes());
    bytes[40..44].copy_from_slice(&99u32.to_le_bytes());
    assert_eq!(refusal(&bytes), DataError::AudioFormat { code: 3 });
    bytes[0] = 0;
    assert_eq!(refusal(&bytes), DataError::RiffMagic);
}

#[test]
fn a_missing_sample_stops_the_write() {
    let mono = WavAudio::mono(samples(&[1, 2, 3], 8000));
    assert_eq!(encode_refusal(&mono, 4), DataError::MissingSample { index: 3 });
    let stereo = WavAudio::stereo(samples(&[1, 2, 3], 8000), samples(&[4], 8000));
    assert_eq!(encode_refusal(&stereo, 2), DataError::MissingSample { index: 1 });
    let stereo = WavAudio::stereo(samples(&[], 8000), samples(&[4], 8000));
    assert_eq!(encode_refusal(&stereo, 1), DataError::MissingSample { index: 0 });
}

#[test]
fn too_many_frames_for_the_header_stop_the_write() {
    let mono = WavAudio::mono(samples(&[1], 8000));
    assert_eq!(encode_refusal(&mono, 2_147_483_630), DataError::TooLong { samples: 2_147_483_630 });
    assert_eq!(encode_refusal(&mono, 2_147_483_629), DataError::MissingSample { index: 1 });
    let stereo = WavAudio::stereo(samples(&[1], 8000), samples(&[1], 8000));
    assert_eq!(
        encode_refusal(&stereo, 1_073_741_815),
        DataError::TooLong { samples: 1_073_741_815 }
    );
    assert_eq!(encode_refusal(&stereo, 1_073_741_814), DataError::MissingSample { index: 1 });
}

#[test]
fn a_rate_too_high_for_the_header_stops_the_write() {
    let mono = WavAudio::mono(samples(&[1], 0x8000_0000));
    assert_eq!(encode_refusal(&mono, 1), DataError::RateTooHigh { sample_rate: 0x8000_0000 });
    let mono = WavAudio::mono(samples(&[1], 0x7fff_ffff));
    assert!(mono.encode(1).is_ok());
    let stereo = WavAudio::stereo(samples(&[1], 0x4000_0000), samples(&[1], 0x4000_0000));
    assert_eq!(encode_refusal(&stereo, 1), DataError::RateTooHigh { sample_rate: 0x4000_0000 });
    let stereo = WavAudio::stereo(samples(&[1], 0x3fff_ffff), samples(&[1], 0x3fff_ffff));
    assert_eq!(loaded(&stereo.encode(1).unwrap()).sample_rate(), 0x3fff_ffff);
}

#[test]
fn a_player_that_ends_well_is_no_error() {
    assert!(WavAudio::play_outcome(Some(0)).is_ok());
    assert!(WavAudio::play_outcome(None).is_ok());
}

#[test]
fn a_player_that_fails_says_how() {
    let told = |code: i32| match WavAudio::play_outcome(Some(code)) {
        Err(Error::ExecutionError(c, complaint)) => (c, complaint),
        other => panic!("{:?}", other),
    };
    assert_eq!(told(1), (1, "Error occured while running 'play'".to_string()));
    assert_eq!(told(2), (2, "Permission denied".to_string()));
    assert_eq!(told(3), (3, "Permission denied".to_string()));
    assert_eq!(told(126), (126, "Permission denied".to_string()));
    assert_eq!(
        told(127),
        (127, "'play' is not installed. Install sox to play .wav files".to_string())
    );
    assert_eq!(told(4), (4, "Unkown Error".to_string()));
    assert_eq!(told(-1), (-1, "Unkown Error".to_string()));
    assert_eq!(told(255), (255, "Unkown Error".to_string()));
}

#[test]
fn a_stream_failure_becomes_an_error_unchanged() {
    let failure = std::io::Error::new(std::io::ErrorKind::UnexpectedEof, "cut short");
    match Error::from(failure) {
        Error::IoError(inner) => {
            assert_eq!(inner.kind(), std::io::ErrorKind::UnexpectedEof);
            assert_eq!(inner.to_string(), "cut short");
        },
        other => panic!("{:?}", other),
    }
}

#[test]
fn a_failed_player_is_told_with_its_code() {
    let told = |code: i32| WavAudio::play_outcome(Some(code)).unwrap_err().message();
    assert_eq!(told(1), "Error occured while running 'play' (Error code 1)");
    assert_eq!(told(126), "Permission denied (Error code 126)");
    assert_eq!(
        told(127),
        "'play' is not installed. Install sox to play .wav files (Error code 127)"
    );
    assert_eq!(told(-15), "Unkown Error (Error code -15)");
    assert_eq!(told(i32::MIN), "Unkown Error (Error code -2147483648)");
    assert_eq!(told(i32::MAX), "Unkown Error (Error code 2147483647)");
}

#[test]
fn invalid_data_is_told_by_its_kind() {
    let told = |why: DataError| Error::InvalidFileData(why).message();
    assert_eq!(
        told(DataError::AudioFormat { code: 85 }),
        "InvalidFileData: the audio format is not uncompressed PCM"
    );
    assert_eq!(
        told(DataError::DataSize { declared: 6, len: 52 }),
        "InvalidFileData: the data size does not match the length of the stream"
    );
    assert_eq!(DataError::RiffMagic.text(), "the stream does not start with RIFF");
    assert_eq!(
        DataError::Truncated { needed: 12, len: 3 }.text(),
        "the stream ends within a chunk"
    );
}

#[test]
fn every_kind_of_invalid_data_has_its_own_text() {
    let kinds = [
        DataError::Truncated { needed: 12, len: 0 },
        DataError::RiffMagic,
        DataError::WaveMagic,
        DataError::RiffSize { declared: 0, len: 0 },
        DataError::FmtMagic,
        DataError::FmtSize { declared: 0 },
        DataError::AudioFormat { code: 0 },
        DataError::ChannelCount { count: 0 },
        DataError::BitsPerSample { bits: 0 },
        DataError::BlockAlign { align: 0, channels: 1 },
        DataError::ByteRate { declared: 0, sample_rate: 1, channels: 1 },
        DataError::DataMagic,
        DataError::DataSize { declared: 0, len: 0 },
        DataError::MissingSample { index: 0 },
        DataError::TooLong { samples: 0 },
        DataError::RateTooHigh { sample_rate: 0 },
        DataError::FrameChannels { channels: 0 },
        DataError::FrameLength { len: 1 },
    ];
    for (i, a) in kinds.iter().enumerate() {
        assert!(!a.text().is_empty());
        for b in &kinds[i + 1..] {
            assert_ne!(a.text(), b.text());
        }
    }
}

#[test]
fn other_errors_and_stream_failures_speak_for_themselves() {
    assert_eq!(Error::Other("no such thing".to_string()).message(), "no such thing");
    let failure = std::io::Error::new(std::io::ErrorKind::NotFound, "speaker-test not found");
    assert_eq!(Error::from(failure).message(), "speaker-test not found");
}
