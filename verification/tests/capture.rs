use audio_multiplexer::capture::{
    convert_to_stereo, pcm_to_bits, recording_banner, recording_goes_on, wav_params,
    LoopbackCapture, FLAG_DATA_DISCONTINUITY, FLAG_SILENT,
};
use audio_multiplexer::devices::{MixFormat, SampleType, StreamSampleKind};

fn format(channels: u16, bits: u16, sample_type: SampleType) -> MixFormat {
    MixFormat { sample_rate: 48000, channels, bits_per_sample: bits, sample_type }
}

#[test]
fn pcm_samples_scale_exactly() {
    for sample in i16::MIN..=i16::MAX {
        assert_eq!(pcm_to_bits(sample), (sample as f32 / 32768.0).to_bits());
    }
}

#[test]
fn float_packets_keep_their_samples() {
    let mut data = Vec::new();
    for value in [0.5f32, -0.25, 1.0, 3.0, f32::NAN, 0.0] {
        data.extend_from_slice(&value.to_le_bytes());
    }
    let out = convert_to_stereo(&data, 3, 2, StreamSampleKind::Float32, false);
    let expected: Vec<u32> =
        [0.5f32, -0.25, 1.0, 3.0, f32::NAN, 0.0].iter().map(|v| v.to_bits()).collect();
    assert_eq!(out, expected);
}

#[test]
fn mono_is_duplicated() {
    let mut data = Vec::new();
    for value in [100i16, -200] {
        data.extend_from_slice(&value.to_le_bytes());
    }
    let out = convert_to_stereo(&data, 2, 1, StreamSampleKind::Pcm16, false);
    let a = (100.0f32 / 32768.0).to_bits();
    let b = (-200.0f32 / 32768.0).to_bits();
    assert_eq!(out, vec![a, a, b, b]);
}

#[test]
fn only_the_first_two_channels_count() {
    let mut data = Vec::new();
    for value in [1.0f32, 2.0, 9.0, 3.0, 4.0, 9.0] {
        data.extend_from_slice(&value.to_le_bytes());
    }
    let out = convert_to_stereo(&data, 2, 3, StreamSampleKind::Float32, false);
    let expected: Vec<u32> = [1.0f32, 2.0, 3.0, 4.0].iter().map(|v| v.to_bits()).collect();
    assert_eq!(out, expected);
}

#[test]
fn silent_packets_are_zero() {
    let out = convert_to_stereo(&[], 3, 2, StreamSampleKind::Float32, true);
    assert_eq!(out, vec![0u32; 6]);
}

#[test]
fn packets_are_counted() {
    let mut capture = LoopbackCapture::open(format(2, 16, SampleType::Pcm)).unwrap();
    assert_eq!(capture.format().channels, 2);
    assert!(capture.recording_result().is_err());
    assert_eq!(capture.discontinuity_note(), None);
    let out = capture.drain_packet(&[0, 64, 0, 128], 1, FLAG_DATA_DISCONTINUITY);
    assert_eq!(out, vec![0.5f32.to_bits(), (-1.0f32).to_bits()]);
    let out = capture.drain_packet(&[], 2, FLAG_SILENT);
    assert_eq!(out, vec![0; 4]);
    assert_eq!(capture.frames_captured, 3);
    assert_eq!(capture.discontinuities, 1);
    assert_eq!(capture.recording_result(), Ok(()));
    assert_eq!(
        capture.discontinuity_note(),
        Some("note: 1 capture discontinuities occurred".to_string())
    );
}

#[test]
fn unsupported_source_formats_are_refused() {
    match LoopbackCapture::open(format(2, 24, SampleType::Pcm)) {
        Ok(_) => panic!("24-bit PCM is not supported"),
        Err(message) => assert_eq!(
            message,
            "unsupported source mix format (48000 Hz, 2 ch, 24-bit int); \
             only 32-bit float and 16-bit PCM are supported"
        ),
    }
}

#[test]
fn empty_recordings_are_an_error() {
    let capture = LoopbackCapture::open(format(2, 32, SampleType::Float)).unwrap();
    assert_eq!(
        capture.recording_result(),
        Err("no audio was captured; loopback only delivers data while something is playing on the source endpoint")
    );
}

#[test]
fn recordings_are_stereo_float() {
    let source = format(6, 16, SampleType::Pcm);
    let params = wav_params(&source);
    assert_eq!((params.channels, params.sample_rate, params.bits_per_sample), (2, 48000, 32));
    assert_eq!(params.sample_type, SampleType::Float);
    assert_eq!(
        recording_banner(10, &source, "out.wav"),
        "Recording 10 s of loopback audio at 48000 Hz, 6 ch, 16-bit int into out.wav ..."
    );
}

#[test]
fn a_recording_ends_after_its_seconds() {
    assert!(recording_goes_on(0, 1));
    assert!(recording_goes_on(9_999_999_999, 10));
    assert!(!recording_goes_on(10_000_000_000, 10));
    assert!(!recording_goes_on(0, 0));
    assert!(recording_goes_on(u64::MAX as u128, u64::MAX));
}
