use audio_multiplexer::devices::{
    device_report, list_render_devices, mix_format, Endpoint, MixFormat, SampleType,
    StreamSampleKind, WaveFormat,
};

fn wave(format_tag: u16, subtype: u32) -> WaveFormat {
    WaveFormat { format_tag, subtype, sample_rate: 44100, channels: 2, bits_per_sample: 32 }
}

#[test]
fn format_tags_select_the_sample_type() {
    assert_eq!(mix_format(wave(1, 3)).sample_type, SampleType::Pcm);
    assert_eq!(mix_format(wave(3, 1)).sample_type, SampleType::Float);
    assert_eq!(mix_format(wave(0xFFFE, 1)).sample_type, SampleType::Pcm);
    assert_eq!(mix_format(wave(0xFFFE, 3)).sample_type, SampleType::Float);
    assert_eq!(mix_format(wave(0xFFFE, 2)).sample_type, SampleType::Other(0xFFFE));
    assert_eq!(mix_format(wave(0x55, 3)).sample_type, SampleType::Other(0x55));
    assert_eq!(
        mix_format(wave(3, 0)),
        MixFormat {
            sample_rate: 44100,
            channels: 2,
            bits_per_sample: 32,
            sample_type: SampleType::Float,
        }
    );
}

#[test]
fn formats_as_text() {
    assert_eq!(mix_format(wave(3, 0)).to_text(), "44100 Hz, 2 ch, 32-bit float");
    assert_eq!(mix_format(wave(1, 0)).to_text(), "44100 Hz, 2 ch, 32-bit int");
    assert_eq!(
        mix_format(wave(0xA1, 0)).to_text(),
        "44100 Hz, 2 ch, 32-bit unknown (tag 0x00A1)"
    );
}

#[test]
fn only_two_encodings_can_be_streamed() {
    let format = |bits_per_sample, sample_type| MixFormat {
        sample_rate: 48000,
        channels: 2,
        bits_per_sample,
        sample_type,
    };
    assert_eq!(format(32, SampleType::Float).stream_kind(), Some(StreamSampleKind::Float32));
    assert_eq!(format(16, SampleType::Pcm).stream_kind(), Some(StreamSampleKind::Pcm16));
    assert_eq!(format(64, SampleType::Float).stream_kind(), None);
    assert_eq!(format(32, SampleType::Pcm).stream_kind(), None);
    assert_eq!(format(16, SampleType::Other(7)).stream_kind(), None);
    assert_eq!(
        format(32, SampleType::Float).require_stream_kind("device"),
        Ok(StreamSampleKind::Float32)
    );
    assert_eq!(
        format(16, SampleType::Other(7)).require_stream_kind("device"),
        Err("unsupported device mix format (48000 Hz, 2 ch, 16-bit unknown (tag 0x0007)); \
             only 32-bit float and 16-bit PCM are supported"
            .to_string())
    );
}

fn endpoint(id: &str, name: &str) -> Endpoint {
    Endpoint { id: id.to_string(), name: name.to_string(), wave_format: wave(3, 0) }
}

#[test]
fn the_default_endpoint_is_marked() {
    let endpoints = vec![endpoint("a", "Speakers"), endpoint("b", "Headset")];
    let devices = list_render_devices(Some("b".to_string()), endpoints);
    assert_eq!(devices.len(), 2);
    assert_eq!((devices[0].id.as_str(), devices[0].is_default), ("a", false));
    assert_eq!((devices[1].name.as_str(), devices[1].is_default), ("Headset", true));
    let devices = list_render_devices(None, vec![endpoint("a", "Speakers")]);
    assert!(!devices[0].is_default);
}

#[test]
fn report_lists_every_device() {
    let devices = list_render_devices(
        Some("b".to_string()),
        vec![endpoint("a", "Speakers"), endpoint("b", "Headset")],
    );
    assert_eq!(
        device_report(&devices),
        "Active render devices:\n\n\
         [0] Speakers\n    id:         a\n    mix format: 44100 Hz, 2 ch, 32-bit float\n\n\
         [1] Headset (default)\n    id:         b\n    mix format: 44100 Hz, 2 ch, 32-bit float\n\n"
    );
    assert_eq!(device_report(&vec![]), "No active render devices found.\n");
}
