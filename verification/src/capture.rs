//! Loopback capture: conversion of capture packets to the canonical stream
//! (interleaved stereo `f32` bit patterns at the source endpoint's mix rate)
//! and the bookkeeping of a capture and of a recording.
//!
//! The audio engine only produces loopback packets while at least one stream
//! is playing on the endpoint; during silence no packets arrive and the
//! canonical timeline simply pauses. Downstream consumers handle such gaps
//! (the render side rebuffers).
use crate::devices::{MixFormat, StreamSampleKind};
use crate::text::push_decimal;
use vstd::prelude::*;

verus! {

/// Packet flag: the stream position jumped.
pub const FLAG_DATA_DISCONTINUITY: u32 = 1;

/// Packet flag: the packet is silence, whatever its data says.
pub const FLAG_SILENT: u32 = 2;

/// Exponent field of the `f32` whose value is `magnitude / 32768`, and the
/// factor that brings `magnitude` to its 24-bit significand.
pub open spec fn pcm_scale(magnitude: int) -> (int, int) {
    if magnitude >= 0x8000 {
        (127, 0x100)
    } else if magnitude >= 0x4000 {
        (126, 0x200)
    } else if magnitude >= 0x2000 {
        (125, 0x400)
    } else if magnitude >= 0x1000 {
        (124, 0x800)
    } else if magnitude >= 0x800 {
        (123, 0x1000)
    } else if magnitude >= 0x400 {
        (122, 0x2000)
    } else if magnitude >= 0x200 {
        (121, 0x4000)
    } else if magnitude >= 0x100 {
        (120, 0x8000)
    } else if magnitude >= 0x80 {
        (119, 0x1_0000)
    } else if magnitude >= 0x40 {
        (118, 0x2_0000)
    } else if magnitude >= 0x20 {
        (117, 0x4_0000)
    } else if magnitude >= 0x10 {
        (116, 0x8_0000)
    } else if magnitude >= 8 {
        (115, 0x10_0000)
    } else if magnitude >= 4 {
        (114, 0x20_0000)
    } else if magnitude >= 2 {
        (113, 0x40_0000)
    } else {
        (112, 0x80_0000)
    }
}

/// Bit pattern of the `f32` with the value `sample / 32768`, see
/// [`law_pcm_value_is_exact`].
pub open spec fn pcm_bits(sample: int) -> int {
    if sample == 0 {
        0
    } else {
        let magnitude = if sample < 0 {
            -sample
        } else {
            sample
        };
        let (exponent, factor) = pcm_scale(magnitude);
        (if sample < 0 {
            0x8000_0000int
        } else {
            0
        }) + exponent * 0x80_0000 + (magnitude * factor - 0x80_0000)
    }
}

/// A normal `f32` with sign `s`, exponent field `e` and fraction field `f` has
/// the value `(-1)^s * (2^23 + f) * 2^(e - 150)`. The bit pattern of a PCM
/// sample has the sign of the sample, and its value is exactly
/// `sample / 2^15`; zero is the positive zero.
pub proof fn law_pcm_value_is_exact(sample: i16)
    ensures
        sample == 0 ==> pcm_bits(sample as int) == 0,
        sample != 0 ==> {
            let bits = pcm_bits(sample as int);
            let sign = bits / 0x8000_0000;
            let exponent = bits / 0x80_0000 % 256;
            let fraction = bits % 0x80_0000;
            let magnitude = if sample < 0 {
                -sample
            } else {
                sample as int
            };
            &&& 0 <= bits <= u32::MAX
            &&& sign == if sample < 0 {
                1int
            } else {
                0
            }
            &&& 112 <= exponent <= 127
            &&& (0x80_0000 + fraction) * vstd::arithmetic::power2::pow2((exponent - 112) as nat)
                == magnitude * vstd::arithmetic::power2::pow2(23)
        },
{
    if sample != 0 {
        vstd::arithmetic::power2::lemma2_to64();
        let magnitude: int = if sample < 0 {
            -sample
        } else {
            sample as int
        };
        let (exponent, factor) = pcm_scale(magnitude);
        let bits = pcm_bits(sample as int);
        assert(0x80_0000 <= magnitude * factor < 0x100_0000);
        assert(bits / 0x80_0000 % 256 == exponent);
        assert(bits % 0x80_0000 == magnitude * factor - 0x80_0000);
        assert(factor * vstd::arithmetic::power2::pow2((exponent - 112) as nat) == 0x80_0000);
        assert(magnitude * factor * vstd::arithmetic::power2::pow2((exponent - 112) as nat)
            == magnitude * 0x80_0000) by (nonlinear_arith)
            requires
                factor * vstd::arithmetic::power2::pow2((exponent - 112) as nat) == 0x80_0000,
        ;
    }
}

/// Converts a 16-bit PCM sample to the `f32` in -1.0..1.0 that stands for it.
pub fn pcm_to_bits(sample: i16) -> (bits: u32)
    ensures
        bits == pcm_bits(sample as int),
{
    if sample == 0 {
        return 0;
    }
    let magnitude: u32 = if sample < 0 {
        (-(sample as i32)) as u32
    } else {
        sample as u32
    };
    let sign: u32 = if sample < 0 {
        0x8000_0000
    } else {
        0
    };
    let (exponent, factor) = pcm_exponent(magnitude);
    sign + exponent * 0x80_0000 + (magnitude * factor - 0x80_0000)
}

fn pcm_exponent(magnitude: u32) -> (scale: (u32, u32))
    requires
        1 <= magnitude <= 0x8000,
    ensures
        (scale.0 as int, scale.1 as int) == pcm_scale(magnitude as int),
        112 <= scale.0 <= 127,
        0x80_0000 <= magnitude * scale.1 < 0x100_0000,
{
    if magnitude >= 0x8000 {
        (127, 0x100)
    } else if magnitude >= 0x4000 {
        (126, 0x200)
    } else if magnitude >= 0x2000 {
        (125, 0x400)
    } else if magnitude >= 0x1000 {
        (124, 0x800)
    } else if magnitude >= 0x800 {
        (123, 0x1000)
    } else if magnitude >= 0x400 {
        (122, 0x2000)
    } else if magnitude >= 0x200 {
        (121, 0x4000)
    } else if magnitude >= 0x100 {
        (120, 0x8000)
    } else if magnitude >= 0x80 {
        (119, 0x1_0000)
    } else if magnitude >= 0x40 {
        (118, 0x2_0000)
    } else if magnitude >= 0x20 {
        (117, 0x4_0000)
    } else if magnitude >= 0x10 {
        (116, 0x8_0000)
    } else if magnitude >= 8 {
        (115, 0x10_0000)
    } else if magnitude >= 4 {
        (114, 0x20_0000)
    } else if magnitude >= 2 {
        (113, 0x40_0000)
    } else {
        (112, 0x80_0000)
    }
}

/// The little-endian 16-bit PCM sample number `index` of a packet.
pub open spec fn pcm_at(data: Seq<u8>, index: int) -> int {
    let raw = data[2 * index] + 0x100 * data[2 * index + 1];
    if raw >= 0x8000 {
        raw - 0x1_0000
    } else {
        raw
    }
}

/// The little-endian 32-bit float sample number `index` of a packet, as its
/// bit pattern.
pub open spec fn float_at(data: Seq<u8>, index: int) -> int {
    data[4 * index] + 0x100 * data[4 * index + 1] + 0x1_0000 * data[4 * index + 2] + 0x100_0000
        * data[4 * index + 3]
}

/// Sample number `index` of a packet as an `f32` bit pattern.
pub open spec fn sample_at(data: Seq<u8>, kind: StreamSampleKind, index: int) -> int {
    match kind {
        StreamSampleKind::Float32 => float_at(data, index),
        StreamSampleKind::Pcm16 => pcm_bits(pcm_at(data, index)),
    }
}

/// Bytes of one sample.
pub open spec fn sample_bytes(kind: StreamSampleKind) -> nat {
    match kind {
        StreamSampleKind::Float32 => 4,
        StreamSampleKind::Pcm16 => 2,
    }
}

/// Which channel of a frame feeds the given side of the stereo stream: mono is
/// duplicated to both sides, and layouts with more than two channels
/// contribute their first two channels only.
pub open spec fn source_channel(channels: int, side: int) -> int {
    if channels == 1 {
        0
    } else {
        side
    }
}

/// The canonical sample for one side of a frame of a packet.
pub open spec fn stereo_sample(
    data: Seq<u8>,
    channels: int,
    kind: StreamSampleKind,
    frame: int,
    side: int,
) -> int {
    sample_at(data, kind, frame * channels + source_channel(channels, side))
}

/// A packet as interleaved stereo samples.
pub open spec fn stereo(
    data: Seq<u8>,
    frames: nat,
    channels: int,
    kind: StreamSampleKind,
    silent: bool,
) -> Seq<u32> {
    Seq::new(
        2 * frames,
        |i: int|
            if silent {
                0u32
            } else {
                stereo_sample(data, channels, kind, i / 2, i % 2) as u32
            },
    )
}

fn read_pcm(data: &[u8], index: usize) -> (sample: i16)
    requires
        2 * index + 1 < data@.len(),
    ensures
        sample == pcm_at(data@, index as int),
{
    assert(data@.len() == data.len());
    let raw: i32 = data[2 * index] as i32 + 0x100 * data[2 * index + 1] as i32;
    if raw >= 0x8000 {
        (raw - 0x1_0000) as i16
    } else {
        raw as i16
    }
}

fn read_float(data: &[u8], index: usize) -> (bits: u32)
    requires
        4 * index + 3 < data@.len(),
    ensures
        bits == float_at(data@, index as int),
{
    assert(data@.len() == data.len());
    data[4 * index] as u32 + 0x100 * data[4 * index + 1] as u32 + 0x1_0000 * data[4 * index
        + 2] as u32 + 0x100_0000 * data[4 * index + 3] as u32
}

fn read_sample(data: &[u8], kind: StreamSampleKind, index: usize) -> (bits: u32)
    requires
        (index + 1) * sample_bytes(kind) <= data@.len(),
    ensures
        bits == sample_at(data@, kind, index as int),
{
    match kind {
        StreamSampleKind::Float32 => read_float(data, index),
        StreamSampleKind::Pcm16 => pcm_to_bits(read_pcm(data, index)),
    }
}

/// Converts one capture packet into interleaved stereo samples.
///
/// Channel mapping: mono is duplicated to both sides, layouts with more than
/// two channels contribute their first two channels only. The data of a silent
/// packet is not read.
pub fn convert_to_stereo(
    data: &[u8],
    frames: usize,
    channels: usize,
    kind: StreamSampleKind,
    silent: bool,
) -> (out: Vec<u32>)
    requires
        2 * frames <= usize::MAX,
        !silent ==> channels >= 1 && data@.len() == frames * channels * sample_bytes(kind),
    ensures
        out@ == stereo(data@, frames as nat, channels as int, kind, silent),
{
    if silent {
        let out: Vec<u32> = vec![0u32; frames * 2];
        assert(out@ =~= stereo(data@, frames as nat, channels as int, kind, silent));
        return out;
    }
    let mut out: Vec<u32> = Vec::with_capacity(frames * 2);
    let right: usize = if channels == 1 {
        0
    } else {
        1
    };
    let mut frame: usize = 0;
    while frame < frames
        invariant
            frame <= frames,
            channels >= 1,
            right == source_channel(channels as int, 1),
            !silent,
            data@.len() == frames * channels * sample_bytes(kind),
            out@ == stereo(data@, frame as nat, channels as int, kind, silent),
        decreases frames - frame,
    {
        proof {
            assert(data@.len() == data.len());
            lemma_frame_in_packet(
                frame as int,
                frames as int,
                channels as int,
                right as int,
                sample_bytes(kind) as int,
                data@.len() as int,
            );
        }
        let base: usize = frame * channels;
        out.push(read_sample(data, kind, base));
        out.push(read_sample(data, kind, base + right));
        frame += 1;
        assert(out@ =~= stereo(data@, frame as nat, channels as int, kind, silent));
    }
    out
}

proof fn lemma_frame_in_packet(
    frame: int,
    frames: int,
    channels: int,
    right: int,
    bytes: int,
    len: int,
)
    requires
        0 <= frame < frames,
        channels >= 1,
        0 <= right < channels,
        2 <= bytes <= 4,
        len == frames * channels * bytes,
    ensures
        0 <= frame * channels,
        (frame * channels + 1) * bytes <= len,
        (frame * channels + right + 1) * bytes <= len,
        frame * channels + right <= len,
{
    assert(frame * channels + channels <= frames * channels) by (nonlinear_arith)
        requires
            0 <= frame < frames,
            channels >= 1,
    ;
    assert(0 <= frame * channels) by (nonlinear_arith)
        requires
            0 <= frame,
            channels >= 1,
    ;
    let last = frame * channels + right + 1;
    let all = frames * channels;
    assert(last * bytes <= all * bytes) by (nonlinear_arith)
        requires
            last <= all,
            bytes >= 0,
    ;
    assert((frame * channels + 1) * bytes <= last * bytes) by (nonlinear_arith)
        requires
            frame * channels + 1 <= last,
            bytes >= 0,
    ;
    assert(last <= last * bytes) by (nonlinear_arith)
        requires
            last >= 0,
            bytes >= 1,
    ;
}

/// A mono packet sounds the same on both sides.
pub proof fn law_mono_is_duplicated(
    data: Seq<u8>,
    frames: nat,
    kind: StreamSampleKind,
    silent: bool,
    frame: int,
)
    requires
        0 <= frame < frames,
    ensures
        stereo(data, frames, 1, kind, silent)[2 * frame] == stereo(
            data,
            frames,
            1,
            kind,
            silent,
        )[2 * frame + 1],
{
}

/// Only the first two channels of a frame reach the stream: packets that agree
/// there convert to the same samples.
pub proof fn law_further_channels_are_ignored(
    a: Seq<u8>,
    b: Seq<u8>,
    frames: nat,
    channels: int,
    kind: StreamSampleKind,
)
    requires
        channels >= 2,
        forall|frame: int, side: int|
            #![trigger stereo_sample(a, channels, kind, frame, side)]
            0 <= frame < frames && 0 <= side < 2 ==> sample_at(a, kind, frame * channels + side)
                == sample_at(b, kind, frame * channels + side),
    ensures
        stereo(a, frames, channels, kind, false) == stereo(b, frames, channels, kind, false),
{
    assert forall|i: int| 0 <= i < 2 * frames implies stereo(a, frames, channels, kind, false)[i]
        == stereo(b, frames, channels, kind, false)[i] by {
        assert(stereo_sample(a, channels, kind, i / 2, i % 2) == sample_at(
            b,
            kind,
            (i / 2) * channels + i % 2,
        ));
    }
    assert(stereo(a, frames, channels, kind, false) =~= stereo(b, frames, channels, kind, false));
}

/// A silent packet is zero samples, whatever its data says.
pub proof fn law_silent_packet_is_zero(
    data: Seq<u8>,
    frames: nat,
    channels: int,
    kind: StreamSampleKind,
)
    ensures
        stereo(data, frames, channels, kind, true) == Seq::new(2 * frames, |i: int| 0u32),
{
    assert(stereo(data, frames, channels, kind, true) =~= Seq::new(2 * frames, |i: int| 0u32));
}

pub open spec fn is_silent(flags: u32) -> bool {
    flags & FLAG_SILENT != 0
}

pub open spec fn is_discontinuity(flags: u32) -> bool {
    flags & FLAG_DATA_DISCONTINUITY != 0
}

/// A loopback capture of an endpoint with a supported mix format, and what it
/// has captured so far.
pub struct LoopbackCapture {
    /// Mix format of the endpoint.
    pub mix_format: MixFormat,
    /// Sample encoding of that format.
    pub kind: StreamSampleKind,
    pub frames_captured: u64,
    pub discontinuities: u64,
}

impl LoopbackCapture {
    /// The samples are read in the encoding of the mix format.
    pub open spec fn wf(&self) -> bool {
        self.mix_format.kind() == Some(self.kind)
    }

    /// A capture of an endpoint with the given mix format, before any packet.
    pub fn open(format: MixFormat) -> (result: Result<Self, String>)
        ensures
            match format.kind() {
                Some(_) => {
                    &&& result is Ok
                    &&& result->Ok_0.wf()
                    &&& result->Ok_0.mix_format == format
                    &&& result->Ok_0.frames_captured == 0
                    &&& result->Ok_0.discontinuities == 0
                },
                None => result is Err && result->Err_0@ == "unsupported "@ + "source"@
                    + " mix format ("@ + format.text()
                    + "); only 32-bit float and 16-bit PCM are supported"@,
            },
    {
        match format.require_stream_kind("source") {
            Ok(kind) => Ok(Self { mix_format: format, kind, frames_captured: 0, discontinuities: 0 }),
            Err(message) => Err(message),
        }
    }

    pub fn format(&self) -> (format: &MixFormat)
        ensures
            *format == self.mix_format,
    {
        &self.mix_format
    }

    /// Takes one pending packet: counts it and converts it to the canonical
    /// stream.
    pub fn drain_packet(&mut self, data: &[u8], frames: u32, flags: u32) -> (out: Vec<u32>)
        requires
            old(self).wf(),
            old(self).frames_captured + frames <= u64::MAX,
            old(self).discontinuities < u64::MAX,
            2 * frames <= usize::MAX,
            !is_silent(flags) ==> {
                &&& old(self).mix_format.channels >= 1
                &&& data@.len() == frames * old(self).mix_format.channels * sample_bytes(
                    old(self).kind,
                )
            },
        ensures
            final(self).wf(),
            final(self).mix_format == old(self).mix_format,
            final(self).kind == old(self).kind,
            final(self).frames_captured == old(self).frames_captured + frames,
            final(self).discontinuities == old(self).discontinuities + if is_discontinuity(flags) {
                1int
            } else {
                0
            },
            out@ == stereo(
                data@,
                frames as nat,
                old(self).mix_format.channels as int,
                old(self).kind,
                is_silent(flags),
            ),
    {
        if flags & FLAG_DATA_DISCONTINUITY != 0 {
            self.discontinuities = self.discontinuities + 1;
        }
        let silent = flags & FLAG_SILENT != 0;
        let out = convert_to_stereo(
            data,
            frames as usize,
            self.mix_format.channels as usize,
            self.kind,
            silent,
        );
        self.frames_captured = self.frames_captured + frames as u64;
        out
    }

    /// The note on discontinuities at the end of a capture, if there were any.
    pub fn discontinuity_note(&self) -> (note: Option<String>)
        ensures
            if self.discontinuities > 0 {
                note is Some && note->Some_0@ == "note: "@ + crate::text::decimal(
                    self.discontinuities as nat,
                ) + " capture discontinuities occurred"@
            } else {
                note is None
            },
    {
        if self.discontinuities > 0 {
            let mut note = "note: ".to_owned();
            push_decimal(&mut note, self.discontinuities);
            note.append(" capture discontinuities occurred");
            Some(note)
        } else {
            None
        }
    }

    /// A recording is an error if nothing was captured.
    pub fn recording_result(&self) -> (result: Result<(), &'static str>)
        ensures
            if self.frames_captured > 0 {
                result is Ok
            } else {
                result is Err && result->Err_0@
                    == "no audio was captured; loopback only delivers data while something is playing on the source endpoint"@
            },
    {
        if self.frames_captured > 0 {
            Ok(())
        } else {
            Err(
                "no audio was captured; loopback only delivers data while something is playing on the source endpoint",
            )
        }
    }
}

/// Parameters of a WAV file.
#[derive(Debug, Clone, Copy, PartialEq, Eq, Structural)]
pub struct WavParams {
    pub channels: u16,
    pub sample_rate: u32,
    pub bits_per_sample: u16,
    pub sample_type: crate::devices::SampleType,
}

/// A recording holds the canonical stream: stereo 32-bit float at the source
/// mix rate.
pub fn wav_params(format: &MixFormat) -> (params: WavParams)
    ensures
        params == (WavParams {
            channels: 2,
            sample_rate: format.sample_rate,
            bits_per_sample: 32,
            sample_type: crate::devices::SampleType::Float,
        }),
{
    WavParams {
        channels: 2,
        sample_rate: format.sample_rate,
        bits_per_sample: 32,
        sample_type: crate::devices::SampleType::Float,
    }
}

/// Nanoseconds in a second.
pub const NANOS_PER_SECOND: u128 = 1_000_000_000;

/// Whether a recording of `seconds` seconds goes on when this much time (in
/// nanoseconds) has passed since its start.
pub fn recording_goes_on(elapsed_nanos: u128, seconds: u64) -> (goes_on: bool)
    ensures
        goes_on == (elapsed_nanos < seconds * NANOS_PER_SECOND),
        goes_on == is_recording(elapsed_nanos as int, seconds as int),
{
    elapsed_nanos < seconds as u128 * NANOS_PER_SECOND
}

/// The line that announces a recording.
pub fn recording_banner(seconds: u64, format: &MixFormat, path: &str) -> (out: String)
    ensures
        out@ == "Recording "@ + crate::text::decimal(seconds as nat) + " s of loopback audio at "@
            + format.text() + " into "@ + path@ + " ..."@,
{
    let mut out = "Recording ".to_owned();
    push_decimal(&mut out, seconds);
    out.append(" s of loopback audio at ");
    let text = format.to_text();
    out.append(text.as_str());
    out.append(" into ");
    out.append(path);
    out.append(" ...");
    out
}

/// Output sample `2 * frame + side` of a packet comes from this sample of it:
/// the left side from the first channel, the right side from the second one,
/// or from the only one there is.
pub proof fn law_float_packets_pass_through(
    data: Seq<u8>,
    frames: nat,
    channels: int,
    frame: int,
    side: int,
)
    requires
        channels >= 1,
        0 <= frame < frames,
        0 <= side <= 1,
    ensures
        ({
            let out = stereo(data, frames, channels, StreamSampleKind::Float32, false);
            let sample = out[2 * frame + side] as int;
            let first = 4 * (frame * channels + if channels == 1 {
                0
            } else {
                side
            });
            &&& out.len() == 2 * frames
            &&& sample % 0x100 == data[first]
            &&& sample / 0x100 % 0x100 == data[first + 1]
            &&& sample / 0x1_0000 % 0x100 == data[first + 2]
            &&& sample / 0x100_0000 == data[first + 3]
        }),
{
    assert((2 * frame + side) / 2 == frame && (2 * frame + side) % 2 == side);
    let index = frame * channels + if channels == 1 {
        0
    } else {
        side
    };
    assert(0 <= float_at(data, index) <= u32::MAX);
}

/// The same of 16-bit packets: the output sample is the one of the signed
/// number whose two bytes, low byte first, are there.
pub proof fn law_pcm_packets_are_converted(
    data: Seq<u8>,
    frames: nat,
    channels: int,
    frame: int,
    side: int,
    value: i16,
)
    requires
        channels >= 1,
        0 <= frame < frames,
        0 <= side <= 1,
        ({
            let first = 2 * (frame * channels + if channels == 1 {
                0
            } else {
                side
            });
            (value - (data[first] + 0x100 * data[first + 1])) % 0x1_0000 == 0
        }),
    ensures
        ({
            let out = stereo(data, frames, channels, StreamSampleKind::Pcm16, false);
            &&& out.len() == 2 * frames
            &&& out[2 * frame + side] == pcm_bits(value as int)
        }),
{
    assert((2 * frame + side) / 2 == frame && (2 * frame + side) % 2 == side);
    let index = frame * channels + if channels == 1 {
        0
    } else {
        side
    };
    assert(pcm_at(data, index) == value);
    law_pcm_value_is_exact(value);
}

/// The lowest flag bit marks a discontinuity and the next one silence; no other
/// bit does.
pub proof fn law_flag_bits(flags: u32)
    ensures
        is_discontinuity(flags) <==> flags % 2 == 1,
        is_silent(flags) <==> flags / 2 % 2 == 1,
{
    assert(flags & 1 != 0 <==> flags % 2 == 1) by (bit_vector);
    assert(flags & 2 != 0 <==> flags / 2 % 2 == 1) by (bit_vector);
}

/// A sample takes as many bytes as the mix format says.
pub proof fn law_sample_size(format: MixFormat)
    ensures
        format.kind() matches Some(kind) ==> 8 * sample_bytes(kind) == format.bits_per_sample,
{
}

/// A recording of `seconds` seconds still runs.
pub open spec fn is_recording(elapsed_nanos: int, seconds: int) -> bool {
    elapsed_nanos < seconds * NANOS_PER_SECOND
}

/// A recording runs for its seconds and no longer: it goes on as long as some
/// whole nanosecond of them is left, and once over it stays over.
pub proof fn law_recording_lasts_its_seconds(elapsed: nat, later: nat, seconds: nat)
    ensures
        is_recording(elapsed as int, seconds as int) <==> elapsed + 1 <= seconds * 1_000_000_000,
        !is_recording(elapsed as int, seconds as int) && elapsed <= later ==> !is_recording(
            later as int,
            seconds as int,
        ),
        !is_recording(elapsed as int, 0),
{
}

} // verus!
