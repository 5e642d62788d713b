//! Model of the audio render endpoints: what enumeration yields, which mix
//! formats can be streamed, and the device report.
//!
//! References:
//! - https://learn.microsoft.com/en-us/windows/win32/coreaudio/device-properties
//! - https://learn.microsoft.com/en-us/windows/win32/api/audioclient/nf-audioclient-iaudioclient-getmixformat
use crate::text::{push_decimal, push_hex4};
use vstd::prelude::*;

verus! {

/// Format tag values from mmreg.h.
pub const WAVE_FORMAT_TAG_PCM: u16 = 0x0001;

pub const WAVE_FORMAT_TAG_IEEE_FLOAT: u16 = 0x0003;

pub const WAVE_FORMAT_TAG_EXTENSIBLE: u16 = 0xFFFE;

/// Data1 fields of KSDATAFORMAT_SUBTYPE_PCM / _IEEE_FLOAT. The remaining GUID
/// fields are the fixed media-type suffix 0000-0010-8000-00aa00389b71.
pub const SUBTYPE_DATA1_PCM: u32 = 0x0000_0001;

pub const SUBTYPE_DATA1_IEEE_FLOAT: u32 = 0x0000_0003;

/// How the samples of a mix format are encoded; an encoding that is neither
/// integer nor float PCM is known by its format tag only.
#[derive(Debug, Clone, Copy, PartialEq, Eq, Structural)]
pub enum SampleType {
    Pcm,
    Float,
    Other(u16),
}

/// Shared-mode mix format of an endpoint.
#[derive(Debug, Clone, Copy, PartialEq, Eq, Structural)]
pub struct MixFormat {
    pub sample_rate: u32,
    pub channels: u16,
    pub bits_per_sample: u16,
    pub sample_type: SampleType,
}

/// The sample encodings that the stream path handles.
#[derive(Debug, Clone, Copy, PartialEq, Eq, Structural)]
pub enum StreamSampleKind {
    Float32,
    Pcm16,
}

/// An active render endpoint.
#[derive(Debug)]
pub struct DeviceInfo {
    pub id: String,
    pub name: String,
    pub is_default: bool,
    pub mix_format: MixFormat,
}

impl Clone for DeviceInfo {
    fn clone(&self) -> (copy: Self)
        ensures
            copy == *self,
    {
        DeviceInfo {
            id: self.id.clone(),
            name: self.name.clone(),
            is_default: self.is_default,
            mix_format: self.mix_format,
        }
    }
}

/// The fields of a WAVEFORMATEX that describe a mix format. `subtype` is the
/// Data1 field of the sub-format and only meaningful under the extensible tag.
#[derive(Debug, Clone, Copy, PartialEq, Eq, Structural)]
pub struct WaveFormat {
    pub format_tag: u16,
    pub subtype: u32,
    pub sample_rate: u32,
    pub channels: u16,
    pub bits_per_sample: u16,
}

/// What enumeration reads of one endpoint.
#[derive(Debug)]
pub struct Endpoint {
    pub id: String,
    pub name: String,
    pub wave_format: WaveFormat,
}

/// The sample type that a format tag stands for; under the extensible tag the
/// sub-format decides.
pub open spec fn sample_type_of(format_tag: u16, subtype: u32) -> SampleType {
    let (is_pcm, is_float) = if format_tag == WAVE_FORMAT_TAG_EXTENSIBLE {
        (subtype == SUBTYPE_DATA1_PCM, subtype == SUBTYPE_DATA1_IEEE_FLOAT)
    } else {
        (format_tag == WAVE_FORMAT_TAG_PCM, format_tag == WAVE_FORMAT_TAG_IEEE_FLOAT)
    };
    if is_pcm {
        SampleType::Pcm
    } else if is_float {
        SampleType::Float
    } else {
        SampleType::Other(format_tag)
    }
}

pub open spec fn mix_format_of(wave: WaveFormat) -> MixFormat {
    MixFormat {
        sample_rate: wave.sample_rate,
        channels: wave.channels,
        bits_per_sample: wave.bits_per_sample,
        sample_type: sample_type_of(wave.format_tag, wave.subtype),
    }
}

/// Reads a mix format out of the endpoint's wave format.
pub fn mix_format(wave: WaveFormat) -> (format: MixFormat)
    ensures
        format == mix_format_of(wave),
{
    let tag: u16 = wave.format_tag;
    let subtype: u32 = wave.subtype;
    let sample_type = if tag == WAVE_FORMAT_TAG_PCM {
        SampleType::Pcm
    } else if tag == WAVE_FORMAT_TAG_IEEE_FLOAT {
        SampleType::Float
    } else if tag == WAVE_FORMAT_TAG_EXTENSIBLE {
        if subtype == SUBTYPE_DATA1_PCM {
            SampleType::Pcm
        } else if subtype == SUBTYPE_DATA1_IEEE_FLOAT {
            SampleType::Float
        } else {
            SampleType::Other(tag)
        }
    } else {
        SampleType::Other(tag)
    };
    MixFormat {
        sample_rate: wave.sample_rate,
        channels: wave.channels,
        bits_per_sample: wave.bits_per_sample,
        sample_type,
    }
}

impl SampleType {
    pub open spec fn text(self) -> Seq<char> {
        match self {
            SampleType::Pcm => "int"@,
            SampleType::Float => "float"@,
            SampleType::Other(tag) => "unknown (tag 0x"@ + crate::text::hex4(tag) + ")"@,
        }
    }

    pub fn to_text(&self) -> (out: String)
        ensures
            out@ == self.text(),
    {
        match *self {
            SampleType::Pcm => "int".to_owned(),
            SampleType::Float => "float".to_owned(),
            SampleType::Other(tag) => {
                let mut out = "unknown (tag 0x".to_owned();
                push_hex4(&mut out, tag);
                out.append(")");
                out
            },
        }
    }
}

impl MixFormat {
    pub open spec fn text(self) -> Seq<char> {
        crate::text::decimal(self.sample_rate as nat) + " Hz, "@ + crate::text::decimal(
            self.channels as nat,
        ) + " ch, "@ + crate::text::decimal(self.bits_per_sample as nat) + "-bit "@
            + self.sample_type.text()
    }

    /// The format as a human-readable line, such as `48000 Hz, 2 ch, 32-bit
    /// float`.
    pub fn to_text(&self) -> (out: String)
        ensures
            out@ == self.text(),
    {
        let mut out = String::new();
        push_decimal(&mut out, self.sample_rate as u64);
        assert(out@ =~= crate::text::decimal(self.sample_rate as nat));
        out.append(" Hz, ");
        push_decimal(&mut out, self.channels as u64);
        out.append(" ch, ");
        push_decimal(&mut out, self.bits_per_sample as u64);
        out.append("-bit ");
        let sample_type = self.sample_type.to_text();
        out.append(sample_type.as_str());
        out
    }

    pub open spec fn kind(self) -> Option<StreamSampleKind> {
        match (self.sample_type, self.bits_per_sample) {
            (SampleType::Float, 32) => Some(StreamSampleKind::Float32),
            (SampleType::Pcm, 16) => Some(StreamSampleKind::Pcm16),
            _ => None,
        }
    }

    /// The stream encoding of this format; only 32-bit float and 16-bit PCM
    /// are supported.
    pub fn stream_kind(&self) -> (kind: Option<StreamSampleKind>)
        ensures
            kind == self.kind(),
    {
        match self.sample_type {
            SampleType::Float => if self.bits_per_sample == 32 {
                Some(StreamSampleKind::Float32)
            } else {
                None
            },
            SampleType::Pcm => if self.bits_per_sample == 16 {
                Some(StreamSampleKind::Pcm16)
            } else {
                None
            },
            SampleType::Other(_) => None,
        }
    }

    /// The stream encoding, or the message for a format without one. `role`
    /// says whose format it is.
    pub fn require_stream_kind(&self, role: &str) -> (result: Result<StreamSampleKind, String>)
        ensures
            match self.kind() {
                Some(kind) => result == Ok::<StreamSampleKind, String>(kind),
                None => result is Err && result->Err_0@ == "unsupported "@ + role@
                    + " mix format ("@ + self.text()
                    + "); only 32-bit float and 16-bit PCM are supported"@,
            },
    {
        match self.stream_kind() {
            Some(kind) => Ok(kind),
            None => {
                let mut message = "unsupported ".to_owned();
                message.append(role);
                message.append(" mix format (");
                let format = self.to_text();
                message.append(format.as_str());
                message.append("); only 32-bit float and 16-bit PCM are supported");
                Err(message)
            },
        }
    }
}

/// The list entry of `endpoint` when `default_id` is the default endpoint.
pub open spec fn is_listed_as(
    device: DeviceInfo,
    endpoint: Endpoint,
    default_id: Option<String>,
) -> bool {
    &&& device.id@ == endpoint.id@
    &&& device.name@ == endpoint.name@
    &&& device.is_default == (default_id is Some && default_id->Some_0@ == endpoint.id@)
    &&& device.mix_format == mix_format_of(endpoint.wave_format)
}

/// Lists the active render endpoints in enumeration order, with the default
/// endpoint marked; there may be no default at all.
pub fn list_render_devices(default_id: Option<String>, endpoints: Vec<Endpoint>) -> (devices: Vec<
    DeviceInfo,
>)
    ensures
        devices@.len() == endpoints@.len(),
        forall|i: int|
            0 <= i < devices@.len() ==> is_listed_as(
                #[trigger] devices@[i],
                endpoints@[i],
                default_id,
            ),
{
    let mut devices: Vec<DeviceInfo> = Vec::new();
    let mut i: usize = 0;
    while i < endpoints.len()
        invariant
            i <= endpoints@.len(),
            devices@.len() == i,
            forall|k: int|
                0 <= k < i ==> is_listed_as(#[trigger] devices@[k], endpoints@[k], default_id),
        decreases endpoints@.len() - i,
    {
        let endpoint = &endpoints[i];
        let is_default = match &default_id {
            Some(id) => *id == endpoint.id,
            None => false,
        };
        devices.push(
            DeviceInfo {
                id: endpoint.id.clone(),
                name: endpoint.name.clone(),
                is_default,
                mix_format: mix_format(endpoint.wave_format),
            },
        );
        i += 1;
    }
    devices
}

/// The report entries of the first `count` devices.
pub open spec fn report_entries(devices: Seq<DeviceInfo>, count: nat) -> Seq<char>
    decreases count,
{
    if count == 0 {
        Seq::empty()
    } else {
        let device = devices[count - 1];
        report_entries(devices, (count - 1) as nat) + "["@ + crate::text::decimal(
            (count - 1) as nat,
        ) + "] "@ + device.name@ + (if device.is_default {
            " (default)"@
        } else {
            ""@
        }) + "\n    id:         "@ + device.id@ + "\n    mix format: "@ + device.mix_format.text()
            + "\n\n"@
    }
}

pub open spec fn report_text(devices: Seq<DeviceInfo>) -> Seq<char> {
    if devices.len() == 0 {
        "No active render devices found.\n"@
    } else {
        "Active render devices:\n\n"@ + report_entries(devices, devices.len())
    }
}

/// The device list as it is printed: per device its index, name, default
/// marker, endpoint ID and mix format.
pub fn device_report(devices: &Vec<DeviceInfo>) -> (out: String)
    ensures
        out@ == report_text(devices@),
{
    if devices.len() == 0 {
        return "No active render devices found.\n".to_owned();
    }
    let mut entries = String::new();
    let mut i: usize = 0;
    assert(entries@ =~= report_entries(devices@, 0));
    while i < devices.len()
        invariant
            i <= devices@.len(),
            entries@ == report_entries(devices@, i as nat),
        decreases devices@.len() - i,
    {
        let device = &devices[i];
        entries.append("[");
        push_decimal(&mut entries, i as u64);
        entries.append("] ");
        entries.append(device.name.as_str());
        entries.append(
            if device.is_default {
                " (default)"
            } else {
                ""
            },
        );
        entries.append("\n    id:         ");
        entries.append(device.id.as_str());
        entries.append("\n    mix format: ");
        let format = device.mix_format.to_text();
        entries.append(format.as_str());
        entries.append("\n\n");
        i += 1;
    }
    let mut out = "Active render devices:\n\n".to_owned();
    out.append(entries.as_str());
    out
}

/// Exactly the endpoint with the default ID is marked; without a default no
/// device is.
pub proof fn law_default_marks_its_endpoint(
    devices: Seq<DeviceInfo>,
    endpoints: Seq<Endpoint>,
    default_id: Option<String>,
    i: int,
)
    requires
        devices.len() == endpoints.len(),
        forall|k: int|
            0 <= k < devices.len() ==> is_listed_as(
                #[trigger] devices[k],
                endpoints[k],
                default_id,
            ),
        0 <= i < devices.len(),
    ensures
        devices[i].is_default <==> default_id is Some && devices[i].id@ == default_id->Some_0@,
{
    assert(is_listed_as(devices[i], endpoints[i], default_id));
}

/// Integer and float samples are recognized by their plain tag or, under the
/// extensible tag, by the sub-format; any other encoding keeps its tag.
pub proof fn law_sample_type_is_recognized(format_tag: u16, subtype: u32)
    ensures
        sample_type_of(format_tag, subtype) == SampleType::Pcm <==> format_tag == 1 || format_tag
            == 0xFFFE && subtype == 1,
        sample_type_of(format_tag, subtype) == SampleType::Float <==> format_tag == 3 || format_tag
            == 0xFFFE && subtype == 3,
        sample_type_of(format_tag, subtype) matches SampleType::Other(tag) ==> tag == format_tag,
{
}

/// A mix format has the rate, the channels and the sample size of the endpoint.
pub proof fn law_mix_format_keeps_the_numbers(wave: WaveFormat)
    ensures
        mix_format_of(wave).sample_rate == wave.sample_rate,
        mix_format_of(wave).channels == wave.channels,
        mix_format_of(wave).bits_per_sample == wave.bits_per_sample,
        mix_format_of(wave).sample_type == sample_type_of(wave.format_tag, wave.subtype),
{
}

/// Exactly 32-bit float and 16-bit integer formats can be streamed, each in its
/// own encoding.
pub proof fn law_streamable_formats(format: MixFormat)
    ensures
        format.kind() == Some(StreamSampleKind::Float32) <==> format.sample_type
            == SampleType::Float && format.bits_per_sample == 32,
        format.kind() == Some(StreamSampleKind::Pcm16) <==> format.sample_type == SampleType::Pcm
            && format.bits_per_sample == 16,
{
}

/// The text of a format says the rate, the channels, the sample size and the
/// sample type, each with its unit.
pub proof fn law_format_text_says_everything(format: MixFormat)
    ensures
        format.text() == crate::text::decimal(format.sample_rate as nat) + " Hz, "@
            + crate::text::decimal(format.channels as nat) + " ch, "@ + crate::text::decimal(
            format.bits_per_sample as nat,
        ) + "-bit "@ + format.sample_type.text(),
        format.sample_type == SampleType::Pcm ==> format.sample_type.text() == "int"@,
        format.sample_type == SampleType::Float ==> format.sample_type.text() == "float"@,
        format.sample_type matches SampleType::Other(tag) ==> format.sample_type.text()
            == "unknown (tag 0x"@ + crate::text::hex4(tag) + ")"@,
{
}

/// A listed device has the ID, the name and the mix format of its endpoint.
pub proof fn law_listing_describes_the_endpoint(
    device: DeviceInfo,
    endpoint: Endpoint,
    default_id: Option<String>,
)
    requires
        is_listed_as(device, endpoint, default_id),
    ensures
        device.id@ == endpoint.id@,
        device.name@ == endpoint.name@,
        device.mix_format.sample_rate == endpoint.wave_format.sample_rate,
        device.mix_format.channels == endpoint.wave_format.channels,
        device.mix_format.bits_per_sample == endpoint.wave_format.bits_per_sample,
        device.mix_format.sample_type == sample_type_of(
            endpoint.wave_format.format_tag,
            endpoint.wave_format.subtype,
        ),
{
}

/// A report of a longer list is the report of the shorter one and then the new
/// device: its index, name, default marker, ID and mix format.
pub proof fn law_report_grows_by_a_device(devices: Seq<DeviceInfo>, device: DeviceInfo)
    ensures
        report_text(Seq::empty()) == "No active render devices found.\n"@,
        report_text(devices.push(device)) == (if devices.len() == 0 {
            "Active render devices:\n\n"@
        } else {
            report_text(devices)
        }) + ("["@ + crate::text::decimal(devices.len()) + "] "@ + device.name@ + (
        if device.is_default {
            " (default)"@
        } else {
            ""@
        }) + "\n    id:         "@ + device.id@ + "\n    mix format: "@ + device.mix_format.text()
            + "\n\n"@),
{
    let longer = devices.push(device);
    lemma_report_prefix(devices, longer, devices.len());
    assert(longer[devices.len() as int] == device);
    let entry = "["@ + crate::text::decimal(devices.len()) + "] "@ + device.name@ + (
    if device.is_default {
        " (default)"@
    } else {
        ""@
    }) + "\n    id:         "@ + device.id@ + "\n    mix format: "@ + device.mix_format.text()
        + "\n\n"@;
    let entries = report_entries(devices, devices.len());
    assert(report_entries(longer, longer.len()) =~= entries + entry);
    assert("Active render devices:\n\n"@ + (entries + entry) =~= "Active render devices:\n\n"@
        + entries + entry);
}

proof fn lemma_report_prefix(a: Seq<DeviceInfo>, b: Seq<DeviceInfo>, count: nat)
    requires
        count <= a.len(),
        count <= b.len(),
        forall|i: int| 0 <= i < count ==> a[i] == b[i],
    ensures
        report_entries(a, count) == report_entries(b, count),
    decreases count,
{
    if count > 0 {
        lemma_report_prefix(a, b, (count - 1) as nat);
    }
}

} // verus!
