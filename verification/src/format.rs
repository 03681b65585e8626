//! Audio format negotiation: deriving the canonical output format from a
//! decoded source's metadata, and matching it against the formats a playback
//! device supports.

use vstd::prelude::*;

verus! {

/// The two numeric sample representations the mixer supports.
#[derive(Clone, Copy, Debug, PartialEq, Eq, Structural)]
pub enum SampleKind {
    /// 16-bit fixed-point samples.
    FixedPoint16,
    /// 32-bit floating-point samples.
    Float32,
}

/// The canonical audio format every concurrently mixed stream must share.
#[derive(Clone, Copy, Debug, PartialEq, Eq, Structural)]
pub struct AudioFormat {
    pub channels: u16,
    pub sample_rate: u32,
    pub kind: SampleKind,
}

/// Format metadata as a WAV decoder reports it: channel count, sample rate,
/// bit depth, and whether samples are IEEE floats or integers.
#[derive(Clone, Copy, Debug, PartialEq, Eq, Structural)]
pub struct WavMeta {
    pub channels: u16,
    pub sample_rate: u32,
    pub bits_per_sample: u16,
    pub float_encoded: bool,
}

/// One entry of a playback device's supported-format enumeration: an exact
/// channel count and representation, and an inclusive sample-rate range.
#[derive(Clone, Copy, Debug, PartialEq, Eq, Structural)]
pub struct DeviceFormatRange {
    pub channels: u16,
    pub min_sample_rate: u32,
    pub max_sample_rate: u32,
    pub kind: SampleKind,
}

/// Everything that can go wrong while negotiating formats or registering a
/// stream. Startup errors abort engine construction; `FormatMismatch` and
/// `UndecodableSource` are reported per registration and leave the running
/// engine untouched.
#[derive(Clone, Copy, Debug, PartialEq, Eq, Structural)]
pub enum AudioError {
    /// No playback device exists.
    NoOutputDevice,
    /// The source's bit depth and encoding are neither 16-bit fixed-point nor
    /// 32-bit floating-point.
    UnsupportedSampleRepresentation,
    /// No supported device format matches the desired output format.
    NoCompatibleDeviceFormat,
    /// A registered source's format differs from the registry's common
    /// format; the first field is the common format, the second the source's.
    FormatMismatch(AudioFormat, AudioFormat),
    /// The source's bytes could not be decoded as a WAV stream.
    UndecodableSource,
}

/// The representation a decoder's metadata calls for, if it is one the mixer
/// supports: 32-bit floats or 16-bit integers, nothing else.
pub open spec fn spec_representation_of(meta: WavMeta) -> Option<SampleKind> {
    if meta.float_encoded && meta.bits_per_sample == 32 {
        Some(SampleKind::Float32)
    } else if !meta.float_encoded && meta.bits_per_sample == 16 {
        Some(SampleKind::FixedPoint16)
    } else {
        None
    }
}

/// The canonical output format a decoder's metadata calls for, if the mixer
/// supports its representation: the metadata's channel count and sample rate
/// under the derived representation.
pub open spec fn spec_derived_format(meta: WavMeta) -> Option<AudioFormat> {
    match spec_representation_of(meta) {
        Some(k) => Some(
            AudioFormat { channels: meta.channels, sample_rate: meta.sample_rate, kind: k },
        ),
        None => None,
    }
}

/// Derives the canonical output format from a decoded source's metadata.
/// Fails exactly when the source's bit depth and encoding are not one of the
/// two supported representations.
pub fn try_spec_to_format(meta: &WavMeta) -> (result: Result<AudioFormat, AudioError>)
    ensures
        match result {
            Ok(f) => spec_derived_format(*meta) == Some(f),
            Err(e) => spec_derived_format(*meta) is None && e
                == AudioError::UnsupportedSampleRepresentation,
        },
{
    let kind: SampleKind = if meta.float_encoded && meta.bits_per_sample == 32 {
        SampleKind::Float32
    } else if !meta.float_encoded && meta.bits_per_sample == 16 {
        SampleKind::FixedPoint16
    } else {
        return Err(AudioError::UnsupportedSampleRepresentation);
    };
    Ok(AudioFormat { channels: meta.channels, sample_rate: meta.sample_rate, kind })
}

/// Whether one supported-format entry can carry the desired format: channel
/// count and representation match exactly, and the rate range contains the
/// desired sample rate.
pub open spec fn spec_format_supported(supported: DeviceFormatRange, actual: AudioFormat) -> bool {
    &&& supported.channels == actual.channels
    &&& supported.kind == actual.kind
    &&& supported.min_sample_rate <= actual.sample_rate
    &&& supported.max_sample_rate >= actual.sample_rate
}

/// Decides whether a device's supported-format entry can carry `actual`.
pub fn format_supported(supported: &DeviceFormatRange, actual: &AudioFormat) -> (result: bool)
    ensures
        result == spec_format_supported(*supported, *actual),
{
    supported.channels == actual.channels && supported.kind == actual.kind
        && supported.max_sample_rate >= actual.sample_rate
        && supported.min_sample_rate <= actual.sample_rate
}

/// Selects the first entry of a device's supported-format enumeration that
/// can carry `format`; fails with `NoCompatibleDeviceFormat` exactly when no
/// entry can.
pub fn find_supported_format(device_formats: &Vec<DeviceFormatRange>, format: &AudioFormat) -> (result: Result<
    DeviceFormatRange,
    AudioError,
>)
    ensures
        match result {
            Ok(f) => exists|i: int|
                0 <= i < device_formats@.len() && spec_format_supported(device_formats@[i], *format)
                    && f == device_formats@[i] && (forall|j: int|
                    0 <= j < i ==> !spec_format_supported(device_formats@[j], *format)),
            Err(e) => e == AudioError::NoCompatibleDeviceFormat && (forall|i: int|
                0 <= i < device_formats@.len() ==> !spec_format_supported(
                    device_formats@[i],
                    *format,
                )),
        },
{
    let mut idx: usize = 0;
    while idx < device_formats.len()
        invariant
            0 <= idx <= device_formats@.len(),
            forall|j: int| 0 <= j < idx ==> !spec_format_supported(device_formats@[j], *format),
        decreases device_formats@.len() - idx,
    {
        if format_supported(&device_formats[idx], format) {
            return Ok(device_formats[idx]);
        }
        idx = idx + 1;
    }
    Err(AudioError::NoCompatibleDeviceFormat)
}

} // verus!
