//! One live sample stream: a WAV decoder positioned at a read cursor, held
//! in memory, together with the canonical format derived from its header.
//! The decoder itself is hound's; the calls into it stand behind trusted
//! wrappers, and everything downstream of their results is verified.

use vstd::prelude::*;

use crate::format::spec_derived_format;
use crate::format::try_spec_to_format;
use crate::format::AudioError;
use crate::format::AudioFormat;
use crate::format::WavMeta;

verus! {

#[verifier::external_type_specification]
#[verifier::external_body]
#[verifier::reject_recursive_types(T)]
pub struct ExCursor<T>(std::io::Cursor<T>);

#[verifier::external_type_specification]
#[verifier::external_body]
#[verifier::reject_recursive_types(R)]
pub struct ExWavReader<R>(hound::WavReader<R>);

/// The 16-bit samples a decoder will still yield, in order, up to its first
/// end of data or decode error. The decoder reads from an in-memory cursor,
/// so this is a function of the reader's state alone.
pub uninterp spec fn wav_pending_i16(reader: hound::WavReader<std::io::Cursor<Vec<u8>>>) -> Seq<
    i16,
>;

/// The format metadata a decoder's header chunk holds; a function of the
/// reader's state alone.
pub uninterp spec fn wav_header(reader: hound::WavReader<std::io::Cursor<Vec<u8>>>) -> WavMeta;

/// Whether the given bytes parse as a well-formed WAV stream; hound's header
/// parsing is a function of the bytes alone.
pub uninterp spec fn wav_decodable(bytes: Seq<u8>) -> bool;

/// The format metadata in the WAV header of the given bytes; meaningful where
/// they are decodable.
pub uninterp spec fn wav_header_meta(bytes: Seq<u8>) -> WavMeta;

/// The 16-bit samples a fresh decoder over the given bytes yields, in order,
/// up to its first end of data or decode error.
pub uninterp spec fn wav_initial_samples(bytes: Seq<u8>) -> Seq<i16>;

/// Relies on hound::WavReader::new: parses the WAV header of the given bytes
/// and positions a reader at the first sample, or fails on data that is not a
/// well-formed WAV stream. What the reader holds and yields is a function of
/// the bytes alone.
#[verifier::external_body]
fn wav_reader_new(bytes: Vec<u8>) -> (result: Option<hound::WavReader<std::io::Cursor<Vec<u8>>>>)
    ensures
        result is Some <==> wav_decodable(bytes@),
        result matches Some(reader) ==> wav_header(reader) == wav_header_meta(bytes@)
            && wav_pending_i16(reader) == wav_initial_samples(bytes@),
{
    hound::WavReader::new(std::io::Cursor::new(bytes)).ok()
}

/// Relies on hound::WavReader::spec: returns the format metadata found in the
/// WAV header, as plain values.
#[verifier::external_body]
fn wav_reader_meta(reader: &hound::WavReader<std::io::Cursor<Vec<u8>>>) -> (result: WavMeta)
    ensures
        result == wav_header(*reader),
{
    let header = reader.spec();
    WavMeta {
        channels: header.channels,
        sample_rate: header.sample_rate,
        bits_per_sample: header.bits_per_sample,
        float_encoded: match header.sample_format {
            hound::SampleFormat::Float => true,
            hound::SampleFormat::Int => false,
        },
    }
}

/// Relies on hound::WavReader::samples::<i16>: yields the next interleaved
/// 16-bit sample and advances the reader, or yields nothing at end of data or
/// on a decode error (a corrupt tail truncates the stream).
#[verifier::external_body]
fn wav_next_i16(reader: &mut hound::WavReader<std::io::Cursor<Vec<u8>>>) -> (result: Option<i16>)
    ensures
        wav_pending_i16(*old(reader)).len() == 0 ==> result is None,
        wav_pending_i16(*old(reader)).len() > 0 ==> result == Some(
            wav_pending_i16(*old(reader))[0],
        ) && wav_pending_i16(*final(reader)) == wav_pending_i16(*old(reader)).drop_first(),
{
    reader.samples::<i16>().next().and_then(|r| r.ok())
}

/// One decoded-audio source: a positioned WAV decoder and the canonical
/// format its header calls for. Exhaustion is signalled per pull; the owner
/// drops the stream the moment it reports exhaustion.
pub struct Sampler {
    pub reader: hound::WavReader<std::io::Cursor<Vec<u8>>>,
    pub format: AudioFormat,
}

impl Sampler {
    /// The 16-bit samples this stream will still yield, in order.
    pub open spec fn pending(self) -> Seq<i16> {
        wav_pending_i16(self.reader)
    }

    /// Decodes the header of a WAV clip held in memory: succeeds exactly when
    /// the bytes are a well-formed WAV stream whose header calls for a
    /// supported representation, with the stream's format derived from that
    /// header and its pending samples the bytes' own. Fails with
    /// `UndecodableSource` on bytes that do not decode, and with
    /// `UnsupportedSampleRepresentation` on a header outside the two
    /// supported representations.
    pub fn open(bytes: Vec<u8>) -> (result: Result<Sampler, AudioError>)
        ensures
            match result {
                Ok(s) => {
                    &&& wav_decodable(bytes@)
                    &&& spec_derived_format(wav_header_meta(bytes@)) == Some(s.format)
                    &&& s.pending() == wav_initial_samples(bytes@)
                },
                Err(e) => if !wav_decodable(bytes@) {
                    e == AudioError::UndecodableSource
                } else {
                    spec_derived_format(wav_header_meta(bytes@)) is None && e
                        == AudioError::UnsupportedSampleRepresentation
                },
            },
    {
        let reader = match wav_reader_new(bytes) {
            Some(r) => r,
            None => {
                return Err(AudioError::UndecodableSource);
            },
        };
        let meta = wav_reader_meta(&reader);
        let format = match try_spec_to_format(&meta) {
            Ok(f) => f,
            Err(e) => {
                return Err(e);
            },
        };
        Ok(Sampler { reader, format })
    }

    /// Pulls the next interleaved sample, or signals exhaustion: nothing
    /// comes back exactly when no samples are pending, and otherwise the
    /// first pending sample comes back and the rest stay pending.
    pub fn sample(&mut self) -> (result: Option<i16>)
        ensures
            final(self).format == old(self).format,
            old(self).pending().len() == 0 ==> result is None,
            old(self).pending().len() > 0 ==> result == Some(old(self).pending()[0])
                && final(self).pending() == old(self).pending().drop_first(),
    {
        wav_next_i16(&mut self.reader)
    }
}

} // verus!
