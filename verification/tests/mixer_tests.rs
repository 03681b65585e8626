use drummix::decode::Sampler;
use drummix::mixer::mix_pass;
use drummix::mixer::MultiSampler;
use drummix::AudioError;
use drummix::AudioFormat;
use drummix::SampleKind;

fn wav_bytes_i16(channels: u16, sample_rate: u32, samples: &[i16]) -> Vec<u8> {
    let spec = hound::WavSpec {
        channels,
        sample_rate,
        bits_per_sample: 16,
        sample_format: hound::SampleFormat::Int,
    };
    let mut cursor = std::io::Cursor::new(Vec::new());
    {
        let mut writer = hound::WavWriter::new(&mut cursor, spec).unwrap();
        for s in samples {
            writer.write_sample(*s).unwrap();
        }
        writer.finalize().unwrap();
    }
    cursor.into_inner()
}

fn wav_bytes_f32(channels: u16, sample_rate: u32, samples: &[f32]) -> Vec<u8> {
    let spec = hound::WavSpec {
        channels,
        sample_rate,
        bits_per_sample: 32,
        sample_format: hound::SampleFormat::Float,
    };
    let mut cursor = std::io::Cursor::new(Vec::new());
    {
        let mut writer = hound::WavWriter::new(&mut cursor, spec).unwrap();
        for s in samples {
            writer.write_sample(*s).unwrap();
        }
        writer.finalize().unwrap();
    }
    cursor.into_inner()
}

fn fixed_mono() -> AudioFormat {
    AudioFormat { channels: 1, sample_rate: 8000, kind: SampleKind::FixedPoint16 }
}

#[test]
fn active_count_tracks_unexhausted_registrations() {
    let mut registry = MultiSampler::new(fixed_mono());
    assert_eq!(registry.active_samplers(), 0);
    registry.register(wav_bytes_i16(1, 8000, &[100, 200, 300])).unwrap();
    registry.register(wav_bytes_i16(1, 8000, &[40])).unwrap();
    assert_eq!(registry.active_samplers(), 2);

    // Both streams have a sample pending: each is scaled by 1/2.
    assert_eq!(registry.sample(), 70);
    assert_eq!(registry.active_samplers(), 2);

    // The short stream is exhausted mid-pass: it contributes nothing, the
    // other still splits by the pass-start count of 2, and the exhausted
    // stream is removed at the end of the pass.
    assert_eq!(registry.sample(), 100);
    assert_eq!(registry.active_samplers(), 1);

    // A single stream passes through unscaled.
    assert_eq!(registry.sample(), 300);
    assert_eq!(registry.active_samplers(), 1);

    // Now the long stream reports exhaustion too.
    assert_eq!(registry.sample(), 0);
    assert_eq!(registry.active_samplers(), 0);
    assert_eq!(registry.clipped_passes(), 0);
}

#[test]
fn mismatched_format_is_rejected_and_set_unchanged() {
    let mut registry = MultiSampler::new(fixed_mono());
    registry.register(wav_bytes_i16(1, 8000, &[7])).unwrap();
    let result = registry.register(wav_bytes_i16(2, 44100, &[1, 2]));
    assert_eq!(
        result,
        Err(AudioError::FormatMismatch(
            fixed_mono(),
            AudioFormat { channels: 2, sample_rate: 44100, kind: SampleKind::FixedPoint16 },
        ))
    );
    assert_eq!(registry.active_samplers(), 1);
    assert_eq!(registry.sample(), 7);
}

#[test]
fn single_stream_passes_through_until_exhaustion() {
    let mut registry = MultiSampler::new(fixed_mono());
    registry.register(wav_bytes_i16(1, 8000, &[123, -456])).unwrap();
    assert_eq!(registry.sample(), 123);
    assert_eq!(registry.sample(), -456);
    assert_eq!(registry.active_samplers(), 1);
    assert_eq!(registry.sample(), 0);
    assert_eq!(registry.active_samplers(), 0);
    assert_eq!(registry.sample(), 0);
    assert_eq!(registry.clipped_passes(), 0);
}

#[test]
fn two_minimum_streams_saturate_and_clip() {
    let mut registry = MultiSampler::new(fixed_mono());
    registry.register(wav_bytes_i16(1, 8000, &[i16::MIN])).unwrap();
    registry.register(wav_bytes_i16(1, 8000, &[i16::MIN])).unwrap();
    // -16384 + -16384 reaches the bound exactly: saturated, no wrap-around.
    assert_eq!(registry.sample(), i16::MIN);
    assert_eq!(registry.clipped_passes(), 1);
}

#[test]
fn two_maximum_streams_saturate_and_clip() {
    let mut registry = MultiSampler::new(fixed_mono());
    registry.register(wav_bytes_i16(1, 8000, &[i16::MAX])).unwrap();
    registry.register(wav_bytes_i16(1, 8000, &[i16::MAX])).unwrap();
    // Rounded scaling halves 32767 to 16384 for each stream; their sum would
    // be 32768, so the pass saturates at the maximum and registers clipping.
    assert_eq!(registry.sample(), i16::MAX);
    assert_eq!(registry.clipped_passes(), 1);
}

#[test]
fn clipping_counter_grows_once_per_saturated_pass() {
    let mut registry = MultiSampler::new(fixed_mono());
    registry.register(wav_bytes_i16(1, 8000, &[i16::MIN, i16::MIN, 100])).unwrap();
    registry.register(wav_bytes_i16(1, 8000, &[i16::MIN, i16::MIN, 100])).unwrap();
    assert_eq!(registry.sample(), i16::MIN);
    assert_eq!(registry.sample(), i16::MIN);
    assert_eq!(registry.clipped_passes(), 2);
    assert_eq!(registry.sample(), 100);
    assert_eq!(registry.clipped_passes(), 2);
}

#[test]
fn two_equal_streams_mix_back_to_the_same_value() {
    let mut registry = MultiSampler::new(fixed_mono());
    registry.register(wav_bytes_i16(1, 8000, &[-10000, 600])).unwrap();
    registry.register(wav_bytes_i16(1, 8000, &[-10000, 600])).unwrap();
    assert_eq!(registry.sample(), -10000);
    assert_eq!(registry.sample(), 600);
    assert_eq!(registry.clipped_passes(), 0);
}

#[test]
fn mix_pass_sums_scaled_slots_left_to_right() {
    assert_eq!(mix_pass::<i16>(&vec![Some(100), Some(50)]), 75);
    assert_eq!(mix_pass::<i16>(&vec![Some(100), None, Some(50), None]), 38);
    assert_eq!(mix_pass::<i16>(&Vec::new()), 0);
    assert_eq!(mix_pass::<i16>(&vec![None, None]), 0);
}

#[test]
fn undecodable_bytes_are_reported_and_ignored() {
    let mut registry = MultiSampler::new(fixed_mono());
    assert_eq!(registry.register(vec![1, 2, 3, 4]), Err(AudioError::UndecodableSource));
    assert_eq!(registry.register(Vec::new()), Err(AudioError::UndecodableSource));
    assert_eq!(registry.active_samplers(), 0);
}

#[test]
fn unsupported_bit_depth_is_reported_at_registration() {
    let spec = hound::WavSpec {
        channels: 1,
        sample_rate: 8000,
        bits_per_sample: 8,
        sample_format: hound::SampleFormat::Int,
    };
    let mut cursor = std::io::Cursor::new(Vec::new());
    {
        let mut writer = hound::WavWriter::new(&mut cursor, spec).unwrap();
        writer.write_sample(5i8).unwrap();
        writer.finalize().unwrap();
    }
    let mut registry = MultiSampler::new(fixed_mono());
    assert_eq!(
        registry.register(cursor.into_inner()),
        Err(AudioError::UnsupportedSampleRepresentation)
    );
    assert_eq!(registry.active_samplers(), 0);
}

#[test]
fn corrupt_tail_truncates_the_stream_silently() {
    let mut bytes = wav_bytes_i16(1, 8000, &[10, 20, 30, 40]);
    // Cut the last sample's bytes: the header still parses, and the decode
    // failure at the missing sample reads as exhaustion, not an error.
    bytes.truncate(bytes.len() - 2);
    let mut registry = MultiSampler::new(fixed_mono());
    registry.register(bytes).unwrap();
    assert_eq!(registry.sample(), 10);
    assert_eq!(registry.sample(), 20);
    assert_eq!(registry.sample(), 30);
    assert_eq!(registry.sample(), 0);
    assert_eq!(registry.active_samplers(), 0);
}

#[test]
fn float_registry_accepts_matching_float_sources() {
    let common = AudioFormat { channels: 2, sample_rate: 44100, kind: SampleKind::Float32 };
    let mut registry = MultiSampler::new(common);
    registry.register(wav_bytes_f32(2, 44100, &[0.5, 0.5])).unwrap();
    assert_eq!(registry.active_samplers(), 1);
    let result = registry.register(wav_bytes_i16(2, 44100, &[1, 2]));
    assert_eq!(
        result,
        Err(AudioError::FormatMismatch(
            common,
            AudioFormat { channels: 2, sample_rate: 44100, kind: SampleKind::FixedPoint16 },
        ))
    );
}

#[test]
fn end_to_end_fixed_point_scenario() {
    // Negotiate a stereo 44.1 kHz fixed-point format from a source's header,
    // register two half-scale streams, and mix one pass per channel slot:
    // each sample is halved and the halves sum back to half scale, with no
    // clipping observed.
    let bytes_a = wav_bytes_i16(2, 44100, &[16384, 16384]);
    let bytes_b = wav_bytes_i16(2, 44100, &[16384, 16384]);
    let probe = Sampler::open(bytes_a.clone()).unwrap();
    let common = probe.format;
    assert_eq!(
        common,
        AudioFormat { channels: 2, sample_rate: 44100, kind: SampleKind::FixedPoint16 }
    );
    let mut registry = MultiSampler::new(common);
    registry.register(bytes_a).unwrap();
    registry.register(bytes_b).unwrap();
    assert_eq!(registry.sample(), 16384);
    assert_eq!(registry.sample(), 16384);
    assert_eq!(registry.clipped_passes(), 0);
    assert_eq!(registry.active_samplers(), 2);
}

#[test]
fn add_reader_rejects_mismatch_before_wrapping() {
    let mut registry = MultiSampler::new(fixed_mono());
    let stream = Sampler::open(wav_bytes_i16(2, 22050, &[9, 9])).unwrap();
    let actual = stream.format;
    assert_eq!(registry.add_reader(stream), Err(AudioError::FormatMismatch(fixed_mono(), actual)));
    let stream = Sampler::open(wav_bytes_i16(1, 8000, &[9])).unwrap();
    assert_eq!(registry.add_reader(stream), Ok(()));
    assert_eq!(registry.active_samplers(), 1);
}
