//! The mixer registry: the collection of live sample streams sharing one
//! common format, and the per-pass summation that pulls one sample from each
//! stream, scales it by the pass-start stream count, and accumulates with
//! saturation. Streams that report exhaustion during a pass are removed at
//! the end of that pass and never reappear.

use vstd::prelude::*;

use crate::decode::wav_decodable;
use crate::decode::wav_header_meta;
use crate::decode::wav_initial_samples;
use crate::decode::Sampler;
use crate::format::spec_derived_format;
use crate::format::AudioError;
use crate::format::AudioFormat;
use crate::sample::Sample;

verus! {

/// The sample a stream contributes to one pass: its first pending sample, or
/// nothing when it is exhausted.
pub open spec fn spec_current_slot(stream: Seq<i16>) -> Option<i16> {
    if stream.len() > 0 {
        Some(stream[0])
    } else {
        None
    }
}

/// The samples the registered streams contribute to one pass, in order.
pub open spec fn spec_current_slots(streams: Seq<Seq<i16>>) -> Seq<Option<i16>> {
    streams.map_values(|s: Seq<i16>| spec_current_slot(s))
}

/// What one pass leaves of a stream: a stream with a sample pending survives,
/// advanced past that sample; an exhausted stream is removed.
pub open spec fn spec_advance_live(stream: Seq<i16>) -> Option<Seq<i16>> {
    if stream.len() > 0 {
        Some(stream.drop_first())
    } else {
        None
    }
}

/// What one pass leaves of the registry: exactly the streams that had a
/// sample pending, in order, each advanced past the sample it contributed.
pub open spec fn spec_pass_survivors(streams: Seq<Seq<i16>>) -> Seq<Seq<i16>> {
    streams.filter_map(|s: Seq<i16>| spec_advance_live(s))
}

/// The number of streams that have a sample pending.
pub open spec fn spec_live_count(streams: Seq<Seq<i16>>) -> nat {
    streams.filter(|s: Seq<i16>| s.len() > 0).len()
}

/// The left-to-right saturating accumulation of one pass: each contributed
/// sample is scaled by `1 / n` and added with saturation, in stream order;
/// exhausted slots contribute nothing.
pub open spec fn spec_mix_fold<S: Sample>(slots: Seq<Option<S>>, n: int) -> S
    decreases slots.len(),
{
    if slots.len() == 0 {
        S::spec_zero()
    } else {
        let prev = spec_mix_fold(slots.drop_last(), n);
        match slots.last() {
            Some(v) => prev.spec_clipping_add(v.spec_scaled(n)),
            None => prev,
        }
    }
}

/// How the clipping diagnostic advances after a pass: it counts the passes
/// whose final sum sat at the representation's amplitude bound, and holds at
/// its maximum rather than wrapping.
pub open spec fn spec_bump_clip(count: u64, clipped: bool) -> u64 {
    if clipped && count < u64::MAX {
        (count + 1) as u64
    } else {
        count
    }
}

/// One summation pass over the samples pulled at pass start, generic in the
/// sample representation: an equal-weight scaled, saturating, left-to-right
/// sum, where `slots` holds one entry per stream present at pass start.
pub fn mix_pass<S: Sample>(slots: &Vec<Option<S>>) -> (result: S)
    requires
        slots@.len() > 0 ==> S::spec_scale_ok(slots@.len() as int),
    ensures
        result == spec_mix_fold(slots@, slots@.len() as int),
{
    let count = slots.len();
    let mut acc = S::zero();
    let mut idx: usize = 0;
    proof {
        assert(slots@.take(0) =~= Seq::<Option<S>>::empty());
    }
    while idx < count
        invariant
            count == slots@.len(),
            idx <= count,
            count > 0 ==> S::spec_scale_ok(count as int),
            acc == spec_mix_fold(slots@.take(idx as int), count as int),
        decreases count - idx,
    {
        match slots[idx] {
            Some(v) => {
                acc = acc.clipping_add(v.scale_for(count));
            },
            None => {},
        }
        proof {
            assert(slots@.take(idx + 1).drop_last() =~= slots@.take(idx as int));
            assert(slots@.take(idx + 1).last() == slots@[idx as int]);
        }
        idx = idx + 1;
    }
    proof {
        assert(slots@.take(count as int) =~= slots@);
    }
    acc
}

/// The registry of live sample streams: a common format fixed at
/// construction, the mutable collection of streams, and the clipping
/// diagnostic. The surrounding application shares one registry between the
/// audio callback thread and the producer threads under a single lock.
pub struct MultiSampler {
    samplers: Vec<Sampler>,
    common_format: AudioFormat,
    clipped_passes: u64,
}

impl MultiSampler {
    /// The pending sample sequences of the registered streams, in insertion
    /// order.
    pub closed spec fn streams(self) -> Seq<Seq<i16>> {
        self.samplers@.map_values(|s: Sampler| s.pending())
    }

    /// The format fixed at construction.
    pub closed spec fn spec_common_format(self) -> AudioFormat {
        self.common_format
    }

    /// How many passes have sat at the amplitude bound so far.
    pub closed spec fn spec_clipped_passes(self) -> u64 {
        self.clipped_passes
    }

    /// The registry's invariant: every registered stream's format equals the
    /// common format. Registration rejects a mismatch, so mixing never sees
    /// one.
    pub closed spec fn wf(self) -> bool {
        forall|i: int|
            0 <= i < self.samplers@.len() ==> (#[trigger] self.samplers@[i]).format
                == self.common_format
    }

    /// An empty registry bound to the given common format.
    pub fn new(format: AudioFormat) -> (result: MultiSampler)
        ensures
            result.streams() == Seq::<Seq<i16>>::empty(),
            result.spec_common_format() == format,
            result.spec_clipped_passes() == 0,
            result.wf(),
    {
        let registry = MultiSampler { samplers: Vec::new(), common_format: format, clipped_passes: 0 };
        proof {
            assert(registry.streams() =~= Seq::<Seq<i16>>::empty());
        }
        registry
    }

    /// The number of currently active streams.
    pub fn active_samplers(&self) -> (result: usize)
        ensures
            result == self.streams().len(),
    {
        self.samplers.len()
    }

    /// The common format every registered stream matches.
    pub fn common_format(&self) -> (result: AudioFormat)
        ensures
            result == self.spec_common_format(),
    {
        self.common_format
    }

    /// How many mixing passes have sat at the amplitude bound so far: the
    /// observable clipping diagnostic. Clipping never fails a pass.
    pub fn clipped_passes(&self) -> (result: u64)
        ensures
            result == self.spec_clipped_passes(),
    {
        self.clipped_passes
    }

    /// Adds a stream to the registry. Fails with `FormatMismatch` exactly
    /// when the stream's format differs from the common format, and a failure
    /// never changes the active set.
    pub fn add_reader(&mut self, reader: Sampler) -> (result: Result<(), AudioError>)
        ensures
            final(self).spec_common_format() == old(self).spec_common_format(),
            final(self).spec_clipped_passes() == old(self).spec_clipped_passes(),
            old(self).wf() ==> final(self).wf(),
            match result {
                Ok(()) => reader.format == old(self).spec_common_format() && final(self).streams()
                    == old(self).streams().push(reader.pending()),
                Err(e) => reader.format != old(self).spec_common_format() && e
                    == AudioError::FormatMismatch(old(self).spec_common_format(), reader.format)
                    && final(self).streams() == old(self).streams(),
            },
    {
        if !(reader.format == self.common_format) {
            return Err(AudioError::FormatMismatch(self.common_format, reader.format));
        }
        let ghost pending = reader.pending();
        self.samplers.push(reader);
        proof {
            assert(self.streams() =~= old(self).streams().push(pending));
        }
        Ok(())
    }

    /// Registers a source held in memory: decodes its header, rejects it when
    /// its format differs from the common format, and otherwise wraps it in a
    /// stream and appends it to the active set. This is the sole mutation
    /// entry point available to producer threads. It succeeds exactly when
    /// the bytes decode, their representation is supported, and their derived
    /// format equals the common format — then the new stream's samples are
    /// the bytes' own — and every failure names its cause and leaves the
    /// active set unchanged.
    pub fn register(&mut self, bytes: Vec<u8>) -> (result: Result<(), AudioError>)
        ensures
            final(self).spec_common_format() == old(self).spec_common_format(),
            final(self).spec_clipped_passes() == old(self).spec_clipped_passes(),
            old(self).wf() ==> final(self).wf(),
            match result {
                Ok(()) => {
                    &&& wav_decodable(bytes@)
                    &&& spec_derived_format(wav_header_meta(bytes@)) == Some(
                        old(self).spec_common_format(),
                    )
                    &&& final(self).streams() == old(self).streams().push(
                        wav_initial_samples(bytes@),
                    )
                },
                Err(e) => final(self).streams() == old(self).streams() && (
                if !wav_decodable(bytes@) {
                    e == AudioError::UndecodableSource
                } else {
                    match spec_derived_format(wav_header_meta(bytes@)) {
                        None => e == AudioError::UnsupportedSampleRepresentation,
                        Some(actual) => actual != old(self).spec_common_format() && e
                            == AudioError::FormatMismatch(old(self).spec_common_format(), actual),
                    }
                }),
            },
    {
        let stream = match Sampler::open(bytes) {
            Ok(s) => s,
            Err(e) => {
                return Err(e);
            },
        };
        match self.add_reader(stream) {
            Ok(()) => Ok(()),
            Err(e) => Err(e),
        }
    }

    /// One mixing pass: pulls one sample from every stream present at pass
    /// start, scales each by one over the pass-start stream count, sums with
    /// saturation in stream order, removes the streams that reported
    /// exhaustion, and counts the pass if the sum sat at the amplitude bound.
    /// An empty registry yields the representation's zero.
    ///
    /// The stream count must fit the fixed-point divisor range; the caller
    /// reads `active_samplers` first.
    pub fn sample(&mut self) -> (result: i16)
        requires
            old(self).streams().len() <= i16::MAX as int,
        ensures
            final(self).spec_common_format() == old(self).spec_common_format(),
            old(self).wf() ==> final(self).wf(),
            result == spec_mix_fold(
                spec_current_slots(old(self).streams()),
                old(self).streams().len() as int,
            ),
            final(self).streams() == spec_pass_survivors(old(self).streams()),
            final(self).spec_clipped_passes() == spec_bump_clip(
                old(self).spec_clipped_passes(),
                result.spec_is_clipping(),
            ),
    {
        let count = self.samplers.len();
        proof {
            assert(old(self).streams().len() == count);
        }
        // Pull one sample from every stream, in place and in order; each pull
        // costs one decoder step, so the whole pass is linear in the stream
        // count — this runs on the real-time callback path.
        let mut pulled: Vec<Option<i16>> = Vec::new();
        let mut idx: usize = 0;
        while idx < count
            invariant
                idx <= count,
                count == self.samplers@.len(),
                count == old(self).samplers@.len(),
                self.common_format == old(self).common_format,
                self.clipped_passes == old(self).clipped_passes,
                pulled@.len() == idx,
                forall|j: int| idx <= j < count ==> self.samplers@[j] == old(self).samplers@[j],
                forall|j: int|
                    0 <= j < count ==> (#[trigger] self.samplers@[j]).format == old(
                        self,
                    ).samplers@[j].format,
                forall|j: int|
                    0 <= j < idx ==> #[trigger] pulled@[j] == spec_current_slot(
                        old(self).streams()[j],
                    ),
                forall|j: int|
                    0 <= j < idx ==> (pulled@[j] is Some ==> (#[trigger] self.samplers@[j]).pending()
                        == old(self).streams()[j].drop_first()),
            decreases count - idx,
        {
            let value = self.samplers[idx].sample();
            pulled.push(value);
            idx = idx + 1;
        }
        proof {
            assert(pulled@ =~= spec_current_slots(old(self).streams()));
        }
        let result = mix_pass(&pulled);
        let ghost advanced = self.samplers@;

        // Remove the streams that reported exhaustion, keeping the others in
        // order: empty the list from its end onto a stack, then take them
        // back off in original order and keep the live ones.
        let mut stack: Vec<Sampler> = Vec::new();
        proof {
            assert(self.samplers@ =~= advanced.take(count as int));
        }
        while self.samplers.len() > 0
            invariant
                self.samplers@.len() + stack@.len() == count,
                advanced.len() == count,
                self.samplers@ == advanced.take(self.samplers@.len() as int),
                forall|i: int|
                    0 <= i < stack@.len() ==> #[trigger] stack@[i] == advanced[count - 1 - i],
                self.common_format == old(self).common_format,
                self.clipped_passes == old(self).clipped_passes,
            decreases self.samplers@.len(),
        {
            let survivor = self.samplers.pop().unwrap();
            stack.push(survivor);
        }
        let mut j: usize = 0;
        proof {
            assert(old(self).streams().take(0).filter_map(
                |s: Seq<i16>| spec_advance_live(s),
            ) =~= Seq::<Seq<i16>>::empty());
            assert(self.samplers@.map_values(|smp: Sampler| smp.pending()) =~= Seq::<
                Seq<i16>,
            >::empty());
        }
        while j < count
            invariant
                j + stack@.len() == count,
                advanced.len() == count,
                pulled@.len() == count,
                count == old(self).samplers@.len(),
                forall|i: int|
                    0 <= i < stack@.len() ==> #[trigger] stack@[i] == advanced[count - 1 - i],
                forall|j2: int|
                    0 <= j2 < count ==> #[trigger] pulled@[j2] == spec_current_slot(
                        old(self).streams()[j2],
                    ),
                forall|j2: int|
                    0 <= j2 < count ==> (pulled@[j2] is Some ==> (#[trigger] advanced[j2]).pending()
                        == old(self).streams()[j2].drop_first()),
                forall|j2: int|
                    0 <= j2 < count ==> (#[trigger] advanced[j2]).format == old(
                        self,
                    ).samplers@[j2].format,
                self.common_format == old(self).common_format,
                self.clipped_passes == old(self).clipped_passes,
                self.samplers@.map_values(|smp: Sampler| smp.pending()) == old(
                    self,
                ).streams().take(j as int).filter_map(|s: Seq<i16>| spec_advance_live(s)),
                old(self).wf() ==> forall|k: int|
                    0 <= k < self.samplers@.len() ==> (#[trigger] self.samplers@[k]).format
                        == self.common_format,
            decreases count - j,
        {
            let ghost prev_view = self.samplers@;
            let current = stack.pop().unwrap();
            proof {
                assert(current == advanced[j as int]);
            }
            if pulled[j].is_some() {
                self.samplers.push(current);
            }
            proof {
                old(self).streams().lemma_filter_map_take_succ(
                    |s: Seq<i16>| spec_advance_live(s),
                    j as int,
                );
                if pulled@[j as int] is Some {
                    assert(self.samplers@.map_values(|smp: Sampler| smp.pending())
                        =~= prev_view.map_values(|smp: Sampler| smp.pending()) + seq![
                        current.pending()
                    ]);
                } else {
                    assert(old(self).streams()[j as int].len() == 0);
                }
                assert(self.samplers@.map_values(|smp: Sampler| smp.pending()) =~= old(
                    self,
                ).streams().take(j + 1).filter_map(|s: Seq<i16>| spec_advance_live(s)));
            }
            j = j + 1;
        }
        proof {
            assert(old(self).streams().take(count as int) =~= old(self).streams());
        }
        if result.is_clipping() {
            if self.clipped_passes < u64::MAX {
                self.clipped_passes = self.clipped_passes + 1;
            }
        }
        result
    }
}

/// After every mixing pass the active count equals the number of registered
/// streams that were not yet exhausted at pass start: exactly the streams
/// with a sample pending survive the pass.
pub proof fn lemma_pass_count_tracks_live_streams(streams: Seq<Seq<i16>>)
    ensures
        spec_pass_survivors(streams).len() == spec_live_count(streams),
    decreases streams.len(),
{
    reveal(Seq::filter);
    if streams.len() == 0 {
        assert(streams.filter(|s: Seq<i16>| s.len() > 0) =~= Seq::<Seq<i16>>::empty());
    } else {
        lemma_pass_count_tracks_live_streams(streams.drop_last());
    }
}

/// What the registry holds after a sequence of operations: each entry of
/// `events` is either one successful registration, carrying the new stream's
/// pending samples (`Some`), or one complete mixing pass (`None`). A failed
/// registration is absent because it changes nothing, as `add_reader` and
/// `register` ensure.
pub open spec fn spec_apply_events(
    streams: Seq<Seq<i16>>,
    events: Seq<Option<Seq<i16>>>,
) -> Seq<Seq<i16>>
    decreases events.len(),
{
    if events.len() == 0 {
        streams
    } else {
        let next = match events.first() {
            Some(stream) => streams.push(stream),
            None => spec_pass_survivors(streams),
        };
        spec_apply_events(next, events.drop_first())
    }
}

/// How many streams a sequence of operations registers.
pub open spec fn spec_count_registered(events: Seq<Option<Seq<i16>>>) -> int
    decreases events.len(),
{
    if events.len() == 0 {
        0
    } else {
        (if events.first() is Some {
            1int
        } else {
            0int
        }) + spec_count_registered(events.drop_first())
    }
}

/// How many streams report exhaustion over a sequence of operations: at each
/// pass, the streams then present without a sample pending.
pub open spec fn spec_count_exhausted(
    streams: Seq<Seq<i16>>,
    events: Seq<Option<Seq<i16>>>,
) -> int
    decreases events.len(),
{
    if events.len() == 0 {
        0
    } else {
        match events.first() {
            Some(stream) => spec_count_exhausted(streams.push(stream), events.drop_first()),
            None => (streams.len() - spec_live_count(streams)) + spec_count_exhausted(
                spec_pass_survivors(streams),
                events.drop_first(),
            ),
        }
    }
}

/// Over any interleaving of registrations and mixing passes, the number of
/// streams the registry holds equals the starting count, plus the streams
/// registered, minus the streams that reported exhaustion during a pass: a
/// successful registration adds exactly one stream, and each pass removes
/// exactly the streams that were already exhausted when it started.
pub proof fn lemma_active_count_over_interleavings(
    streams: Seq<Seq<i16>>,
    events: Seq<Option<Seq<i16>>>,
)
    ensures
        spec_apply_events(streams, events).len() + spec_count_exhausted(streams, events)
            == streams.len() + spec_count_registered(events),
    decreases events.len(),
{
    if events.len() > 0 {
        match events.first() {
            Some(stream) => {
                lemma_active_count_over_interleavings(streams.push(stream), events.drop_first());
            },
            None => {
                lemma_pass_count_tracks_live_streams(streams);
                lemma_active_count_over_interleavings(
                    spec_pass_survivors(streams),
                    events.drop_first(),
                );
            },
        }
    }
}

/// A pass removes exactly the streams that reported exhaustion and keeps the
/// others, in order, each advanced past the sample it contributed: the
/// survivors are the streams that had a sample pending, each less its first
/// sample. An exhausted stream is gone from every later pass, since passes
/// only advance or remove streams and registration only appends new ones.
pub proof fn lemma_survivors_are_advanced_live_streams(streams: Seq<Seq<i16>>)
    ensures
        spec_pass_survivors(streams) == streams.filter(|s: Seq<i16>| s.len() > 0).map_values(
            |s: Seq<i16>| s.drop_first(),
        ),
    decreases streams.len(),
{
    reveal(Seq::filter);
    if streams.len() == 0 {
        assert(streams.filter(|s: Seq<i16>| s.len() > 0) =~= Seq::<Seq<i16>>::empty());
        assert(spec_pass_survivors(streams) =~= Seq::<Seq<i16>>::empty());
    } else {
        lemma_survivors_are_advanced_live_streams(streams.drop_last());
        let live = |s: Seq<i16>| s.len() > 0;
        let advance = |s: Seq<i16>| s.drop_first();
        if streams.last().len() > 0 {
            assert(streams.filter(live).map_values(advance) =~= streams.drop_last().filter(
                live,
            ).map_values(advance) + seq![streams.last().drop_first()]);
        }
        assert(spec_pass_survivors(streams) =~= streams.filter(live).map_values(advance));
    }
}

/// With a single active stream, a pass hands that stream's own sample through
/// unchanged: scaling by one over a count of one is the identity, and adding
/// it to the zero accumulator cannot saturate. With no active stream a pass
/// yields the representation's zero.
pub proof fn lemma_single_stream_passthrough(value: i16)
    ensures
        spec_mix_fold(seq![Some(value)], 1) == value,
        forall|n: int| spec_mix_fold(Seq::<Option<i16>>::empty(), n) == 0i16,
{
    vstd::arithmetic::div_mod::lemma_div_basics(value as int);
    vstd::arithmetic::div_mod::lemma_div_basics(-(value as int));
    assert(value.spec_scaled(1) == value);
    let single = seq![Some(value)];
    assert(single.drop_last() =~= Seq::<Option<i16>>::empty());
    assert(single.last() == Some(value));
    assert(spec_mix_fold(Seq::<Option<i16>>::empty(), 1) == 0i16);
    assert(spec_mix_fold(single, 1) == (0i16).spec_clipping_add(value.spec_scaled(1)));
}

/// Two concurrently active streams emitting the same even-valued sample mix
/// back to exactly that sample, not twice it: equal-weight scaling halves
/// each contribution, the halves sum to the original value, and a value the
/// representation holds cannot saturate.
pub proof fn lemma_two_equal_streams_mix_to_same(value: i16)
    requires
        value % 2 == 0,
    ensures
        spec_mix_fold(seq![Some(value), Some(value)], 2) == value,
{
    let half: i16 = (value / 2) as i16;
    assert(value.spec_scaled(2) == half) by {
        vstd::arithmetic::div_mod::lemma_div_multiples_vanish(half as int, 2);
        vstd::arithmetic::div_mod::lemma_div_multiples_vanish(-(half as int), 2);
        vstd::arithmetic::div_mod::lemma_fundamental_div_mod(value as int, 2);
    }
    let pair = seq![Some(value), Some(value)];
    assert(pair.drop_last() =~= seq![Some(value)]);
    assert(seq![Some(value)].drop_last() =~= Seq::<Option<i16>>::empty());
    assert(spec_mix_fold(Seq::<Option<i16>>::empty(), 2) == 0i16);
    assert(seq![Some(value)].last() == Some(value));
    assert(spec_mix_fold(seq![Some(value)], 2) == (0i16).spec_clipping_add(half));
    assert(pair.last() == Some(value));
    assert(spec_mix_fold(pair, 2) == half.spec_clipping_add(half));
}

/// Two streams at either full-scale bound saturate the pass at that bound —
/// the sum does not wrap around — and the result registers as clipping:
/// rounded equal-weight scaling halves each contribution to half scale, and
/// the saturating add pins their sum at the bound.
pub proof fn lemma_full_scale_pair_saturates()
    ensures
        spec_mix_fold(seq![Some(i16::MIN), Some(i16::MIN)], 2) == i16::MIN,
        (i16::MIN).spec_is_clipping(),
        spec_mix_fold(seq![Some(i16::MAX), Some(i16::MAX)], 2) == i16::MAX,
        (i16::MAX).spec_is_clipping(),
{
    assert((i16::MIN).spec_scaled(2) == -16384) by {
        assert(32769int / 2 == 16384);
    }
    assert((i16::MAX).spec_scaled(2) == 16384) by {
        assert(32768int / 2 == 16384);
    }
    let lows = seq![Some(i16::MIN), Some(i16::MIN)];
    let highs = seq![Some(i16::MAX), Some(i16::MAX)];
    assert(lows.drop_last() =~= seq![Some(i16::MIN)]);
    assert(highs.drop_last() =~= seq![Some(i16::MAX)]);
    assert(seq![Some(i16::MIN)].drop_last() =~= Seq::<Option<i16>>::empty());
    assert(seq![Some(i16::MAX)].drop_last() =~= Seq::<Option<i16>>::empty());
    assert(spec_mix_fold(Seq::<Option<i16>>::empty(), 2) == 0i16);
    assert(seq![Some(i16::MIN)].last() == Some(i16::MIN));
    assert(spec_mix_fold(seq![Some(i16::MIN)], 2) == (0i16).spec_clipping_add(-16384i16));
    assert(lows.last() == Some(i16::MIN));
    assert(spec_mix_fold(lows, 2) == (-16384i16).spec_clipping_add(-16384i16));
    assert(seq![Some(i16::MAX)].last() == Some(i16::MAX));
    assert(spec_mix_fold(seq![Some(i16::MAX)], 2) == (0i16).spec_clipping_add(16384i16));
    assert(highs.last() == Some(i16::MAX));
    assert(spec_mix_fold(highs, 2) == (16384i16).spec_clipping_add(16384i16));
}

} // verus!
