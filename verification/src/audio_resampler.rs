//! Linear-interpolation sample-rate conversion with re-chunking.
//!
//! Source positions are computed in exact integer arithmetic; only the
//! weighting of two neighbouring samples is left to the caller, which knows
//! the arithmetic of its sample type.

use vstd::prelude::*;
use crate::frames::{frame_views, lemma_flatten_append};

verus! {

/// Number of samples produced from `input_len` input samples.
pub open spec fn resampled_len(input_len: nat, input_rate: nat, output_rate: nat) -> nat
    recommends
        input_rate > 0,
{
    (input_len * output_rate) / input_rate
}

/// Index of the input sample at or just before output sample `i`.
pub open spec fn source_floor(i: nat, input_rate: nat, output_rate: nat) -> nat
    recommends
        output_rate > 0,
{
    (i * input_rate) / output_rate
}

/// Index of the input sample just after output sample `i`, held at the last
/// input sample so that the tail is extended flat.
pub open spec fn source_ceil(i: nat, input_rate: nat, output_rate: nat, input_len: nat) -> nat
    recommends
        output_rate > 0,
        input_len > 0,
{
    let next = source_floor(i, input_rate, output_rate) + 1;
    if next < input_len { next } else { (input_len - 1) as nat }
}

/// Distance of output sample `i` past its floor sample, in units of
/// `1 / output_rate` of an input sample.
pub open spec fn source_offset(i: nat, input_rate: nat, output_rate: nat) -> nat
    recommends
        output_rate > 0,
{
    (i * input_rate) % output_rate
}

/// Whether `sample` is an admissible value for output sample `i`: the floor
/// sample itself when the position falls exactly on it, otherwise a result of
/// `blend` on the two neighbours and the offset between them.
pub open spec fn sample_matches<T, F: Fn(T, T, u32, u32) -> T>(
    input: Seq<T>,
    input_rate: nat,
    output_rate: nat,
    blend: F,
    i: nat,
    sample: T,
) -> bool {
    let low = input[source_floor(i, input_rate, output_rate) as int];
    let high = input[source_ceil(i, input_rate, output_rate, input.len()) as int];
    let offset = source_offset(i, input_rate, output_rate);
    if offset == 0 {
        sample == low
    } else {
        blend.ensures((low, high, offset as u32, output_rate as u32), sample)
    }
}

/// Whether `output` is a resampling of `input` from `input_rate` to `output_rate`.
pub open spec fn is_resampling<T, F: Fn(T, T, u32, u32) -> T>(
    input: Seq<T>,
    input_rate: nat,
    output_rate: nat,
    blend: F,
    output: Seq<T>,
) -> bool {
    &&& output.len() == resampled_len(input.len(), input_rate, output_rate)
    &&& forall|i: int|
        0 <= i < output.len() ==> sample_matches(
            input,
            input_rate,
            output_rate,
            blend,
            i as nat,
            #[trigger] output[i],
        )
}

/// The full frames of `size` samples that `samples` splits into, in order.
pub open spec fn full_chunks<T>(samples: Seq<T>, size: nat) -> Seq<Seq<T>>
    recommends
        size > 0,
{
    Seq::new(samples.len() / size, |k: int| samples.subrange(k * size, k * size + size))
}

/// The samples left over after the full frames of `size` samples are taken.
pub open spec fn leftover<T>(samples: Seq<T>, size: nat) -> Seq<T>
    recommends
        size > 0,
{
    samples.subrange(((samples.len() / size) * size) as int, samples.len() as int)
}

/// Whether converting `input` with `carry` left over from earlier calls can
/// give the full frames `frames` and leave `remaining` for the next call.
pub open spec fn resamples_into<T, F: Fn(T, T, u32, u32) -> T>(
    carry: Seq<T>,
    input: Seq<T>,
    input_rate: nat,
    output_rate: nat,
    blend: F,
    size: nat,
    frames: Seq<Seq<T>>,
    remaining: Seq<T>,
) -> bool {
    exists|converted: Seq<T>|
        {
            &&& #[trigger] is_resampling(input, input_rate, output_rate, blend, converted)
            &&& frames == full_chunks(carry + converted, size)
            &&& remaining == leftover(carry + converted, size)
        }
}

/// Number of frames that become full when `produced` samples join `carried`
/// samples left over from earlier calls.
pub open spec fn frames_filled(carried: nat, produced: nat, size: nat) -> nat
    recommends
        size > 0,
{
    (carried + produced) / size
}

/// Number of samples left over when `produced` samples join `carried` ones.
pub open spec fn samples_carried(carried: nat, produced: nat, size: nat) -> nat
    recommends
        size > 0,
{
    (carried + produced) % size
}

/// Number of samples left over after `calls` calls that each convert to
/// `produced` samples.
pub open spec fn carried_after_calls(carried: nat, produced: nat, size: nat, calls: nat) -> nat
    decreases calls,
{
    if calls == 0 {
        carried
    } else {
        samples_carried(
            carried_after_calls(carried, produced, size, (calls - 1) as nat),
            produced,
            size,
        )
    }
}

/// Number of samples handed out in frames by `calls` calls that each
/// convert to `produced` samples.
pub open spec fn emitted_after_calls(carried: nat, produced: nat, size: nat, calls: nat) -> nat
    decreases calls,
{
    if calls == 0 {
        0
    } else {
        emitted_after_calls(carried, produced, size, (calls - 1) as nat) + frames_filled(
            carried_after_calls(carried, produced, size, (calls - 1) as nat),
            produced,
            size,
        ) * size
    }
}

/// Stateful sample-rate converter that emits fixed-size frames.
pub struct AudioResampler<T> {
    input_rate: u32,
    output_rate: u32,
    channels: u16,
    buffer: Vec<T>,
    target_chunk_size: usize,
}

impl<T: Copy> AudioResampler<T> {
    /// Rate of the audio handed to [`Self::resample`].
    pub closed spec fn input_rate(&self) -> nat {
        self.input_rate as nat
    }

    /// Rate of the audio in the frames that come out.
    pub closed spec fn output_rate(&self) -> nat {
        self.output_rate as nat
    }

    /// Channel count the converter was configured with. Samples are treated
    /// as one undifferentiated stream whatever this says.
    pub closed spec fn channel_count(&self) -> nat {
        self.channels as nat
    }

    /// Number of samples in each frame that comes out.
    pub closed spec fn chunk_size(&self) -> nat {
        self.target_chunk_size as nat
    }

    /// Converted samples not yet emitted because they do not fill a frame.
    pub closed spec fn carry(&self) -> Seq<T> {
        self.buffer@
    }

    /// Creates a converter with an empty carry-over.
    pub fn new(input_rate: u32, output_rate: u32, channels: u16, target_chunk_size: usize) -> (resampler: Self)
        ensures
            resampler.input_rate() == input_rate,
            resampler.output_rate() == output_rate,
            resampler.channel_count() == channels,
            resampler.chunk_size() == target_chunk_size,
            resampler.carry() == Seq::<T>::empty(),
    {
        AudioResampler { input_rate, output_rate, channels, buffer: Vec::new(), target_chunk_size }
    }

    /// Number of converted samples waiting for a frame to fill.
    pub fn pending(&self) -> (count: usize)
        ensures
            count == self.carry().len(),
    {
        self.buffer.len()
    }

    /// Number of samples that `input_len` input samples convert to, or `None`
    /// when the input rate is zero or the count does not fit beside the
    /// carry-over.
    pub fn output_len(&self, input_len: usize) -> (count: Option<usize>)
        ensures
            match count {
                Some(n) => {
                    &&& self.input_rate() > 0
                    &&& n == resampled_len(input_len as nat, self.input_rate(), self.output_rate())
                    &&& self.carry().len() + n <= usize::MAX
                },
                None => self.input_rate() == 0 || self.carry().len() + resampled_len(
                    input_len as nat,
                    self.input_rate(),
                    self.output_rate(),
                ) > usize::MAX,
            },
    {
        if self.input_rate == 0 {
            return None;
        }
        proof {
            lemma_scaled_fits(input_len as nat, self.output_rate as nat);
        }
        let scaled: u128 = (input_len as u128) * (self.output_rate as u128);
        assert(scaled == (input_len as nat) * self.output_rate()) by (nonlinear_arith)
            requires
                scaled == (input_len as u128) * (self.output_rate as u128),
                self.output_rate() == self.output_rate as nat,
        ;
        let count: u128 = scaled / (self.input_rate as u128);
        let room: usize = usize::MAX - self.buffer.len();
        if count > room as u128 {
            None
        } else {
            Some(count as usize)
        }
    }

    /// Converts `input` and returns the frames that became full.
    ///
    /// The converted samples are appended to the carry-over, which is then
    /// cut into frames of the configured size; what does not fill a frame
    /// stays for the next call.
    pub fn resample<F: Fn(T, T, u32, u32) -> T>(&mut self, input: &[T], blend: F) -> (chunks: Vec<Vec<T>>)
        requires
            old(self).input_rate() > 0,
            old(self).chunk_size() > 0,
            old(self).carry().len() + resampled_len(
                input@.len(),
                old(self).input_rate(),
                old(self).output_rate(),
            ) <= usize::MAX,
            forall|low: T, high: T, offset: u32, scale: u32|
                0 < offset < scale ==> blend.requires((low, high, offset, scale)),
        ensures
            final(self).input_rate() == old(self).input_rate(),
            final(self).output_rate() == old(self).output_rate(),
            final(self).channel_count() == old(self).channel_count(),
            final(self).chunk_size() == old(self).chunk_size(),
            resamples_into(
                old(self).carry(),
                input@,
                old(self).input_rate(),
                old(self).output_rate(),
                blend,
                old(self).chunk_size(),
                frame_views(chunks@),
                final(self).carry(),
            ),
            old(self).input_rate() == old(self).output_rate() ==> frame_views(chunks@).flatten()
                + final(self).carry() == old(self).carry() + input@,
            frame_views(chunks@).flatten().len() + final(self).carry().len() == old(self).carry().len() + resampled_len(
                input@.len(),
                old(self).input_rate(),
                old(self).output_rate(),
            ),
            frame_views(chunks@).len() == frames_filled(
                old(self).carry().len(),
                resampled_len(input@.len(), old(self).input_rate(), old(self).output_rate()),
                old(self).chunk_size(),
            ),
            final(self).carry().len() == samples_carried(
                old(self).carry().len(),
                resampled_len(input@.len(), old(self).input_rate(), old(self).output_rate()),
                old(self).chunk_size(),
            ),
    {
        let ghost carry = self.buffer@;
        let converted = self.convert(input, blend);
        proof {
            if self.input_rate == self.output_rate {
                lemma_equal_rates_copy_input(input@, self.input_rate as nat, blend, converted@);
            }
        }
        let mut converted = converted;
        self.buffer.append(&mut converted);
        let ghost all = self.buffer@;
        let chunks = self.take_full_chunks();
        proof {
            lemma_chunks_rejoin(all, self.target_chunk_size as nat);
        }
        chunks
    }

    /// Converts `input` without touching the carry-over.
    fn convert<F: Fn(T, T, u32, u32) -> T>(&self, input: &[T], blend: F) -> (converted: Vec<T>)
        requires
            self.input_rate() > 0,
            resampled_len(input@.len(), self.input_rate(), self.output_rate()) <= usize::MAX,
            forall|low: T, high: T, offset: u32, scale: u32|
                0 < offset < scale ==> blend.requires((low, high, offset, scale)),
        ensures
            is_resampling(input@, self.input_rate(), self.output_rate(), blend, converted@),
    {
        let input_rate: u128 = self.input_rate as u128;
        let output_rate: u128 = self.output_rate as u128;
        proof {
            lemma_scaled_fits(input.len() as nat, output_rate as nat);
        }
        let scaled: u128 = (input.len() as u128) * output_rate;
        assert(scaled == input@.len() * self.output_rate()) by (nonlinear_arith)
            requires
                scaled == (input.len() as u128) * output_rate,
                output_rate == self.output_rate(),
                input.len() == input@.len(),
        ;
        let output_len: usize = (scaled / input_rate) as usize;
        let mut converted: Vec<T> = Vec::new();
        let mut i: usize = 0;
        while i < output_len
            invariant
                i <= output_len,
                input_rate == self.input_rate(),
                output_rate == self.output_rate(),
                input_rate > 0,
                input_rate <= u32::MAX,
                output_rate <= u32::MAX,
                output_len == resampled_len(input@.len(), self.input_rate(), self.output_rate()),
                converted@.len() == i,
                forall|low: T, high: T, offset: u32, scale: u32|
                    0 < offset < scale ==> blend.requires((low, high, offset, scale)),
                forall|j: int|
                    0 <= j < i ==> sample_matches(
                        input@,
                        self.input_rate(),
                        self.output_rate(),
                        blend,
                        j as nat,
                        #[trigger] converted@[j],
                    ),
            decreases output_len - i,
        {
            proof {
                lemma_source_in_bounds(
                    i as nat,
                    input@.len(),
                    self.input_rate(),
                    self.output_rate(),
                );
            }
            proof {
                lemma_scaled_fits(i as nat, input_rate as nat);
            }
            let position: u128 = (i as u128) * input_rate;
            let floor: usize = (position / output_rate) as usize;
            let offset: u32 = (position % output_rate) as u32;
            let ceil: usize = if floor + 1 < input.len() {
                floor + 1
            } else {
                input.len() - 1
            };
            let sample = if offset == 0 {
                input[floor]
            } else {
                blend(input[floor], input[ceil], offset, self.output_rate)
            };
            converted.push(sample);
            i += 1;
        }
        converted
    }

    /// Cuts the carry-over into full frames and keeps the remainder.
    fn take_full_chunks(&mut self) -> (chunks: Vec<Vec<T>>)
        requires
            old(self).chunk_size() > 0,
        ensures
            final(self).input_rate() == old(self).input_rate(),
            final(self).output_rate() == old(self).output_rate(),
            final(self).channel_count() == old(self).channel_count(),
            final(self).chunk_size() == old(self).chunk_size(),
            frame_views(chunks@) == full_chunks(old(self).carry(), old(self).chunk_size()),
            final(self).carry() == leftover(old(self).carry(), old(self).chunk_size()),
    {
        let ghost all = self.buffer@;
        let size: usize = self.target_chunk_size;
        let mut chunks: Vec<Vec<T>> = Vec::new();
        let mut rest: Vec<T> = Vec::new();
        std::mem::swap(&mut rest, &mut self.buffer);
        assert(chunks@.len() * size == 0) by (nonlinear_arith)
            requires
                chunks@.len() == 0,
        ;
        while rest.len() >= size
            invariant
                size > 0,
                size == self.target_chunk_size,
                self.input_rate == old(self).input_rate,
                self.output_rate == old(self).output_rate,
                self.channels == old(self).channels,
                self.target_chunk_size == old(self).target_chunk_size,
                chunks@.len() * size + rest@.len() == all.len(),
                rest@ == all.subrange(chunks@.len() * size, all.len() as int),
                forall|k: int|
                    0 <= k < chunks@.len() ==> (#[trigger] chunks@[k])@ == all.subrange(
                        k * size,
                        k * size + size,
                    ),
            decreases rest.len(),
        {
            let ghost done = chunks@.len();
            let tail = rest.split_off(size);
            assert(tail@ =~= all.subrange((done + 1) * size, all.len() as int)) by {
                assert((done + 1) * size == done * size + size) by (nonlinear_arith);
            }
            assert((done + 1) * size + tail@.len() == all.len()) by (nonlinear_arith)
                requires
                    done * size + size + tail@.len() == all.len(),
            ;
            chunks.push(rest);
            rest = tail;
        }
        self.buffer = rest;
        proof {
            let count = chunks@.len();
            assert(count == all.len() / (size as nat) && count * size == (all.len() / (
            size as nat)) * size) by (nonlinear_arith)
                requires
                    count * size + rest@.len() == all.len(),
                    rest@.len() < size,
                    size > 0,
            ;
        }
        chunks
    }
}

/// A sample count scaled by a rate fits in 128 bits.
proof fn lemma_scaled_fits(count: nat, rate: nat)
    requires
        count <= usize::MAX,
        rate <= u32::MAX,
    ensures
        count * rate <= u128::MAX,
{
    assert(count * rate <= 0xFFFF_FFFF_FFFF_FFFF * 0xFFFF_FFFF) by (nonlinear_arith)
        requires
            count <= 0xFFFF_FFFF_FFFF_FFFF,
            rate <= 0xFFFF_FFFF,
    ;
}

/// Every output position of a resampling lies inside the input.
pub proof fn lemma_source_in_bounds(i: nat, input_len: nat, input_rate: nat, output_rate: nat)
    requires
        input_rate > 0,
        i < resampled_len(input_len, input_rate, output_rate),
    ensures
        output_rate > 0,
        input_len > 0,
        source_floor(i, input_rate, output_rate) < input_len,
        source_ceil(i, input_rate, output_rate, input_len) < input_len,
        source_offset(i, input_rate, output_rate) < output_rate,
{
    let total = input_len * output_rate;
    assert(output_rate > 0 && input_len > 0) by (nonlinear_arith)
        requires
            total == input_len * output_rate,
            i < total / input_rate,
            input_rate > 0,
    ;
    assert(i * input_rate < total) by (nonlinear_arith)
        requires
            i < total / input_rate,
            input_rate > 0,
    ;
    assert((i * input_rate) / output_rate < input_len) by (nonlinear_arith)
        requires
            i * input_rate < input_len * output_rate,
            output_rate > 0,
    ;
    assert((i * input_rate) % output_rate < output_rate) by (nonlinear_arith)
        requires
            output_rate > 0,
    ;
}

/// With equal rates a resampling is the input itself, sample for sample.
pub proof fn lemma_equal_rates_copy_input<T, F: Fn(T, T, u32, u32) -> T>(
    input: Seq<T>,
    rate: nat,
    blend: F,
    output: Seq<T>,
)
    requires
        rate > 0,
        is_resampling(input, rate, rate, blend, output),
    ensures
        output == input,
{
    assert(resampled_len(input.len(), rate, rate) == input.len()) by (nonlinear_arith)
        requires
            rate > 0,
    ;
    assert forall|i: int| 0 <= i < output.len() implies output[i] == input[i] by {
        assert(source_floor(i as nat, rate, rate) == i && source_offset(i as nat, rate, rate) == 0)
            by (nonlinear_arith)
            requires
                rate > 0,
                i >= 0,
        ;
    }
}

/// The inputs of a run of calls, one after the other.
pub open spec fn all_inputs<T>(inputs: Seq<Seq<T>>) -> Seq<T>
    decreases inputs.len(),
{
    if inputs.len() == 0 {
        Seq::empty()
    } else {
        all_inputs(inputs.drop_last()) + inputs.last()
    }
}

/// The samples handed out in frames by a run of calls, one after the other.
pub open spec fn all_frames<T>(frames: Seq<Seq<Seq<T>>>) -> Seq<T>
    decreases frames.len(),
{
    if frames.len() == 0 {
        Seq::empty()
    } else {
        all_frames(frames.drop_last()) + frames.last().flatten()
    }
}

/// Whether a run of calls loses nothing: in each call the frames handed out
/// and the samples carried on are the samples carried in followed by the
/// input. This is what [`AudioResampler::resample`] ensures of each call at
/// equal rates.
pub open spec fn lossless_calls<T>(
    carried: Seq<T>,
    inputs: Seq<Seq<T>>,
    frames: Seq<Seq<Seq<T>>>,
    carries: Seq<Seq<T>>,
) -> bool {
    &&& frames.len() == inputs.len()
    &&& carries.len() == inputs.len()
    &&& forall|i: int|
        0 <= i < inputs.len() ==> (#[trigger] frames[i]).flatten() + carries[i] == (if i == 0 {
            carried
        } else {
            carries[i - 1]
        }) + inputs[i]
}

/// At equal rates conversion is lossless up to chunking: over any run of
/// calls, the frames handed out followed by what is still carried are the
/// inputs, sample for sample, after what was carried in at the start.
pub proof fn lemma_equal_rates_lossless<T>(
    carried: Seq<T>,
    inputs: Seq<Seq<T>>,
    frames: Seq<Seq<Seq<T>>>,
    carries: Seq<Seq<T>>,
)
    requires
        lossless_calls(carried, inputs, frames, carries),
    ensures
        all_frames(frames) + (if inputs.len() == 0 {
            carried
        } else {
            carries.last()
        }) == carried + all_inputs(inputs),
    decreases inputs.len(),
{
    if inputs.len() > 0 {
        let n = inputs.len() - 1;
        assert(lossless_calls(carried, inputs.drop_last(), frames.drop_last(), carries.drop_last()))
            by {
            assert forall|i: int| 0 <= i < n implies (#[trigger] frames.drop_last()[i]).flatten()
                + carries.drop_last()[i] == (if i == 0 {
                carried
            } else {
                carries.drop_last()[i - 1]
            }) + inputs.drop_last()[i] by {
            }
        }
        lemma_equal_rates_lossless(
            carried,
            inputs.drop_last(),
            frames.drop_last(),
            carries.drop_last(),
        );
        let before = if n == 0 {
            carried
        } else {
            carries[n - 1]
        };
        let earlier = all_frames(frames.drop_last());
        let filled = frames[n].flatten();
        assert((earlier + filled) + carries[n] =~= earlier + (filled + carries[n]));
        assert(earlier + (before + inputs[n]) =~= (earlier + before) + inputs[n]);
    }
}

/// Over repeated calls nothing is lost and nothing is made up: the samples
/// handed out in frames and the samples still carried add up to what the
/// calls converted, and less than one frame is ever carried. The number of
/// samples handed out therefore stays within one frame of `calls * produced`.
pub proof fn lemma_emitted_tracks_converted(carried: nat, produced: nat, size: nat, calls: nat)
    requires
        size > 0,
        carried < size,
    ensures
        emitted_after_calls(carried, produced, size, calls) + carried_after_calls(
            carried,
            produced,
            size,
            calls,
        ) == carried + calls * produced,
        carried_after_calls(carried, produced, size, calls) < size,
        carried == 0 ==> calls * produced - size < emitted_after_calls(
            carried,
            produced,
            size,
            calls,
        ) <= calls * produced,
    decreases calls,
{
    if calls > 0 {
        let before = (calls - 1) as nat;
        lemma_emitted_tracks_converted(carried, produced, size, before);
        let left = carried_after_calls(carried, produced, size, before);
        assert(((left + produced) / size) * size + (left + produced) % size == left + produced
            && (left + produced) % size < size) by (nonlinear_arith)
            requires
                size > 0,
        ;
        assert(calls * produced == before * produced + produced) by (nonlinear_arith)
            requires
                calls == before + 1,
        ;
    } else {
        assert(calls * produced == 0) by (nonlinear_arith)
            requires
                calls == 0,
        ;
    }
}

/// Full frames followed by the leftover are the samples given, and the
/// leftover is shorter than a frame.
pub proof fn lemma_chunks_rejoin<T>(samples: Seq<T>, size: nat)
    requires
        size > 0,
    ensures
        full_chunks(samples, size).flatten() + leftover(samples, size) == samples,
        full_chunks(samples, size).flatten().len() == (samples.len() / size) * size,
        leftover(samples, size).len() == samples.len() % size,
        leftover(samples, size).len() < size,
{
    let count = samples.len() / size;
    assert(count * size <= samples.len() && samples.len() - count * size == samples.len() % size
        && samples.len() % size < size) by (nonlinear_arith)
        requires
            count == samples.len() / size,
            size > 0,
    ;
    lemma_chunk_prefix(samples, size, count);
    assert(full_chunks(samples, size).take(count as int) =~= full_chunks(samples, size));
}

/// The first `count` full frames concatenate to the first `count * size` samples.
proof fn lemma_chunk_prefix<T>(samples: Seq<T>, size: nat, count: nat)
    requires
        size > 0,
        count <= samples.len() / size,
    ensures
        count * size <= samples.len(),
        full_chunks(samples, size).take(count as int).flatten() == samples.subrange(
            0,
            (count * size) as int,
        ),
    decreases count,
{
    assert(count * size <= samples.len()) by (nonlinear_arith)
        requires
            count <= samples.len() / size,
            size > 0,
    ;
    let chunks = full_chunks(samples, size);
    if count == 0 {
        assert(count * size == 0) by (nonlinear_arith)
            requires
                count == 0,
        ;
    } else {
        let before = (count - 1) as nat;
        lemma_chunk_prefix(samples, size, before);
        assert(before * size + size == count * size) by (nonlinear_arith)
            requires
                before + 1 == count,
        ;
        lemma_flatten_append(chunks.take(before as int), chunks[before as int]);
        assert(chunks.take(before as int).push(chunks[before as int]) =~= chunks.take(count as int));
    }
}

} // verus!
