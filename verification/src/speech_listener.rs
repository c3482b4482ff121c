//! The listening state machine: wait for the wake word, gather the
//! utterance that follows, hand it over when it has ended.

use vstd::prelude::*;
use crate::audio_resampler::{resampled_len, resamples_into, AudioResampler};
use crate::endpointing::{
    admissible_verdicts, endpoint_frames, EndOfSpeechDetector, EndOfSpeechResult,
    EndpointOutcome, InProgressSpeechState, SpeechConfigError, SpeechProgress,
};
use crate::frames::frame_views;
use crate::rolling_buffer::{frames_to_cover, push_frames, RollingBuffer};

verus! {

/// Sample rate of the audio the pipeline works on.
pub const SAMPLE_RATE: u32 = 16000;

/// Number of samples in each frame the pipeline works on.
pub const CHUNK_SIZE: usize = 512;

/// Duration in nanoseconds of one working frame.
pub const CHUNK_NANOS: u64 = 32_000_000;

/// What the pipeline hands to the transcription stage.
pub enum SpeechEvent<T> {
    /// A complete utterance: pre-roll followed by the gathered audio.
    SpeechDetected(Vec<T>),
}

impl<T> SpeechEvent<T> {
    /// The samples of the utterance.
    pub open spec fn view(&self) -> Seq<T> {
        match self {
            SpeechEvent::SpeechDetected(audio) => audio@,
        }
    }

    /// Gives up the samples of the utterance.
    pub fn into_audio(self) -> (audio: Vec<T>)
        ensures
            audio@ == self@,
    {
        match self {
            SpeechEvent::SpeechDetected(audio) => audio,
        }
    }
}

/// The two states of the listener, as a mathematical value.
pub enum ListenerView<T> {
    /// Idle; frames go to the pre-roll buffer.
    WaitingForWakeWord,
    /// Gathering an utterance.
    ListeningForEndOfSpeech(SpeechProgress<T>),
}

/// The two states of the listener. Exactly one is live at a time, and the
/// utterance in progress is owned by the state.
pub enum SpeechListenerState<T> {
    /// Idle; frames go to the pre-roll buffer.
    WaitingForWakeWord,
    /// Gathering an utterance.
    ListeningForEndOfSpeech(InProgressSpeechState<T>),
}

impl<T> SpeechListenerState<T> {
    /// The state as a mathematical value.
    pub open spec fn view(&self) -> ListenerView<T> {
        match self {
            SpeechListenerState::WaitingForWakeWord => ListenerView::WaitingForWakeWord,
            SpeechListenerState::ListeningForEndOfSpeech(speech) => {
                ListenerView::ListeningForEndOfSpeech(speech@)
            },
        }
    }
}

impl<T> Default for SpeechListenerState<T> {
    fn default() -> (state: Self)
        ensures
            state@ == ListenerView::<T>::WaitingForWakeWord,
    {
        SpeechListenerState::WaitingForWakeWord
    }
}

/// What the state machine remembers between frames, as a mathematical value.
pub struct PipelineView<T> {
    /// The listener state.
    pub listener: ListenerView<T>,
    /// The frames in the pre-roll buffer, oldest first.
    pub buffered: Seq<Seq<T>>,
}

/// One step of the state machine on the working-rate frames of one capture
/// buffer: the state afterwards and the utterance handed over, if any.
///
/// While waiting, the frames go to the pre-roll buffer; when the wake word
/// fires the buffer is drained into a new utterance. While listening, the
/// wake-word verdict is ignored and the frames that have a verdict are
/// endpointed.
pub open spec fn pipeline_step<T>(
    before: PipelineView<T>,
    capacity: nat,
    frames: Seq<Seq<T>>,
    wake_word_detected: bool,
    verdicts: Seq<bool>,
    silence_frames: nat,
    frame_duration: nat,
) -> (PipelineView<T>, Option<Seq<T>>) {
    match before.listener {
        ListenerView::WaitingForWakeWord => {
            let buffered = push_frames(before.buffered, capacity, frames);
            if wake_word_detected {
                (
                    PipelineView {
                        listener: ListenerView::ListeningForEndOfSpeech(
                            SpeechProgress {
                                duration: 0,
                                audio: buffered.flatten(),
                                window: Seq::empty(),
                            },
                        ),
                        buffered: Seq::empty(),
                    },
                    None,
                )
            } else {
                (PipelineView { listener: ListenerView::WaitingForWakeWord, buffered }, None)
            }
        },
        ListenerView::ListeningForEndOfSpeech(progress) => {
            match endpoint_frames(
                progress,
                frames.take(verdicts.len() as int),
                verdicts,
                silence_frames,
                frame_duration,
            ) {
                EndpointOutcome::StillListening(updated) => (
                    PipelineView {
                        listener: ListenerView::ListeningForEndOfSpeech(updated),
                        buffered: before.buffered,
                    },
                    None,
                ),
                EndpointOutcome::SpeechEnded { audio, duration } => (
                    PipelineView {
                        listener: ListenerView::WaitingForWakeWord,
                        buffered: before.buffered,
                    },
                    Some(audio),
                ),
            }
        },
    }
}

/// The samples of an optional event.
pub open spec fn event_audio<T>(event: Option<SpeechEvent<T>>) -> Option<Seq<T>> {
    match event {
        Some(e) => Some(e@),
        None => None,
    }
}

/// The audio ingestion state machine, driven once per capture buffer.
pub struct SpeechPipeline<T> {
    state: SpeechListenerState<T>,
    audio_resampler: AudioResampler<T>,
    end_of_speech_detector: EndOfSpeechDetector,
    rolling_buffer: RollingBuffer<T>,
    chunk_duration: u64,
}

impl<T: Copy> SpeechPipeline<T> {
    /// Listener state and pre-roll buffer.
    pub closed spec fn view(&self) -> PipelineView<T> {
        PipelineView { listener: self.state@, buffered: self.rolling_buffer@ }
    }

    /// Number of frames the pre-roll buffer retains.
    pub closed spec fn pre_roll_capacity(&self) -> nat {
        self.rolling_buffer.capacity()
    }

    /// Number of consecutive silent frames that fill the endpointing window.
    pub closed spec fn silence_frames(&self) -> nat {
        self.end_of_speech_detector.silence_frames()
    }

    /// Duration in nanoseconds of one working frame.
    pub closed spec fn frame_duration(&self) -> nat {
        self.end_of_speech_detector.frame_duration()
    }

    /// Sample rate of the capture device.
    pub closed spec fn input_rate(&self) -> nat {
        self.audio_resampler.input_rate()
    }

    /// Converted samples that do not yet fill a working frame.
    pub closed spec fn carry(&self) -> Seq<T> {
        self.audio_resampler.carry()
    }

    /// The pipeline is consistently configured.
    pub closed spec fn wf(&self) -> bool {
        &&& self.rolling_buffer.wf()
        &&& self.audio_resampler.input_rate() > 0
        &&& self.audio_resampler.output_rate() == SAMPLE_RATE
        &&& self.audio_resampler.chunk_size() == CHUNK_SIZE
        &&& self.chunk_duration == CHUNK_NANOS
        &&& self.end_of_speech_detector.frame_duration() == CHUNK_NANOS
    }

    /// Creates a pipeline for a capture device that delivers `input_rate`
    /// samples per second. An utterance ends after `silence_nanos`
    /// nanoseconds of silence; `rolling_buffer_nanos` nanoseconds of audio
    /// before the wake word are kept as pre-roll.
    pub fn new(input_rate: u32, channels: u16, silence_nanos: u64, rolling_buffer_nanos: u64) -> (pipeline:
        Result<Self, SpeechConfigError>)
        ensures
            match pipeline {
                Ok(p) => {
                    &&& input_rate > 0
                    &&& p.wf()
                    &&& p@.listener == ListenerView::<T>::WaitingForWakeWord
                    &&& p@.buffered == Seq::<Seq<T>>::empty()
                    &&& p.carry() == Seq::<T>::empty()
                    &&& p.input_rate() == input_rate
                    &&& p.frame_duration() == CHUNK_NANOS
                    &&& p.silence_frames() == frames_to_cover(
                        silence_nanos as nat,
                        CHUNK_NANOS as nat,
                    )
                    &&& p.pre_roll_capacity() == frames_to_cover(
                        rolling_buffer_nanos as nat,
                        CHUNK_NANOS as nat,
                    )
                },
                Err(e) => input_rate == 0 && e == SpeechConfigError::ZeroSampleRate,
            },
    {
        if input_rate == 0 {
            return Err(SpeechConfigError::ZeroSampleRate);
        }
        let audio_resampler = AudioResampler::new(input_rate, SAMPLE_RATE, channels, CHUNK_SIZE);
        let end_of_speech_detector = match EndOfSpeechDetector::new(
            SAMPLE_RATE,
            CHUNK_SIZE,
            silence_nanos,
        ) {
            Ok(detector) => detector,
            Err(_) => {
                return Err(SpeechConfigError::ZeroSampleRate);
            },
        };
        let chunk_duration: u64 = end_of_speech_detector.chunk_duration();
        let rolling_buffer = RollingBuffer::new(rolling_buffer_nanos, chunk_duration);
        Ok(
            SpeechPipeline {
                state: SpeechListenerState::WaitingForWakeWord,
                audio_resampler,
                end_of_speech_detector,
                rolling_buffer,
                chunk_duration,
            },
        )
    }

    /// Duration in nanoseconds of one working frame.
    pub fn chunk_duration(&self) -> (nanos: u64)
        requires
            self.wf(),
        ensures
            nanos == self.frame_duration(),
            nanos == CHUNK_NANOS,
    {
        self.chunk_duration
    }

    /// Whether the pipeline is gathering an utterance.
    pub fn is_listening(&self) -> (listening: bool)
        ensures
            listening == (self@.listener is ListeningForEndOfSpeech),
    {
        match &self.state {
            SpeechListenerState::WaitingForWakeWord => false,
            SpeechListenerState::ListeningForEndOfSpeech(_) => true,
        }
    }

    /// Number of frames in the pre-roll buffer.
    pub fn buffered_chunks(&self) -> (count: usize)
        ensures
            count == self@.buffered.len(),
    {
        self.rolling_buffer.len()
    }

    /// Number of samples that `input_len` captured samples convert to, or
    /// `None` when that count does not fit beside the carry-over.
    pub fn converted_len(&self, input_len: usize) -> (count: Option<usize>)
        requires
            self.wf(),
        ensures
            match count {
                Some(n) => n == resampled_len(
                    input_len as nat,
                    self.input_rate(),
                    SAMPLE_RATE as nat,
                ) && self.carry().len() + n <= usize::MAX,
                None => self.carry().len() + resampled_len(
                    input_len as nat,
                    self.input_rate(),
                    SAMPLE_RATE as nat,
                ) > usize::MAX,
            },
    {
        self.audio_resampler.output_len(input_len)
    }

    /// Advances the state machine by one capture buffer.
    ///
    /// `wake_word_detected` is the wake-word verdict on `raw_data`; it has to
    /// be obtained for every buffer, whichever state consumes it. `is_speech`
    /// gives the voice-activity verdict on a working frame and is asked only
    /// while an utterance is being gathered.
    pub fn process<B: Fn(T, T, u32, u32) -> T, V: Fn(&Vec<T>) -> bool>(
        &mut self,
        raw_data: &[T],
        blend: B,
        wake_word_detected: bool,
        is_speech: V,
    ) -> (event: Option<SpeechEvent<T>>)
        requires
            old(self).wf(),
            old(self).carry().len() + resampled_len(
                raw_data@.len(),
                old(self).input_rate(),
                SAMPLE_RATE as nat,
            ) <= usize::MAX,
            forall|low: T, high: T, offset: u32, scale: u32|
                0 < offset < scale ==> blend.requires((low, high, offset, scale)),
            forall|chunk: &Vec<T>| is_speech.requires((chunk,)),
        ensures
            final(self).wf(),
            final(self).input_rate() == old(self).input_rate(),
            final(self).pre_roll_capacity() == old(self).pre_roll_capacity(),
            final(self).silence_frames() == old(self).silence_frames(),
            final(self).frame_duration() == old(self).frame_duration(),
            old(self)@.listener is WaitingForWakeWord ==> event is None,
            exists|chunks: Seq<Vec<T>>, verdicts: Seq<bool>|
                {
                    &&& resamples_into(
                        old(self).carry(),
                        raw_data@,
                        old(self).input_rate(),
                        SAMPLE_RATE as nat,
                        blend,
                        CHUNK_SIZE as nat,
                        frame_views(chunks),
                        final(self).carry(),
                    )
                    &&& match old(self)@.listener {
                        ListenerView::WaitingForWakeWord => verdicts.len() == 0,
                        ListenerView::ListeningForEndOfSpeech(progress) => admissible_verdicts(
                            progress,
                            chunks,
                            verdicts,
                            is_speech,
                            old(self).silence_frames(),
                            old(self).frame_duration(),
                        ),
                    }
                    &&& #[trigger] pipeline_step(
                        old(self)@,
                        old(self).pre_roll_capacity(),
                        frame_views(chunks),
                        wake_word_detected,
                        verdicts,
                        old(self).silence_frames(),
                        old(self).frame_duration(),
                    ) == (final(self)@, event_audio(event))
                },
    {
        let chunks = self.audio_resampler.resample(raw_data, blend);
        let ghost frames = chunks@;
        let mut state = SpeechListenerState::WaitingForWakeWord;
        std::mem::swap(&mut state, &mut self.state);
        match state {
            SpeechListenerState::WaitingForWakeWord => {
                self.buffer_chunks(chunks);
                if wake_word_detected {
                    let preceding_audio = self.rolling_buffer.drain_flat();
                    self.state = SpeechListenerState::ListeningForEndOfSpeech(
                        InProgressSpeechState::new(preceding_audio),
                    );
                }
                proof {
                    let verdicts = Seq::<bool>::empty();
                    assert(pipeline_step(
                        old(self)@,
                        old(self).pre_roll_capacity(),
                        frame_views(frames),
                        wake_word_detected,
                        verdicts,
                        old(self).silence_frames(),
                        old(self).frame_duration(),
                    ) == (self@, event_audio::<T>(None)));
                }
                None
            },
            SpeechListenerState::ListeningForEndOfSpeech(in_progress) => {
                let ghost progress = in_progress@;
                let outcome = self.end_of_speech_detector.process_chunks(
                    chunks,
                    in_progress,
                    is_speech,
                );
                let ghost verdicts = choose|verdicts: Seq<bool>|
                    admissible_verdicts(
                        progress,
                        frames,
                        verdicts,
                        is_speech,
                        self.end_of_speech_detector.silence_frames(),
                        self.end_of_speech_detector.frame_duration(),
                    ) && outcome@ == endpoint_frames(
                        progress,
                        frame_views(frames).take(verdicts.len() as int),
                        verdicts,
                        self.end_of_speech_detector.silence_frames(),
                        self.end_of_speech_detector.frame_duration(),
                    );
                let event = match outcome {
                    EndOfSpeechResult::StillListening(updated) => {
                        self.state = SpeechListenerState::ListeningForEndOfSpeech(updated);
                        None
                    },
                    EndOfSpeechResult::SpeechEnded { audio_data, duration } => {
                        Some(SpeechEvent::SpeechDetected(audio_data))
                    },
                };
                proof {
                    assert(pipeline_step(
                        old(self)@,
                        old(self).pre_roll_capacity(),
                        frame_views(frames),
                        wake_word_detected,
                        verdicts,
                        old(self).silence_frames(),
                        old(self).frame_duration(),
                    ) == (self@, event_audio(event)));
                }
                event
            },
        }
    }

    /// Pushes every frame of `chunks`, in order, into the pre-roll buffer.
    fn buffer_chunks(&mut self, chunks: Vec<Vec<T>>)
        requires
            old(self).rolling_buffer.wf(),
        ensures
            final(self).rolling_buffer@ == push_frames(
                old(self).rolling_buffer@,
                old(self).rolling_buffer.capacity(),
                frame_views(chunks@),
            ),
            final(self).rolling_buffer.capacity() == old(self).rolling_buffer.capacity(),
            final(self).rolling_buffer.wf(),
            final(self).state == old(self).state,
            final(self).audio_resampler == old(self).audio_resampler,
            final(self).end_of_speech_detector == old(self).end_of_speech_detector,
            final(self).chunk_duration == old(self).chunk_duration,
    {
        let ghost all = frame_views(chunks@);
        let mut pending = chunks;
        let mut i: usize = 0;
        while i < pending.len()
            invariant
                all == frame_views(chunks@),
                i <= pending.len(),
                pending.len() == all.len(),
                forall|j: int| i <= j < pending.len() ==> (#[trigger] pending@[j])@ == all[j],
                self.rolling_buffer.wf(),
                self.rolling_buffer.capacity() == old(self).rolling_buffer.capacity(),
                self.rolling_buffer@ == push_frames(
                    old(self).rolling_buffer@,
                    old(self).rolling_buffer.capacity(),
                    all.take(i as int),
                ),
                self.state == old(self).state,
                self.audio_resampler == old(self).audio_resampler,
                self.end_of_speech_detector == old(self).end_of_speech_detector,
                self.chunk_duration == old(self).chunk_duration,
            decreases pending.len() - i,
        {
            let mut chunk: Vec<T> = Vec::new();
            std::mem::swap(&mut chunk, &mut pending[i]);
            proof {
                assert(all.take(i + 1).drop_last() =~= all.take(i as int));
            }
            self.rolling_buffer.push(chunk);
            i += 1;
        }
        assert(all.take(all.len() as int) =~= all);
    }
}

/// What one capture buffer contributes to the state machine.
pub struct PipelineInput<T> {
    /// The working-rate frames that became full.
    pub frames: Seq<Seq<T>>,
    /// The wake-word verdict on the buffer.
    pub wake_word_detected: bool,
    /// The voice-activity verdicts on the leading frames.
    pub verdicts: Seq<bool>,
}

/// The state after a run of capture buffers, and the utterances handed over
/// on the way, oldest first.
pub open spec fn pipeline_run<T>(
    start: PipelineView<T>,
    capacity: nat,
    inputs: Seq<PipelineInput<T>>,
    silence_frames: nat,
    frame_duration: nat,
) -> (PipelineView<T>, Seq<Seq<T>>)
    decreases inputs.len(),
{
    if inputs.len() == 0 {
        (start, Seq::empty())
    } else {
        let (middle, events) = pipeline_run(
            start,
            capacity,
            inputs.drop_last(),
            silence_frames,
            frame_duration,
        );
        let input = inputs.last();
        let (end, event) = pipeline_step(
            middle,
            capacity,
            input.frames,
            input.wake_word_detected,
            input.verdicts,
            silence_frames,
            frame_duration,
        );
        match event {
            Some(audio) => (end, events.push(audio)),
            None => (end, events),
        }
    }
}

/// Endpointing only ever adds to the gathered audio: whether the utterance
/// goes on or ends, what it holds begins with what was gathered before.
pub proof fn lemma_endpointing_extends_audio<T>(
    progress: SpeechProgress<T>,
    frames: Seq<Seq<T>>,
    verdicts: Seq<bool>,
    silence_frames: nat,
    frame_duration: nat,
)
    ensures
        match endpoint_frames(progress, frames, verdicts, silence_frames, frame_duration) {
            EndpointOutcome::StillListening(updated) => progress.audio.is_prefix_of(updated.audio),
            EndpointOutcome::SpeechEnded { audio, duration } => progress.audio.is_prefix_of(audio),
        },
    decreases frames.len(),
{
    if frames.len() > 0 {
        lemma_endpointing_extends_audio(
            progress,
            frames.drop_last(),
            verdicts.drop_last(),
            silence_frames,
            frame_duration,
        );
    }
}

/// While the pipeline waits for the wake word and the wake word does not
/// fire, no utterance is handed over, whatever the audio holds.
pub proof fn lemma_no_event_without_wake_word<T>(
    start: PipelineView<T>,
    capacity: nat,
    inputs: Seq<PipelineInput<T>>,
    silence_frames: nat,
    frame_duration: nat,
)
    requires
        start.listener is WaitingForWakeWord,
        forall|i: int| 0 <= i < inputs.len() ==> !(#[trigger] inputs[i]).wake_word_detected,
    ensures
        pipeline_run(start, capacity, inputs, silence_frames, frame_duration).0.listener
            is WaitingForWakeWord,
        pipeline_run(start, capacity, inputs, silence_frames, frame_duration).1.len() == 0,
    decreases inputs.len(),
{
    if inputs.len() > 0 {
        lemma_no_event_without_wake_word(
            start,
            capacity,
            inputs.drop_last(),
            silence_frames,
            frame_duration,
        );
    }
}

/// A single step taken while waiting never hands over an utterance, even when
/// the wake word fires in it.
pub proof fn lemma_waiting_step_is_silent<T>(
    start: PipelineView<T>,
    capacity: nat,
    input: PipelineInput<T>,
    silence_frames: nat,
    frame_duration: nat,
)
    requires
        start.listener is WaitingForWakeWord,
    ensures
        pipeline_step(
            start,
            capacity,
            input.frames,
            input.wake_word_detected,
            input.verdicts,
            silence_frames,
            frame_duration,
        ).1 is None,
{
}

/// From a state that is gathering an utterance, the first utterance handed
/// over begins with the audio gathered so far; until then the pipeline keeps
/// gathering, and what it holds begins with that audio too.
pub proof fn lemma_first_event_extends_gathered_audio<T>(
    start: PipelineView<T>,
    capacity: nat,
    inputs: Seq<PipelineInput<T>>,
    silence_frames: nat,
    frame_duration: nat,
)
    requires
        start.listener is ListeningForEndOfSpeech,
    ensures
        ({
            let gathered = start.listener->ListeningForEndOfSpeech_0.audio;
            let (end, events) = pipeline_run(
                start,
                capacity,
                inputs,
                silence_frames,
                frame_duration,
            );
            if events.len() > 0 {
                gathered.is_prefix_of(events[0])
            } else {
                &&& end.listener is ListeningForEndOfSpeech
                &&& gathered.is_prefix_of(end.listener->ListeningForEndOfSpeech_0.audio)
            }
        }),
    decreases inputs.len(),
{
    if inputs.len() > 0 {
        lemma_first_event_extends_gathered_audio(
            start,
            capacity,
            inputs.drop_last(),
            silence_frames,
            frame_duration,
        );
        let (middle, events) = pipeline_run(
            start,
            capacity,
            inputs.drop_last(),
            silence_frames,
            frame_duration,
        );
        if events.len() == 0 {
            let input = inputs.last();
            let progress = middle.listener->ListeningForEndOfSpeech_0;
            lemma_endpointing_extends_audio(
                progress,
                input.frames.take(input.verdicts.len() as int),
                input.verdicts,
                silence_frames,
                frame_duration,
            );
        }
    }
}

/// Once the wake word fires, the pipeline starts an utterance from exactly
/// the frames drained from the pre-roll buffer, in order, and the first
/// utterance handed over afterwards begins with those samples.
pub proof fn lemma_event_begins_with_pre_roll<T>(
    start: PipelineView<T>,
    capacity: nat,
    trigger: PipelineInput<T>,
    later: Seq<PipelineInput<T>>,
    silence_frames: nat,
    frame_duration: nat,
)
    requires
        start.listener is WaitingForWakeWord,
        trigger.wake_word_detected,
    ensures
        ({
            let drained = push_frames(start.buffered, capacity, trigger.frames).flatten();
            let (woken, first) = pipeline_step(
                start,
                capacity,
                trigger.frames,
                trigger.wake_word_detected,
                trigger.verdicts,
                silence_frames,
                frame_duration,
            );
            let (end, events) = pipeline_run(
                woken,
                capacity,
                later,
                silence_frames,
                frame_duration,
            );
            &&& first is None
            &&& woken.buffered.len() == 0
            &&& woken.listener is ListeningForEndOfSpeech
            &&& woken.listener->ListeningForEndOfSpeech_0.audio == drained
            &&& events.len() > 0 ==> drained.is_prefix_of(events[0])
        }),
{
    let woken = pipeline_step(
        start,
        capacity,
        trigger.frames,
        trigger.wake_word_detected,
        trigger.verdicts,
        silence_frames,
        frame_duration,
    ).0;
    lemma_first_event_extends_gathered_audio(
        woken,
        capacity,
        later,
        silence_frames,
        frame_duration,
    );
}

} // verus!
