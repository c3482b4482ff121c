//! Voice-activity based endpointing: deciding when an utterance has ended.
//!
//! Each frame arrives with a verdict of the voice-activity model (speech or
//! not). The detector keeps a short window of recent verdicts and ends the
//! utterance once a full window of silence is followed by more silence.

use std::collections::VecDeque;
use vstd::prelude::*;
use crate::frames::frame_views;
use crate::rolling_buffer::{frames_needed, frames_to_cover};

verus! {

/// Sum of two durations, held at the largest representable duration.
pub open spec fn add_duration(total: nat, step: nat) -> nat {
    if total + step > u64::MAX {
        u64::MAX as nat
    } else {
        total + step
    }
}

/// Duration in nanoseconds of a frame of `chunk_size` samples at `sample_rate`.
pub open spec fn frame_nanos(chunk_size: nat, sample_rate: nat) -> nat
    recommends
        sample_rate > 0,
{
    (chunk_size * 1_000_000_000) / sample_rate
}

/// What has been gathered of an utterance so far.
pub struct SpeechProgress<T> {
    /// Duration of the gathered audio in nanoseconds.
    pub duration: nat,
    /// The gathered samples, pre-roll first.
    pub audio: Seq<T>,
    /// Recent verdicts; `true` marks a frame without speech.
    pub window: Seq<bool>,
}

/// Outcome of endpointing, as a mathematical value.
pub enum EndpointOutcome<T> {
    /// The utterance goes on.
    StillListening(SpeechProgress<T>),
    /// The utterance is complete.
    SpeechEnded { audio: Seq<T>, duration: nat },
}

/// Whether every verdict in the window marks a frame without speech.
pub open spec fn all_silent(window: Seq<bool>) -> bool {
    forall|i: int| 0 <= i < window.len() ==> window[i]
}

/// The window with its oldest verdict removed, if it has any.
pub open spec fn without_oldest(window: Seq<bool>) -> Seq<bool> {
    if window.len() > 0 {
        window.drop_first()
    } else {
        window
    }
}

/// The progress after a frame has been taken into the utterance.
pub open spec fn with_frame<T>(
    progress: SpeechProgress<T>,
    window: Seq<bool>,
    frame: Seq<T>,
    frame_duration: nat,
) -> SpeechProgress<T> {
    SpeechProgress {
        duration: add_duration(progress.duration, frame_duration),
        audio: progress.audio + frame,
        window,
    }
}

/// Endpointing of one frame.
///
/// A frame with speech is appended to the window, which first loses its
/// oldest verdict when full. A frame without speech is put at the *front* of
/// a window that is not yet full; with a full window it ends the utterance if
/// the window is all silence (the frame itself is then left out), and
/// otherwise replaces the oldest verdict at the back.
pub open spec fn endpoint_frame<T>(
    progress: SpeechProgress<T>,
    frame: Seq<T>,
    is_speech: bool,
    silence_frames: nat,
    frame_duration: nat,
) -> EndpointOutcome<T> {
    let window = progress.window;
    if is_speech {
        let kept = if window.len() >= silence_frames {
            without_oldest(window)
        } else {
            window
        };
        EndpointOutcome::StillListening(
            with_frame(progress, kept.push(false), frame, frame_duration),
        )
    } else if window.len() >= silence_frames {
        if all_silent(window) {
            EndpointOutcome::SpeechEnded { audio: progress.audio, duration: progress.duration }
        } else {
            EndpointOutcome::StillListening(
                with_frame(progress, without_oldest(window).push(true), frame, frame_duration),
            )
        }
    } else {
        EndpointOutcome::StillListening(
            with_frame(progress, seq![true] + window, frame, frame_duration),
        )
    }
}

/// Endpointing of a run of frames, oldest first. Once the utterance has
/// ended, later frames change nothing.
pub open spec fn endpoint_frames<T>(
    progress: SpeechProgress<T>,
    frames: Seq<Seq<T>>,
    verdicts: Seq<bool>,
    silence_frames: nat,
    frame_duration: nat,
) -> EndpointOutcome<T>
    recommends
        verdicts.len() == frames.len(),
    decreases frames.len(),
{
    if frames.len() == 0 {
        EndpointOutcome::StillListening(progress)
    } else {
        match endpoint_frames(
            progress,
            frames.drop_last(),
            verdicts.drop_last(),
            silence_frames,
            frame_duration,
        ) {
            EndpointOutcome::StillListening(earlier) => endpoint_frame(
                earlier,
                frames.last(),
                verdicts.last(),
                silence_frames,
                frame_duration,
            ),
            ended => ended,
        }
    }
}

/// The utterance being gathered while listening for its end.
pub struct InProgressSpeechState<T> {
    speech_duration: u64,
    audio_data: Vec<T>,
    past_has_been_speech: VecDeque<bool>,
}

impl<T> InProgressSpeechState<T> {
    /// The gathered utterance as a mathematical value.
    pub closed spec fn view(&self) -> SpeechProgress<T> {
        SpeechProgress {
            duration: self.speech_duration as nat,
            audio: self.audio_data@,
            window: self.past_has_been_speech@,
        }
    }

    /// Starts an utterance from the audio that preceded the wake word.
    pub fn new(preceding_audio: Vec<T>) -> (state: Self)
        ensures
            state@ == (SpeechProgress {
                duration: 0,
                audio: preceding_audio@,
                window: Seq::<bool>::empty(),
            }),
    {
        InProgressSpeechState {
            speech_duration: 0,
            audio_data: preceding_audio,
            past_has_been_speech: VecDeque::new(),
        }
    }

    /// Duration of the gathered audio in nanoseconds.
    pub fn speech_duration(&self) -> (nanos: u64)
        ensures
            nanos == self@.duration,
    {
        self.speech_duration
    }

    /// Number of samples gathered so far.
    pub fn audio_len(&self) -> (count: usize)
        ensures
            count == self@.audio.len(),
    {
        self.audio_data.len()
    }

    /// The verdict at position `index` of the window; `true` marks a frame
    /// without speech.
    pub fn window_entry(&self, index: usize) -> (silent: Option<bool>)
        ensures
            silent == if index < self@.window.len() {
                Some(self@.window[index as int])
            } else {
                None
            },
    {
        if index < self.past_has_been_speech.len() {
            Some(self.past_has_been_speech[index])
        } else {
            None
        }
    }

    /// Number of verdicts in the window.
    pub fn window_len(&self) -> (count: usize)
        ensures
            count == self@.window.len(),
    {
        self.past_has_been_speech.len()
    }

    /// Gives up the gathered samples.
    pub fn into_audio(self) -> (audio: Vec<T>)
        ensures
            audio@ == self@.audio,
    {
        self.audio_data
    }

    fn window_all_silent(&self) -> (silent: bool)
        ensures
            silent == all_silent(self@.window),
    {
        let mut i: usize = 0;
        while i < self.past_has_been_speech.len()
            invariant
                i <= self.past_has_been_speech@.len(),
                forall|j: int| 0 <= j < i ==> self.past_has_been_speech@[j],
            decreases self.past_has_been_speech@.len() - i,
        {
            if !self.past_has_been_speech[i] {
                return false;
            }
            i += 1;
        }
        true
    }

    fn take_frame(&mut self, frame: Vec<T>, frame_duration: u64)
        ensures
            final(self)@ == with_frame(
                old(self)@,
                old(self)@.window,
                frame@,
                frame_duration as nat,
            ),
    {
        let mut frame = frame;
        self.audio_data.append(&mut frame);
        self.speech_duration = self.speech_duration.saturating_add(frame_duration);
    }
}

/// Result of endpointing.
pub enum EndOfSpeechResult<T> {
    /// The utterance goes on; the updated state is handed back.
    StillListening(InProgressSpeechState<T>),
    /// The utterance is complete.
    SpeechEnded { audio_data: Vec<T>, duration: u64 },
}

impl<T> EndOfSpeechResult<T> {
    /// The result as a mathematical value.
    pub open spec fn view(&self) -> EndpointOutcome<T> {
        match self {
            EndOfSpeechResult::StillListening(state) => EndpointOutcome::StillListening(state@),
            EndOfSpeechResult::SpeechEnded { audio_data, duration } => EndpointOutcome::SpeechEnded {
                audio: audio_data@,
                duration: *duration as nat,
            },
        }
    }
}

/// Why a detector or pipeline could not be configured.
#[derive(Clone, Copy, Debug, PartialEq, Eq)]
pub enum SpeechConfigError {
    /// A sample rate of zero gives frames no duration.
    ZeroSampleRate,
    /// The duration of one frame does not fit in 64 bits of nanoseconds.
    FrameTooLong,
}

/// Hysteresis-based end-of-utterance detector.
pub struct EndOfSpeechDetector {
    chunk_duration: u64,
    silence_chunks_needed: usize,
}

impl EndOfSpeechDetector {
    /// Duration of one frame in nanoseconds.
    pub closed spec fn frame_duration(&self) -> nat {
        self.chunk_duration as nat
    }

    /// Number of consecutive silent frames that fill the window.
    pub closed spec fn silence_frames(&self) -> nat {
        self.silence_chunks_needed as nat
    }

    /// Creates a detector for frames of `chunk_size` samples at `sample_rate`
    /// that ends an utterance after `silence_nanos` nanoseconds of silence.
    pub fn new(sample_rate: u32, chunk_size: usize, silence_nanos: u64) -> (detector: Result<
        Self,
        SpeechConfigError,
    >)
        ensures
            match detector {
                Ok(d) => {
                    &&& sample_rate > 0
                    &&& d.frame_duration() == frame_nanos(chunk_size as nat, sample_rate as nat)
                    &&& d.silence_frames() == frames_to_cover(
                        silence_nanos as nat,
                        d.frame_duration(),
                    )
                },
                Err(SpeechConfigError::ZeroSampleRate) => sample_rate == 0,
                Err(SpeechConfigError::FrameTooLong) => sample_rate > 0 && frame_nanos(
                    chunk_size as nat,
                    sample_rate as nat,
                ) > u64::MAX,
            },
    {
        if sample_rate == 0 {
            return Err(SpeechConfigError::ZeroSampleRate);
        }
        assert((chunk_size as nat) * 1_000_000_000 <= u128::MAX) by (nonlinear_arith)
            requires
                chunk_size <= 0xFFFF_FFFF_FFFF_FFFF,
        ;
        let scaled: u128 = (chunk_size as u128) * 1_000_000_000u128;
        let nanos: u128 = scaled / (sample_rate as u128);
        if nanos > u64::MAX as u128 {
            return Err(SpeechConfigError::FrameTooLong);
        }
        let chunk_duration: u64 = nanos as u64;
        Ok(
            EndOfSpeechDetector {
                chunk_duration,
                silence_chunks_needed: frames_needed(silence_nanos, chunk_duration),
            },
        )
    }

    /// Creates a detector from a frame duration and a window length.
    pub fn with_window(chunk_duration: u64, silence_chunks_needed: usize) -> (detector: Self)
        ensures
            detector.frame_duration() == chunk_duration,
            detector.silence_frames() == silence_chunks_needed,
    {
        EndOfSpeechDetector { chunk_duration, silence_chunks_needed }
    }

    /// Duration of one frame in nanoseconds.
    pub fn chunk_duration(&self) -> (nanos: u64)
        ensures
            nanos == self.frame_duration(),
    {
        self.chunk_duration
    }

    /// Number of consecutive silent frames that fill the window.
    pub fn silence_chunks_needed(&self) -> (count: usize)
        ensures
            count == self.silence_frames(),
    {
        self.silence_chunks_needed
    }

    /// Endpoints one frame, given the voice-activity verdict on it.
    pub fn process_chunk<T>(
        &self,
        chunk: Vec<T>,
        is_speech: bool,
        speech: InProgressSpeechState<T>,
    ) -> (result: EndOfSpeechResult<T>)
        ensures
            result@ == endpoint_frame(
                speech@,
                chunk@,
                is_speech,
                self.silence_frames(),
                self.frame_duration(),
            ),
    {
        let mut speech = speech;
        if is_speech {
            if speech.past_has_been_speech.len() >= self.silence_chunks_needed {
                let _ = speech.past_has_been_speech.pop_front();
            }
            speech.past_has_been_speech.push_back(false);
            speech.take_frame(chunk, self.chunk_duration);
            EndOfSpeechResult::StillListening(speech)
        } else if speech.past_has_been_speech.len() >= self.silence_chunks_needed {
            if speech.window_all_silent() {
                EndOfSpeechResult::SpeechEnded {
                    audio_data: speech.audio_data,
                    duration: speech.speech_duration,
                }
            } else {
                let _ = speech.past_has_been_speech.pop_front();
                speech.past_has_been_speech.push_back(true);
                speech.take_frame(chunk, self.chunk_duration);
                EndOfSpeechResult::StillListening(speech)
            }
        } else {
            speech.past_has_been_speech.push_front(true);
            speech.take_frame(chunk, self.chunk_duration);
            EndOfSpeechResult::StillListening(speech)
        }
    }

    /// Endpoints a run of frames, asking `is_speech` for the verdict on each
    /// frame in turn and stopping at the frame that ends the utterance.
    pub fn process_chunks<T, F: Fn(&Vec<T>) -> bool>(
        &self,
        chunks: Vec<Vec<T>>,
        speech: InProgressSpeechState<T>,
        is_speech: F,
    ) -> (result: EndOfSpeechResult<T>)
        requires
            forall|chunk: &Vec<T>| is_speech.requires((chunk,)),
        ensures
            exists|verdicts: Seq<bool>|
                admissible_verdicts(
                    speech@,
                    chunks@,
                    verdicts,
                    is_speech,
                    self.silence_frames(),
                    self.frame_duration(),
                ) && result@ == endpoint_frames(
                    speech@,
                    frame_views(chunks@).take(verdicts.len() as int),
                    verdicts,
                    self.silence_frames(),
                    self.frame_duration(),
                ),
    {
        let ghost start = speech@;
        let ghost all = chunks@;
        let ghost mut verdicts: Seq<bool> = Seq::empty();
        let mut pending = chunks;
        let mut current = speech;
        let mut i: usize = 0;
        while i < pending.len()
            invariant
                start == speech@,
                all == chunks@,
                i <= pending.len(),
                pending.len() == all.len(),
                forall|j: int| i <= j < pending.len() ==> #[trigger] pending@[j] == all[j],
                forall|chunk: &Vec<T>| is_speech.requires((chunk,)),
                verdicts.len() == i,
                forall|j: int|
                    0 <= j < i ==> is_speech.ensures((&all[j],), #[trigger] verdicts[j]),
                endpoint_frames(
                    start,
                    frame_views(all).take(i as int),
                    verdicts,
                    self.silence_frames(),
                    self.frame_duration(),
                ) == EndpointOutcome::StillListening(current@),
            decreases pending.len() - i,
        {
            let mut chunk: Vec<T> = Vec::new();
            std::mem::swap(&mut chunk, &mut pending[i]);
            let verdict = is_speech(&chunk);
            proof {
                let earlier = verdicts;
                verdicts = verdicts.push(verdict);
                assert(verdicts.drop_last() =~= earlier);
                assert(frame_views(all).take(i + 1).drop_last() =~= frame_views(all).take(
                    i as int,
                ));
            }
            let outcome = self.process_chunk(chunk, verdict, current);
            match outcome {
                EndOfSpeechResult::StillListening(updated) => {
                    current = updated;
                },
                EndOfSpeechResult::SpeechEnded { audio_data, duration } => {
                    let ended = EndOfSpeechResult::SpeechEnded { audio_data, duration };
                    assert(admissible_verdicts(
                        start,
                        all,
                        verdicts,
                        is_speech,
                        self.silence_frames(),
                        self.frame_duration(),
                    ));
                    return ended;
                },
            }
            i += 1;
        }
        assert(admissible_verdicts(
            start,
            all,
            verdicts,
            is_speech,
            self.silence_frames(),
            self.frame_duration(),
        )) by {
            if verdicts.len() > 0 {
                lemma_still_listening_before(
                    start,
                    frame_views(all).take(verdicts.len() as int),
                    verdicts,
                    self.silence_frames(),
                    self.frame_duration(),
                );
                assert(frame_views(all).take(verdicts.len() as int).drop_last() =~= frame_views(
                    all,
                ).take(verdicts.len() - 1));
            }
        }
        EndOfSpeechResult::StillListening(current)
    }
}

/// An utterance that goes on after a run of frames went on after each
/// shorter run too.
pub proof fn lemma_still_listening_before<T>(
    progress: SpeechProgress<T>,
    frames: Seq<Seq<T>>,
    verdicts: Seq<bool>,
    silence_frames: nat,
    frame_duration: nat,
)
    requires
        frames.len() > 0,
        endpoint_frames(
            progress,
            frames,
            verdicts,
            silence_frames,
            frame_duration,
        ) is StillListening,
    ensures
        endpoint_frames(
            progress,
            frames.drop_last(),
            verdicts.drop_last(),
            silence_frames,
            frame_duration,
        ) is StillListening,
{
}

/// Whether `verdicts` can be the answers of `is_speech` on the leading
/// frames of `chunks`, one verdict for each frame up to and including the one
/// that ends the utterance, or for all frames if none does.
pub open spec fn admissible_verdicts<T, F: Fn(&Vec<T>) -> bool>(
    progress: SpeechProgress<T>,
    chunks: Seq<Vec<T>>,
    verdicts: Seq<bool>,
    is_speech: F,
    silence_frames: nat,
    frame_duration: nat,
) -> bool {
    &&& verdicts.len() <= chunks.len()
    &&& forall|j: int|
        0 <= j < verdicts.len() ==> is_speech.ensures((&chunks[j],), #[trigger] verdicts[j])
    &&& verdicts.len() > 0 ==> endpoint_frames(
        progress,
        frame_views(chunks).take(verdicts.len() - 1),
        verdicts.drop_last(),
        silence_frames,
        frame_duration,
    ) is StillListening
    &&& verdicts.len() < chunks.len() ==> endpoint_frames(
        progress,
        frame_views(chunks).take(verdicts.len() as int),
        verdicts,
        silence_frames,
        frame_duration,
    ) is SpeechEnded
}

} // verus!
