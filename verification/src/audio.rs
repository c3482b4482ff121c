//! The playback controller: one sink at a time, commands taken in order.
//!
//! The controller decides what the sink plays. It owns the source that the
//! sink renders, hands back the source it stopped, and says which kind of
//! sink has to be opened; opening and closing the audio device is left to
//! the caller.

use vstd::prelude::*;
use crate::streaming::{pull_stream, Pull, StreamView, StreamingAudioBuffer};

verus! {

/// A message to the playback controller.
pub enum AudioCommand<T> {
    /// Play a complete recording at the given sample rate.
    Play(Vec<T>, u32),
    /// Stop whatever is playing.
    Stop,
    /// Stop whatever is playing and play a complete recording.
    StopAndPlay(Vec<T>, u32),
    /// Start a stream at the given sample rate.
    StartStreaming(u32),
    /// Push a frame to the current stream.
    StreamChunk(Vec<T>),
    /// Mark the current stream finished.
    FinishStreaming,
    /// Ask to be told when playback has finished.
    WaitUntilFinished,
}

/// A command as a mathematical value.
pub enum CommandView<T> {
    Play(Seq<T>, u32),
    Stop,
    StopAndPlay(Seq<T>, u32),
    StartStreaming(u32),
    StreamChunk(Seq<T>),
    FinishStreaming,
    WaitUntilFinished,
}

impl<T> AudioCommand<T> {
    /// The command as a mathematical value.
    pub open spec fn view(&self) -> CommandView<T> {
        match self {
            AudioCommand::Play(audio, rate) => CommandView::Play(audio@, *rate),
            AudioCommand::Stop => CommandView::Stop,
            AudioCommand::StopAndPlay(audio, rate) => CommandView::StopAndPlay(audio@, *rate),
            AudioCommand::StartStreaming(rate) => CommandView::StartStreaming(*rate),
            AudioCommand::StreamChunk(samples) => CommandView::StreamChunk(samples@),
            AudioCommand::FinishStreaming => CommandView::FinishStreaming,
            AudioCommand::WaitUntilFinished => CommandView::WaitUntilFinished,
        }
    }
}

/// What a sink renders, as a mathematical value.
pub enum SourceView<T> {
    /// The rest of a complete recording.
    Samples { remaining: Seq<T>, sample_rate: u32 },
    /// A stream fed by a producer.
    Stream { stream: StreamView<T>, sample_rate: u32 },
}

/// The controller as a mathematical value.
pub struct ControllerView<T> {
    /// What the one sink renders, if there is a sink.
    pub sink: Option<SourceView<T>>,
    /// Whether a producer holds a handle to the stream in the sink.
    pub streaming: bool,
}

/// What the controller asks of its surroundings after a command.
pub struct ReactionView<T> {
    /// The source of the sink that has to be stopped, if any.
    pub stopped: Option<SourceView<T>>,
    /// The sample rate of the sink that has to be opened, if any.
    pub started: Option<u32>,
    /// For a request to wait: whether playback has already finished.
    pub finished: Option<bool>,
}

/// The handle and the sink agree: a producer holds a handle exactly while
/// the sink renders a stream that is not finished.
pub open spec fn controller_wf<T>(controller: ControllerView<T>) -> bool {
    match controller.sink {
        Some(SourceView::Stream { stream, sample_rate }) => controller.streaming
            == !stream.finished,
        _ => !controller.streaming,
    }
}

/// The source in the sink once the producer's handle has been invalidated:
/// a stream that was still open is marked finished.
pub open spec fn retired_source<T>(controller: ControllerView<T>) -> Option<SourceView<T>> {
    match controller.sink {
        Some(SourceView::Stream { stream, sample_rate }) => Some(
            SourceView::Stream {
                stream: StreamView {
                    queued: stream.queued,
                    finished: stream.finished || controller.streaming,
                },
                sample_rate,
            },
        ),
        other => other,
    }
}

/// Playback has finished when no stream is open and the sink is gone.
pub open spec fn playback_finished<T>(controller: ControllerView<T>) -> bool {
    !controller.streaming && controller.sink is None
}

/// The controller after a command, and what it asks of its surroundings.
pub open spec fn react<T>(controller: ControllerView<T>, command: CommandView<T>) -> (
    ControllerView<T>,
    ReactionView<T>,
) {
    match command {
        CommandView::Play(audio, rate) | CommandView::StopAndPlay(audio, rate) => (
            ControllerView {
                sink: Some(SourceView::Samples { remaining: audio, sample_rate: rate }),
                streaming: false,
            },
            ReactionView {
                stopped: retired_source(controller),
                started: Some(rate),
                finished: None,
            },
        ),
        CommandView::Stop => (
            ControllerView { sink: None, streaming: false },
            ReactionView { stopped: retired_source(controller), started: None, finished: None },
        ),
        CommandView::StartStreaming(rate) => (
            ControllerView {
                sink: Some(
                    SourceView::Stream {
                        stream: StreamView { queued: Seq::empty(), finished: false },
                        sample_rate: rate,
                    },
                ),
                streaming: true,
            },
            ReactionView { stopped: controller.sink, started: Some(rate), finished: None },
        ),
        CommandView::StreamChunk(samples) => (
            match controller.sink {
                Some(SourceView::Stream { stream, sample_rate }) if controller.streaming => {
                    ControllerView {
                        sink: Some(
                            SourceView::Stream {
                                stream: StreamView {
                                    queued: stream.queued + samples,
                                    finished: stream.finished,
                                },
                                sample_rate,
                            },
                        ),
                        streaming: true,
                    }
                },
                _ => controller,
            },
            ReactionView { stopped: None, started: None, finished: None },
        ),
        CommandView::FinishStreaming => (
            ControllerView { sink: retired_source(controller), streaming: false },
            ReactionView { stopped: None, started: None, finished: None },
        ),
        CommandView::WaitUntilFinished => (
            controller,
            ReactionView {
                stopped: None,
                started: None,
                finished: Some(playback_finished(controller)),
            },
        ),
    }
}

/// The controller after a run of commands, oldest first.
pub open spec fn react_all<T>(controller: ControllerView<T>, commands: Seq<CommandView<T>>)
    -> ControllerView<T>
    decreases commands.len(),
{
    if commands.len() == 0 {
        controller
    } else {
        react(react_all(controller, commands.drop_last()), commands.last()).0
    }
}

/// The answer to a renderer's pull and the controller left behind. A source
/// that has ended leaves the sink.
pub open spec fn pull_sink<T>(controller: ControllerView<T>) -> (ControllerView<T>, Pull<T>) {
    match controller.sink {
        None => (controller, Pull::EndOfStream),
        Some(SourceView::Samples { remaining, sample_rate }) => {
            if remaining.len() > 0 {
                (
                    ControllerView {
                        sink: Some(
                            SourceView::Samples { remaining: remaining.drop_first(), sample_rate },
                        ),
                        streaming: controller.streaming,
                    },
                    Pull::Sample(remaining.first()),
                )
            } else {
                (
                    ControllerView { sink: None, streaming: controller.streaming },
                    Pull::EndOfStream,
                )
            }
        },
        Some(SourceView::Stream { stream, sample_rate }) => {
            let (rest, answer) = pull_stream(stream);
            if answer is EndOfStream {
                (ControllerView { sink: None, streaming: controller.streaming }, answer)
            } else {
                (
                    ControllerView {
                        sink: Some(SourceView::Stream { stream: rest, sample_rate }),
                        streaming: controller.streaming,
                    },
                    answer,
                )
            }
        },
    }
}

/// The controller after `count` pulls with no command in between.
pub open spec fn sink_after_pulls<T>(controller: ControllerView<T>, count: nat) -> ControllerView<T>
    decreases count,
{
    if count == 0 {
        controller
    } else {
        pull_sink(sink_after_pulls(controller, (count - 1) as nat)).0
    }
}

/// The answer to the pull that follows `count` earlier pulls.
pub open spec fn nth_sink_pull<T>(controller: ControllerView<T>, count: nat) -> Pull<T> {
    pull_sink(sink_after_pulls(controller, count)).1
}

/// A complete recording being played.
pub struct BufferedSource<T> {
    samples: Vec<T>,
    position: usize,
    sample_rate: u32,
}

impl<T: Copy> BufferedSource<T> {
    /// The samples not yet rendered.
    pub closed spec fn remaining(&self) -> Seq<T> {
        self.samples@.skip(self.position as int)
    }

    /// The sample rate of the recording.
    pub closed spec fn rate(&self) -> u32 {
        self.sample_rate
    }

    /// The position lies within the recording.
    pub closed spec fn wf(&self) -> bool {
        self.position <= self.samples@.len()
    }

    /// Starts playing `samples` from the beginning.
    pub fn new(samples: Vec<T>, sample_rate: u32) -> (source: Self)
        ensures
            source.wf(),
            source.remaining() == samples@,
            source.rate() == sample_rate,
    {
        let source = BufferedSource { samples, position: 0, sample_rate };
        source
    }

    /// The sample rate of the recording.
    pub fn sample_rate(&self) -> (rate: u32)
        ensures
            rate == self.rate(),
    {
        self.sample_rate
    }

    /// Number of samples not yet rendered.
    pub fn remaining_len(&self) -> (count: usize)
        requires
            self.wf(),
        ensures
            count == self.remaining().len(),
    {
        self.samples.len() - self.position
    }

    /// Takes the next sample, if any is left.
    pub fn next_sample(&mut self) -> (sample: Option<T>)
        requires
            old(self).wf(),
        ensures
            final(self).wf(),
            final(self).rate() == old(self).rate(),
            match sample {
                Some(s) => old(self).remaining().len() > 0 && s == old(self).remaining().first()
                    && final(self).remaining() == old(self).remaining().drop_first(),
                None => old(self).remaining().len() == 0 && final(self).remaining() == old(self).remaining(),
            },
    {
        if self.position < self.samples.len() {
            let sample = self.samples[self.position];
            self.position += 1;
            Some(sample)
        } else {
            None
        }
    }
}

/// What a sink renders.
pub enum SinkSource<T> {
    /// A complete recording.
    Samples(BufferedSource<T>),
    /// A stream fed by a producer, with its sample rate.
    Stream(StreamingAudioBuffer<T>, u32),
}

impl<T: Copy> SinkSource<T> {
    /// The source as a mathematical value.
    pub open spec fn view(&self) -> SourceView<T> {
        match self {
            SinkSource::Samples(source) => SourceView::Samples {
                remaining: source.remaining(),
                sample_rate: source.rate(),
            },
            SinkSource::Stream(stream, rate) => SourceView::Stream {
                stream: stream@,
                sample_rate: *rate,
            },
        }
    }

    /// A recording keeps its position within its samples.
    pub open spec fn wf(&self) -> bool {
        match self {
            SinkSource::Samples(source) => source.wf(),
            SinkSource::Stream(_, _) => true,
        }
    }

    /// Whether this is a stream that its producer has finished.
    pub fn is_finished_stream(&self) -> (finished: bool)
        ensures
            finished == match self@ {
                SourceView::Stream { stream, sample_rate } => stream.finished,
                _ => false,
            },
    {
        match self {
            SinkSource::Samples(_) => false,
            SinkSource::Stream(stream, _) => stream.is_finished(),
        }
    }

    /// The sample rate of the source.
    pub fn sample_rate(&self) -> (rate: u32)
        ensures
            rate == match self@ {
                SourceView::Stream { stream, sample_rate } => sample_rate,
                SourceView::Samples { remaining, sample_rate } => sample_rate,
            },
    {
        match self {
            SinkSource::Samples(source) => source.sample_rate(),
            SinkSource::Stream(_, rate) => *rate,
        }
    }
}

/// The view of an optional source.
pub open spec fn source_view<T: Copy>(source: Option<SinkSource<T>>) -> Option<SourceView<T>> {
    match source {
        Some(s) => Some(s@),
        None => None,
    }
}

/// What the controller asks of its surroundings after a command.
pub struct AudioReaction<T> {
    /// The source of the sink that has to be stopped, if any.
    pub stopped: Option<SinkSource<T>>,
    /// The sample rate of the sink that has to be opened, if any.
    pub started: Option<u32>,
    /// For a request to wait: whether playback has already finished. If it
    /// has not, the caller watches [`AudioController::is_finished`].
    pub finished: Option<bool>,
}

impl<T: Copy> AudioReaction<T> {
    /// The reaction as a mathematical value.
    pub open spec fn view(&self) -> ReactionView<T> {
        ReactionView {
            stopped: source_view(self.stopped),
            started: self.started,
            finished: self.finished,
        }
    }
}

/// The playback controller.
pub struct AudioController<T> {
    sink: Option<SinkSource<T>>,
    streaming: bool,
}

impl<T: Copy> AudioController<T> {
    /// The controller as a mathematical value.
    pub closed spec fn view(&self) -> ControllerView<T> {
        ControllerView { sink: source_view(self.sink), streaming: self.streaming }
    }

    /// The handle and the sink agree, and a recording keeps its position.
    pub closed spec fn wf(&self) -> bool {
        &&& controller_wf(self@)
        &&& match self.sink {
            Some(source) => source.wf(),
            None => true,
        }
    }

    /// Creates a controller with no sink and no stream.
    pub fn new() -> (controller: Self)
        ensures
            controller.wf(),
            controller@ == (ControllerView::<T> { sink: None, streaming: false }),
    {
        AudioController { sink: None, streaming: false }
    }

    /// Takes the source out of the sink, marking an open stream finished.
    fn retire(&mut self) -> (stopped: Option<SinkSource<T>>)
        requires
            old(self).wf(),
        ensures
            final(self)@ == (ControllerView::<T> { sink: None, streaming: false }),
            source_view(stopped) == retired_source(old(self)@),
            match stopped {
                Some(source) => source.wf(),
                None => true,
            },
    {
        let mut stopped: Option<SinkSource<T>> = None;
        std::mem::swap(&mut stopped, &mut self.sink);
        let open = self.streaming;
        self.streaming = false;
        match stopped {
            Some(SinkSource::Stream(stream, rate)) => {
                let mut stream = stream;
                if open {
                    stream.mark_finished();
                }
                Some(SinkSource::Stream(stream, rate))
            },
            other => other,
        }
    }

    /// Stops whatever is playing and plays `audio`.
    pub fn play(&mut self, audio: Vec<T>, sample_rate: u32) -> (reaction: AudioReaction<T>)
        requires
            old(self).wf(),
        ensures
            final(self).wf(),
            (final(self)@, reaction@) == react(old(self)@, CommandView::Play(audio@, sample_rate)),
    {
        let stopped = self.retire();
        self.sink = Some(SinkSource::Samples(BufferedSource::new(audio, sample_rate)));
        AudioReaction { stopped, started: Some(sample_rate), finished: None }
    }

    /// Stops whatever is playing.
    pub fn stop(&mut self) -> (reaction: AudioReaction<T>)
        requires
            old(self).wf(),
        ensures
            final(self).wf(),
            (final(self)@, reaction@) == react(old(self)@, CommandView::Stop),
    {
        let stopped = self.retire();
        AudioReaction { stopped, started: None, finished: None }
    }

    /// Stops whatever is playing and plays `audio`.
    pub fn stop_and_play(&mut self, audio: Vec<T>, sample_rate: u32) -> (reaction: AudioReaction<T>)
        requires
            old(self).wf(),
        ensures
            final(self).wf(),
            (final(self)@, reaction@) == react(
                old(self)@,
                CommandView::StopAndPlay(audio@, sample_rate),
            ),
    {
        let stopped = self.retire();
        self.sink = Some(SinkSource::Samples(BufferedSource::new(audio, sample_rate)));
        AudioReaction { stopped, started: Some(sample_rate), finished: None }
    }

    /// Stops whatever is playing and starts an empty stream.
    pub fn start_streaming(&mut self, sample_rate: u32) -> (reaction: AudioReaction<T>)
        requires
            old(self).wf(),
        ensures
            final(self).wf(),
            (final(self)@, reaction@) == react(old(self)@, CommandView::StartStreaming(sample_rate)),
    {
        let mut stopped: Option<SinkSource<T>> = Some(
            SinkSource::Stream(StreamingAudioBuffer::new(), sample_rate),
        );
        std::mem::swap(&mut stopped, &mut self.sink);
        self.streaming = true;
        AudioReaction { stopped, started: Some(sample_rate), finished: None }
    }

    /// Pushes a frame to the open stream; without one the frame is dropped.
    pub fn stream_chunk(&mut self, samples: Vec<T>) -> (reaction: AudioReaction<T>)
        requires
            old(self).wf(),
        ensures
            final(self).wf(),
            (final(self)@, reaction@) == react(old(self)@, CommandView::StreamChunk(samples@)),
    {
        if self.streaming {
            let mut source: Option<SinkSource<T>> = None;
            std::mem::swap(&mut source, &mut self.sink);
            match source {
                Some(SinkSource::Stream(stream, rate)) => {
                    let mut stream = stream;
                    stream.push_chunk(samples);
                    self.sink = Some(SinkSource::Stream(stream, rate));
                },
                other => {
                    self.sink = other;
                },
            }
        }
        AudioReaction { stopped: None, started: None, finished: None }
    }

    /// Marks the open stream finished and invalidates the producer's handle.
    /// What is queued is still played out.
    pub fn finish_streaming(&mut self) -> (reaction: AudioReaction<T>)
        requires
            old(self).wf(),
        ensures
            final(self).wf(),
            (final(self)@, reaction@) == react(old(self)@, CommandView::FinishStreaming),
    {
        let source = self.retire();
        self.sink = source;
        AudioReaction { stopped: None, started: None, finished: None }
    }

    /// Says whether playback has already finished.
    pub fn wait_until_finished(&self) -> (reaction: AudioReaction<T>)
        requires
            self.wf(),
        ensures
            (self@, reaction@) == react(self@, CommandView::WaitUntilFinished),
    {
        AudioReaction { stopped: None, started: None, finished: Some(self.is_finished()) }
    }

    /// Whether no stream is open and the sink is gone.
    pub fn is_finished(&self) -> (finished: bool)
        ensures
            finished == playback_finished(self@),
    {
        !self.streaming && self.sink.is_none()
    }

    /// Whether a producer holds a handle to the stream in the sink.
    pub fn is_streaming(&self) -> (streaming: bool)
        ensures
            streaming == self@.streaming,
    {
        self.streaming
    }

    /// Takes the commands of the actor in the order they arrive.
    pub fn handle(&mut self, command: AudioCommand<T>) -> (reaction: AudioReaction<T>)
        requires
            old(self).wf(),
        ensures
            final(self).wf(),
            (final(self)@, reaction@) == react(old(self)@, command@),
    {
        match command {
            AudioCommand::Play(audio, rate) => self.play(audio, rate),
            AudioCommand::Stop => self.stop(),
            AudioCommand::StopAndPlay(audio, rate) => self.stop_and_play(audio, rate),
            AudioCommand::StartStreaming(rate) => self.start_streaming(rate),
            AudioCommand::StreamChunk(samples) => self.stream_chunk(samples),
            AudioCommand::FinishStreaming => self.finish_streaming(),
            AudioCommand::WaitUntilFinished => self.wait_until_finished(),
        }
    }

    /// Gives the renderer its next sample. A source that has ended leaves
    /// the sink.
    pub fn pull(&mut self) -> (answer: Pull<T>)
        requires
            old(self).wf(),
        ensures
            final(self).wf(),
            (final(self)@, answer) == pull_sink(old(self)@),
    {
        let mut source: Option<SinkSource<T>> = None;
        std::mem::swap(&mut source, &mut self.sink);
        match source {
            None => Pull::EndOfStream,
            Some(SinkSource::Samples(recording)) => {
                let mut recording = recording;
                match recording.next_sample() {
                    Some(sample) => {
                        self.sink = Some(SinkSource::Samples(recording));
                        Pull::Sample(sample)
                    },
                    None => Pull::EndOfStream,
                }
            },
            Some(SinkSource::Stream(stream, rate)) => {
                let mut stream = stream;
                let answer = stream.pull();
                match answer {
                    Pull::EndOfStream => {},
                    _ => {
                        self.sink = Some(SinkSource::Stream(stream, rate));
                    },
                }
                answer
            },
        }
    }
}

/// Every command leaves the handle and the sink in agreement.
pub proof fn lemma_react_preserves_wf<T>(controller: ControllerView<T>, command: CommandView<T>)
    requires
        controller_wf(controller),
    ensures
        controller_wf(react(controller, command).0),
{
}

/// A stream that is started and at once followed by a recording is marked
/// finished and stopped; the sink then renders the recording and nothing
/// else, sample for sample, and ends.
pub proof fn lemma_play_replaces_stream<T>(
    controller: ControllerView<T>,
    stream_rate: u32,
    audio: Seq<T>,
    rate: u32,
    count: nat,
)
    requires
        controller_wf(controller),
    ensures
        ({
            let streaming = react(controller, CommandView::StartStreaming(stream_rate)).0;
            let (playing, reaction) = react(streaming, CommandView::Play(audio, rate));
            &&& streaming.streaming
            &&& reaction.stopped == Some(
                SourceView::Stream {
                    stream: StreamView { queued: Seq::<T>::empty(), finished: true },
                    sample_rate: stream_rate,
                },
            )
            &&& !playing.streaming
            &&& playing.sink == Some(SourceView::Samples { remaining: audio, sample_rate: rate })
            &&& nth_sink_pull(playing, count) == if count < audio.len() {
                Pull::Sample(audio[count as int])
            } else {
                Pull::EndOfStream
            }
        }),
{
    lemma_recording_plays_out(audio, rate, count);
}

/// A recording is rendered sample for sample; after its last sample the
/// sink is gone and every pull answers end-of-stream.
pub proof fn lemma_recording_plays_out<T>(audio: Seq<T>, rate: u32, count: nat)
    ensures
        ({
            let playing = ControllerView {
                sink: Some(SourceView::Samples { remaining: audio, sample_rate: rate }),
                streaming: false,
            };
            &&& sink_after_pulls(playing, count) == if count <= audio.len() {
                ControllerView {
                    sink: Some(
                        SourceView::Samples { remaining: audio.skip(count as int), sample_rate: rate },
                    ),
                    streaming: false,
                }
            } else {
                ControllerView { sink: None, streaming: false }
            }
            &&& nth_sink_pull(playing, count) == if count < audio.len() {
                Pull::Sample(audio[count as int])
            } else {
                Pull::EndOfStream
            }
        }),
    decreases count,
{
    if count == 0 {
        assert(audio.skip(0) =~= audio);
    } else {
        lemma_recording_plays_out(audio, rate, (count - 1) as nat);
        if count <= audio.len() {
            assert(audio.skip(count - 1).drop_first() =~= audio.skip(count as int));
        }
    }
}

} // verus!
