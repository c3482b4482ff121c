//! The serving side of the control protocol: what the synthesis process
//! answers, and what it does to playback, for every request and for every
//! step of a generation.
//!
//! The session decides; its surroundings read requests, run the synthesis
//! model and let time pass, and report each of these as an event.

use vstd::prelude::*;
use vstd::string::StringExecFns;
use crate::audio::{
    playback_finished, pull_sink, react, AudioController, AudioReaction, CommandView,
    ControllerView, ReactionView,
};
use crate::streaming::Pull;
use crate::tts_protocol::{TtsCommand, TtsCommandView, TtsResponse, TtsResponseView};

verus! {

/// Where a session stands.
#[derive(Clone, Copy, Debug, PartialEq, Eq)]
pub enum SessionPhase {
    /// Between requests.
    Idle,
    /// Generation has started; chunks are streamed as they come.
    Generating,
    /// Generation is complete; what is queued is playing out.
    Draining,
    /// A request to wait is pending until playback has finished.
    Waiting,
}

/// What the session needs next from its surroundings.
#[derive(Clone, Copy, Debug, PartialEq, Eq)]
pub enum Wanted {
    /// The next request from the connection.
    Command,
    /// The next chunk from the synthesis model.
    Chunk,
    /// A short pause, reported as a tick.
    Tick,
}

/// Something that happened around the session.
pub enum SessionEvent<T> {
    /// A request arrived.
    Command(TtsCommand),
    /// A message arrived that is no request; the text says why.
    Undecodable(String),
    /// The synthesis model produced a chunk.
    Chunk(Vec<T>),
    /// The synthesis model failed; the text says why.
    ChunkFailed(String),
    /// The synthesis model has no more chunks.
    GenerationDone,
    /// A pause has passed.
    Tick,
}

/// An event as a mathematical value.
pub enum EventView<T> {
    Command(TtsCommandView),
    Undecodable(Seq<char>),
    Chunk(Seq<T>),
    ChunkFailed(Seq<char>),
    GenerationDone,
    Tick,
}

impl<T> SessionEvent<T> {
    /// The event as a mathematical value.
    pub open spec fn view(&self) -> EventView<T> {
        match self {
            SessionEvent::Command(command) => EventView::Command(command@),
            SessionEvent::Undecodable(detail) => EventView::Undecodable(detail@),
            SessionEvent::Chunk(samples) => EventView::Chunk(samples@),
            SessionEvent::ChunkFailed(detail) => EventView::ChunkFailed(detail@),
            SessionEvent::GenerationDone => EventView::GenerationDone,
            SessionEvent::Tick => EventView::Tick,
        }
    }
}

/// A session as a mathematical value.
pub struct SessionView<T> {
    /// Where the session stands.
    pub phase: SessionPhase,
    /// The playback controller of the synthesis process.
    pub controller: ControllerView<T>,
}

/// What a session does after an event, as a mathematical value.
pub struct StepView<T> {
    /// The answer to send, if any.
    pub reply: Option<TtsResponseView>,
    /// What the playback controller asks of the audio device, in order.
    pub reactions: Seq<ReactionView<T>>,
    /// What the session needs next.
    pub wanted: Wanted,
    /// The text to start generating from, if generation starts.
    pub generate: Option<Seq<char>>,
}

/// What a session in `phase` needs next.
pub open spec fn wanted_in(phase: SessionPhase) -> Wanted {
    match phase {
        SessionPhase::Idle => Wanted::Command,
        SessionPhase::Generating => Wanted::Chunk,
        SessionPhase::Draining | SessionPhase::Waiting => Wanted::Tick,
    }
}

/// The answer to a message that is no request.
pub open spec fn undecodable_reply(detail: Seq<char>) -> TtsResponseView {
    TtsResponseView::Error("Failed to deserialize command: "@ + detail)
}

/// A step that answers nothing and leaves playback alone.
pub open spec fn quiet_step<T>(phase: SessionPhase) -> StepView<T> {
    StepView { reply: None, reactions: Seq::empty(), wanted: wanted_in(phase), generate: None }
}

/// The step that ends a pause: the answer `Finished` once playback has
/// finished, another pause otherwise.
pub open spec fn settle<T>(session: SessionView<T>, pending: SessionPhase) -> (
    SessionView<T>,
    StepView<T>,
) {
    if playback_finished(session.controller) {
        (
            SessionView { phase: SessionPhase::Idle, controller: session.controller },
            StepView {
                reply: Some(TtsResponseView::Finished),
                reactions: Seq::empty(),
                wanted: Wanted::Command,
                generate: None,
            },
        )
    } else {
        (SessionView { phase: pending, controller: session.controller }, quiet_step(pending))
    }
}

/// The session after an event, and what it does.
///
/// A request to generate stops playback, is answered `Started` and opens a
/// stream at `sample_rate`; each chunk goes to the stream; when the model is
/// done the stream is marked finished and `Finished` is sent once playback
/// has finished; a failure of the model stops playback and is answered
/// `Error`. An event that the session is not waiting for changes nothing.
pub open spec fn session_step<T>(session: SessionView<T>, event: EventView<T>, sample_rate: u32)
    -> (SessionView<T>, StepView<T>) {
    let controller = session.controller;
    match (session.phase, event) {
        (SessionPhase::Idle, EventView::Command(TtsCommandView::GenerateAudio(text))) => {
            let (stopped, first) = react(controller, CommandView::Stop);
            let (streaming, second) = react(stopped, CommandView::StartStreaming(sample_rate));
            (
                SessionView { phase: SessionPhase::Generating, controller: streaming },
                StepView {
                    reply: Some(TtsResponseView::Started),
                    reactions: seq![first, second],
                    wanted: Wanted::Chunk,
                    generate: Some(text),
                },
            )
        },
        (SessionPhase::Idle, EventView::Command(TtsCommandView::Stop)) => {
            let (stopped, first) = react(controller, CommandView::Stop);
            (
                SessionView { phase: SessionPhase::Idle, controller: stopped },
                StepView {
                    reply: Some(TtsResponseView::Stopped),
                    reactions: seq![first],
                    wanted: Wanted::Command,
                    generate: None,
                },
            )
        },
        (SessionPhase::Idle, EventView::Command(TtsCommandView::WaitUntilFinished)) => settle(
            session,
            SessionPhase::Waiting,
        ),
        (SessionPhase::Idle, EventView::Undecodable(detail)) => (
            session,
            StepView {
                reply: Some(undecodable_reply(detail)),
                reactions: Seq::empty(),
                wanted: Wanted::Command,
                generate: None,
            },
        ),
        (SessionPhase::Generating, EventView::Chunk(samples)) => {
            let (fed, first) = react(controller, CommandView::StreamChunk(samples));
            (
                SessionView { phase: SessionPhase::Generating, controller: fed },
                StepView {
                    reply: None,
                    reactions: seq![first],
                    wanted: Wanted::Chunk,
                    generate: None,
                },
            )
        },
        (SessionPhase::Generating, EventView::ChunkFailed(detail)) => {
            let (stopped, first) = react(controller, CommandView::Stop);
            (
                SessionView { phase: SessionPhase::Idle, controller: stopped },
                StepView {
                    reply: Some(TtsResponseView::Error(detail)),
                    reactions: seq![first],
                    wanted: Wanted::Command,
                    generate: None,
                },
            )
        },
        (SessionPhase::Generating, EventView::GenerationDone) => {
            let (finishing, first) = react(controller, CommandView::FinishStreaming);
            let (settled, step) = settle(
                SessionView { phase: SessionPhase::Generating, controller: finishing },
                SessionPhase::Draining,
            );
            (
                settled,
                StepView {
                    reply: step.reply,
                    reactions: seq![first],
                    wanted: step.wanted,
                    generate: None,
                },
            )
        },
        (SessionPhase::Draining, EventView::Tick) => settle(session, SessionPhase::Draining),
        (SessionPhase::Waiting, EventView::Tick) => settle(session, SessionPhase::Waiting),
        (phase, _) => (session, quiet_step(phase)),
    }
}

/// The session after a run of events, oldest first.
pub open spec fn session_after<T>(session: SessionView<T>, events: Seq<EventView<T>>, sample_rate: u32)
    -> SessionView<T>
    decreases events.len(),
{
    if events.len() == 0 {
        session
    } else {
        session_step(
            session_after(session, events.drop_last(), sample_rate),
            events.last(),
            sample_rate,
        ).0
    }
}

/// The answers sent during a run of events, oldest first.
pub open spec fn session_replies<T>(
    session: SessionView<T>,
    events: Seq<EventView<T>>,
    sample_rate: u32,
) -> Seq<TtsResponseView>
    decreases events.len(),
{
    if events.len() == 0 {
        Seq::empty()
    } else {
        let earlier = session_replies(session, events.drop_last(), sample_rate);
        let step = session_step(
            session_after(session, events.drop_last(), sample_rate),
            events.last(),
            sample_rate,
        ).1;
        match step.reply {
            Some(reply) => earlier.push(reply),
            None => earlier,
        }
    }
}

/// What a session does after an event.
pub struct SessionStep<T> {
    /// The answer to send, if any.
    pub reply: Option<TtsResponse>,
    /// What the playback controller asks of the audio device, in order.
    pub reactions: Vec<AudioReaction<T>>,
    /// What the session needs next.
    pub wanted: Wanted,
    /// The text to start generating from, if generation starts.
    pub generate: Option<String>,
}

/// The views of a list of reactions.
pub open spec fn reaction_views<T: Copy>(reactions: Seq<AudioReaction<T>>) -> Seq<ReactionView<T>> {
    Seq::new(reactions.len(), |i: int| reactions[i]@)
}

impl<T: Copy> SessionStep<T> {
    /// The step as a mathematical value.
    pub open spec fn view(&self) -> StepView<T> {
        StepView {
            reply: match self.reply {
                Some(reply) => Some(reply@),
                None => None,
            },
            reactions: reaction_views(self.reactions@),
            wanted: self.wanted,
            generate: match self.generate {
                Some(text) => Some(text@),
                None => None,
            },
        }
    }
}

/// The serving side of one connection.
pub struct SynthesisSession<T> {
    phase: SessionPhase,
    controller: AudioController<T>,
    sample_rate: u32,
}

impl<T: Copy> SynthesisSession<T> {
    /// The session as a mathematical value.
    pub closed spec fn view(&self) -> SessionView<T> {
        SessionView { phase: self.phase, controller: self.controller@ }
    }

    /// The sample rate of the streams the session opens.
    pub closed spec fn stream_rate(&self) -> u32 {
        self.sample_rate
    }

    /// The playback controller is consistent.
    pub closed spec fn wf(&self) -> bool {
        self.controller.wf()
    }

    /// Creates an idle session with nothing playing. `sample_rate` is the
    /// rate of the audio the synthesis model produces.
    pub fn new(sample_rate: u32) -> (session: Self)
        ensures
            session.wf(),
            session.stream_rate() == sample_rate,
            session@ == (SessionView::<T> {
                phase: SessionPhase::Idle,
                controller: ControllerView { sink: None, streaming: false },
            }),
    {
        SynthesisSession { phase: SessionPhase::Idle, controller: AudioController::new(), sample_rate }
    }

    /// Where the session stands.
    pub fn phase(&self) -> (phase: SessionPhase)
        ensures
            phase == self@.phase,
    {
        self.phase
    }

    /// What the session needs next.
    pub fn wanted(&self) -> (wanted: Wanted)
        ensures
            wanted == wanted_in(self@.phase),
    {
        match self.phase {
            SessionPhase::Idle => Wanted::Command,
            SessionPhase::Generating => Wanted::Chunk,
            SessionPhase::Draining => Wanted::Tick,
            SessionPhase::Waiting => Wanted::Tick,
        }
    }

    /// Gives the renderer its next sample.
    pub fn pull(&mut self) -> (answer: Pull<T>)
        requires
            old(self).wf(),
        ensures
            final(self).wf(),
            final(self).stream_rate() == old(self).stream_rate(),
            final(self)@.phase == old(self)@.phase,
            (final(self)@.controller, answer) == pull_sink(old(self)@.controller),
    {
        self.controller.pull()
    }

    fn quiet(&self) -> (step: SessionStep<T>)
        ensures
            step@ == quiet_step::<T>(self@.phase),
    {
        let step = SessionStep { reply: None, reactions: Vec::new(), wanted: self.wanted(), generate: None };
        assert(step@.reactions =~= Seq::empty());
        step
    }

    fn settle(&mut self, pending: SessionPhase) -> (step: SessionStep<T>)
        requires
            old(self).wf(),
        ensures
            final(self).wf(),
            final(self).stream_rate() == old(self).stream_rate(),
            (final(self)@, step@) == settle(old(self)@, pending),
    {
        if self.controller.is_finished() {
            self.phase = SessionPhase::Idle;
            let step = SessionStep {
                reply: Some(TtsResponse::Finished),
                reactions: Vec::new(),
                wanted: Wanted::Command,
                generate: None,
            };
            assert(step@.reactions =~= Seq::empty());
            step
        } else {
            self.phase = pending;
            self.quiet()
        }
    }

    /// Takes an event and says what to do.
    pub fn on_event(&mut self, event: SessionEvent<T>) -> (step: SessionStep<T>)
        requires
            old(self).wf(),
        ensures
            final(self).wf(),
            final(self).stream_rate() == old(self).stream_rate(),
            (final(self)@, step@) == session_step(old(self)@, event@, old(self).stream_rate()),
    {
        match self.phase {
            SessionPhase::Idle => match event {
                SessionEvent::Command(TtsCommand::GenerateAudio(text)) => {
                    let first = self.controller.stop();
                    let second = self.controller.start_streaming(self.sample_rate);
                    self.phase = SessionPhase::Generating;
                    let mut reactions: Vec<AudioReaction<T>> = Vec::new();
                    reactions.push(first);
                    reactions.push(second);
                    let step = SessionStep {
                        reply: Some(TtsResponse::Started),
                        reactions,
                        wanted: Wanted::Chunk,
                        generate: Some(text),
                    };
                    assert(step@.reactions =~= seq![first@, second@]);
                    step
                },
                SessionEvent::Command(TtsCommand::Stop) => {
                    let first = self.controller.stop();
                    let mut reactions: Vec<AudioReaction<T>> = Vec::new();
                    reactions.push(first);
                    let step = SessionStep {
                        reply: Some(TtsResponse::Stopped),
                        reactions,
                        wanted: Wanted::Command,
                        generate: None,
                    };
                    assert(step@.reactions =~= seq![first@]);
                    step
                },
                SessionEvent::Command(TtsCommand::WaitUntilFinished) => self.settle(
                    SessionPhase::Waiting,
                ),
                SessionEvent::Undecodable(detail) => {
                    let mut message = String::from_str("Failed to deserialize command: ");
                    message.append(detail.as_str());
                    let step = SessionStep {
                        reply: Some(TtsResponse::Error(message)),
                        reactions: Vec::new(),
                        wanted: Wanted::Command,
                        generate: None,
                    };
                    assert(step@.reactions =~= Seq::empty());
                    step
                },
                _ => self.quiet(),
            },
            SessionPhase::Generating => match event {
                SessionEvent::Chunk(samples) => {
                    let first = self.controller.stream_chunk(samples);
                    let mut reactions: Vec<AudioReaction<T>> = Vec::new();
                    reactions.push(first);
                    let step = SessionStep {
                        reply: None,
                        reactions,
                        wanted: Wanted::Chunk,
                        generate: None,
                    };
                    assert(step@.reactions =~= seq![first@]);
                    step
                },
                SessionEvent::ChunkFailed(detail) => {
                    let first = self.controller.stop();
                    self.phase = SessionPhase::Idle;
                    let mut reactions: Vec<AudioReaction<T>> = Vec::new();
                    reactions.push(first);
                    let step = SessionStep {
                        reply: Some(TtsResponse::Error(detail)),
                        reactions,
                        wanted: Wanted::Command,
                        generate: None,
                    };
                    assert(step@.reactions =~= seq![first@]);
                    step
                },
                SessionEvent::GenerationDone => {
                    let first = self.controller.finish_streaming();
                    let settled = self.settle(SessionPhase::Draining);
                    let mut reactions: Vec<AudioReaction<T>> = Vec::new();
                    reactions.push(first);
                    let step = SessionStep {
                        reply: settled.reply,
                        reactions,
                        wanted: settled.wanted,
                        generate: None,
                    };
                    assert(step@.reactions =~= seq![first@]);
                    step
                },
                _ => self.quiet(),
            },
            SessionPhase::Draining => match event {
                SessionEvent::Tick => self.settle(SessionPhase::Draining),
                _ => self.quiet(),
            },
            SessionPhase::Waiting => match event {
                SessionEvent::Tick => self.settle(SessionPhase::Waiting),
                _ => self.quiet(),
            },
        }
    }
}

/// Whether `events` is one generation from its request to its end: it opens
/// with a request to generate, and the session is idle again after the last
/// event and at no point in between.
pub open spec fn is_generation<T>(session: SessionView<T>, events: Seq<EventView<T>>, sample_rate: u32)
    -> bool {
    &&& session.phase == SessionPhase::Idle
    &&& events.len() > 0
    &&& events[0] is Command
    &&& events[0]->Command_0 is GenerateAudio
    &&& forall|k: int|
        1 <= k < events.len() ==> (#[trigger] session_after(
            session,
            events.take(k),
            sample_rate,
        )).phase != SessionPhase::Idle
    &&& session_after(session, events, sample_rate).phase == SessionPhase::Idle
}

/// While a generation is under way the session has answered `Started` and
/// nothing else, and it is generating or draining.
pub proof fn lemma_generation_under_way<T>(
    session: SessionView<T>,
    events: Seq<EventView<T>>,
    sample_rate: u32,
)
    requires
        session.phase == SessionPhase::Idle,
        events.len() > 0,
        events[0] is Command,
        events[0]->Command_0 is GenerateAudio,
        forall|k: int|
            1 <= k <= events.len() ==> (#[trigger] session_after(
                session,
                events.take(k),
                sample_rate,
            )).phase != SessionPhase::Idle,
    ensures
        session_replies(session, events, sample_rate) == seq![TtsResponseView::Started],
        session_after(session, events, sample_rate).phase == SessionPhase::Generating
            || session_after(session, events, sample_rate).phase == SessionPhase::Draining,
    decreases events.len(),
{
    let earlier = events.drop_last();
    assert(events.take(events.len() as int) =~= events);
    if events.len() == 1 {
        assert(session_replies(session, earlier, sample_rate) =~= Seq::<TtsResponseView>::empty());
    } else {
        assert forall|k: int| 1 <= k <= earlier.len() implies (#[trigger] session_after(
            session,
            earlier.take(k),
            sample_rate,
        )).phase != SessionPhase::Idle by {
            assert(earlier.take(k) =~= events.take(k));
        }
        lemma_generation_under_way(session, earlier, sample_rate);
    }
}

/// A generation is answered by exactly one `Started` followed by exactly
/// one of `Finished` and `Error`: never both, never neither, never anything
/// else.
pub proof fn lemma_generation_replies<T>(
    session: SessionView<T>,
    events: Seq<EventView<T>>,
    sample_rate: u32,
)
    requires
        is_generation(session, events, sample_rate),
    ensures
        ({
            let replies = session_replies(session, events, sample_rate);
            &&& replies.len() == 2
            &&& replies[0] == TtsResponseView::Started
            &&& replies[1] is Finished || replies[1] is Error
        }),
{
    let earlier = events.drop_last();
    if events.len() > 1 {
        assert forall|k: int| 1 <= k <= earlier.len() implies (#[trigger] session_after(
            session,
            earlier.take(k),
            sample_rate,
        )).phase != SessionPhase::Idle by {
            assert(earlier.take(k) =~= events.take(k));
        }
        lemma_generation_under_way(session, earlier, sample_rate);
    }
}

} // verus!
