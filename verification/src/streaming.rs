//! The sample queue between one producer of audio and one renderer.
//!
//! The producer pushes frames and marks the stream finished; the renderer
//! pulls one sample at a time. A stream that is finished and drained has
//! ended for good.

use std::collections::VecDeque;
use vstd::prelude::*;

verus! {

/// A stream as a mathematical value.
pub struct StreamView<T> {
    /// Samples pushed and not yet pulled, oldest first.
    pub queued: Seq<T>,
    /// Whether the producer has marked the stream finished.
    pub finished: bool,
}

/// What a renderer gets when it asks for the next sample.
#[derive(Debug, PartialEq, Eq)]
pub enum Pull<T> {
    /// The next sample.
    Sample(T),
    /// Nothing is queued yet, but the producer has not finished: ask again.
    Starved,
    /// The stream has ended.
    EndOfStream,
}

/// The answer to a pull and the stream left behind.
pub open spec fn pull_stream<T>(stream: StreamView<T>) -> (StreamView<T>, Pull<T>) {
    if stream.queued.len() > 0 {
        (
            StreamView { queued: stream.queued.drop_first(), finished: stream.finished },
            Pull::Sample(stream.queued.first()),
        )
    } else if stream.finished {
        (stream, Pull::EndOfStream)
    } else {
        (stream, Pull::Starved)
    }
}

/// The stream left after `count` pulls with no producer activity in between.
pub open spec fn stream_after_pulls<T>(stream: StreamView<T>, count: nat) -> StreamView<T>
    decreases count,
{
    if count == 0 {
        stream
    } else {
        pull_stream(stream_after_pulls(stream, (count - 1) as nat)).0
    }
}

/// The answer to the pull that follows `count` earlier pulls.
pub open spec fn nth_pull<T>(stream: StreamView<T>, count: nat) -> Pull<T> {
    pull_stream(stream_after_pulls(stream, count)).1
}

/// Sample queue shared by a producer and a renderer.
pub struct StreamingAudioBuffer<T> {
    buffer: VecDeque<T>,
    finished: bool,
}

impl<T: Copy> StreamingAudioBuffer<T> {
    /// The stream as a mathematical value.
    pub closed spec fn view(&self) -> StreamView<T> {
        StreamView { queued: self.buffer@, finished: self.finished }
    }

    /// Creates an empty stream that is not finished.
    pub fn new() -> (stream: Self)
        ensures
            stream@ == (StreamView { queued: Seq::<T>::empty(), finished: false }),
    {
        StreamingAudioBuffer { buffer: VecDeque::new(), finished: false }
    }

    /// Appends `samples` to the queue.
    pub fn push_chunk(&mut self, samples: Vec<T>)
        ensures
            final(self)@ == (StreamView {
                queued: old(self)@.queued + samples@,
                finished: old(self)@.finished,
            }),
    {
        let mut i: usize = 0;
        while i < samples.len()
            invariant
                i <= samples.len(),
                self.finished == old(self).finished,
                self.buffer@ == old(self).buffer@ + samples@.take(i as int),
            decreases samples.len() - i,
        {
            self.buffer.push_back(samples[i]);
            i += 1;
        }
        assert(samples@.take(samples.len() as int) =~= samples@);
    }

    /// Marks the stream finished: no more samples will follow.
    pub fn mark_finished(&mut self)
        ensures
            final(self)@ == (StreamView { queued: old(self)@.queued, finished: true }),
    {
        self.finished = true;
    }

    /// Empties the queue and reopens the stream for reuse.
    pub fn clear(&mut self)
        ensures
            final(self)@ == (StreamView { queued: Seq::<T>::empty(), finished: false }),
    {
        self.buffer.clear();
        self.finished = false;
    }

    /// Whether the producer has marked the stream finished.
    pub fn is_finished(&self) -> (finished: bool)
        ensures
            finished == self@.finished,
    {
        self.finished
    }

    /// Number of samples queued.
    pub fn len(&self) -> (count: usize)
        ensures
            count == self@.queued.len(),
    {
        self.buffer.len()
    }

    /// Whether the stream has ended: finished and nothing left to pull.
    pub fn has_ended(&self) -> (ended: bool)
        ensures
            ended == (self@.finished && self@.queued.len() == 0),
    {
        self.finished && self.buffer.len() == 0
    }

    /// Takes the next sample if there is one; otherwise says whether the
    /// stream has ended or the renderer has to ask again.
    pub fn pull(&mut self) -> (answer: Pull<T>)
        ensures
            (final(self)@, answer) == pull_stream(old(self)@),
    {
        match self.buffer.pop_front() {
            Some(sample) => Pull::Sample(sample),
            None => {
                if self.finished {
                    Pull::EndOfStream
                } else {
                    Pull::Starved
                }
            },
        }
    }
}

/// Once a stream is finished and drained, it stays so, and every later pull
/// answers end-of-stream: never a sample, never a request to wait.
pub proof fn lemma_ended_stream_stays_ended<T>(stream: StreamView<T>, count: nat)
    requires
        stream.finished,
        stream.queued.len() == 0,
    ensures
        stream_after_pulls(stream, count) == stream,
        nth_pull(stream, count) == Pull::<T>::EndOfStream,
    decreases count,
{
    if count > 0 {
        lemma_ended_stream_stays_ended(stream, (count - 1) as nat);
    }
}

/// A finished stream plays out what is queued, in order, and then answers
/// end-of-stream on every later pull.
pub proof fn lemma_finished_stream_plays_out<T>(stream: StreamView<T>, count: nat)
    requires
        stream.finished,
    ensures
        stream_after_pulls(stream, count) == (StreamView {
            queued: stream.queued.skip(
                if count <= stream.queued.len() {
                    count as int
                } else {
                    stream.queued.len() as int
                },
            ),
            finished: true,
        }),
        nth_pull(stream, count) == if count < stream.queued.len() {
            Pull::Sample(stream.queued[count as int])
        } else {
            Pull::EndOfStream
        },
    decreases count,
{
    if count == 0 {
        assert(stream.queued.skip(0) =~= stream.queued);
    } else {
        let before = (count - 1) as nat;
        lemma_finished_stream_plays_out(stream, before);
        let earlier = stream_after_pulls(stream, before);
        if before < stream.queued.len() {
            assert(earlier.queued.drop_first() =~= stream.queued.skip(count as int));
        }
    }
}

} // verus!
