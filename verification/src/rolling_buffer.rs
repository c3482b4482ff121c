//! A bounded first-in-first-out store of the most recent audio frames.
//!
//! The buffer keeps the audio that immediately precedes a wake word, so that
//! the start of an utterance is not clipped by detection latency.

use std::collections::VecDeque;
use vstd::prelude::*;
use crate::frames::{frame_views, last_entries, lemma_flatten_append};

verus! {

/// Number of frames needed to cover `span` time units with frames of
/// `frame` time units each, rounded up.
///
/// A zero-length frame never covers a positive span, so the count is then
/// unbounded (`usize::MAX`); an empty span needs no frame at all.
pub open spec fn frames_to_cover(span: nat, frame: nat) -> nat {
    if span == 0 {
        0
    } else if frame == 0 {
        usize::MAX as nat
    } else {
        let whole = span / frame;
        let rounded = if span % frame == 0 { whole } else { whole + 1 };
        if rounded > usize::MAX { usize::MAX as nat } else { rounded }
    }
}

/// Computes [`frames_to_cover`].
pub fn frames_needed(span: u64, frame: u64) -> (count: usize)
    ensures
        count == frames_to_cover(span as nat, frame as nat),
{
    if span == 0 {
        0
    } else if frame == 0 {
        usize::MAX
    } else {
        let whole: u64 = span / frame;
        let partial: bool = span % frame != 0;
        if whole >= usize::MAX as u64 {
            usize::MAX
        } else if partial {
            (whole + 1) as usize
        } else {
            whole as usize
        }
    }
}

/// The frames left after pushing `frame` into a store of at most `capacity`
/// frames: the oldest frame leaves first when the store is full.
pub open spec fn push_frame<A>(frames: Seq<A>, capacity: nat, frame: A) -> Seq<A> {
    if frames.len() >= capacity && frames.len() > 0 {
        frames.drop_first().push(frame)
    } else {
        frames.push(frame)
    }
}

/// The frames left after pushing every entry of `incoming`, oldest first.
pub open spec fn push_frames<A>(frames: Seq<A>, capacity: nat, incoming: Seq<A>) -> Seq<A>
    decreases incoming.len(),
{
    if incoming.len() == 0 {
        frames
    } else {
        push_frame(push_frames(frames, capacity, incoming.drop_last()), capacity, incoming.last())
    }
}

/// Bounded FIFO of recent audio frames.
pub struct RollingBuffer<T> {
    chunks: VecDeque<Vec<T>>,
    max_chunks: usize,
}

impl<T> RollingBuffer<T> {
    /// The buffered frames, oldest first.
    pub closed spec fn view(&self) -> Seq<Seq<T>> {
        frame_views(self.chunks@)
    }

    /// The configured number of frames the buffer retains.
    pub closed spec fn capacity(&self) -> nat {
        self.max_chunks as nat
    }

    /// A buffer never holds more frames than its capacity, except that a
    /// buffer of capacity zero still holds the single most recent frame.
    pub open spec fn wf(&self) -> bool {
        self@.len() <= self.capacity() || self@.len() <= 1
    }

    /// Creates an empty buffer that retains `duration` time units of audio
    /// made of frames lasting `chunk_duration` time units each.
    pub fn new(duration: u64, chunk_duration: u64) -> (buffer: Self)
        ensures
            buffer@ == Seq::<Seq<T>>::empty(),
            buffer.capacity() == frames_to_cover(duration as nat, chunk_duration as nat),
            buffer.wf(),
    {
        let buffer = Self::with_capacity(frames_needed(duration, chunk_duration));
        buffer
    }

    /// Creates an empty buffer that retains `max_chunks` frames.
    pub fn with_capacity(max_chunks: usize) -> (buffer: Self)
        ensures
            buffer@ == Seq::<Seq<T>>::empty(),
            buffer.capacity() == max_chunks,
            buffer.wf(),
    {
        let buffer = RollingBuffer { chunks: VecDeque::new(), max_chunks };
        buffer
    }

    /// Number of frames the buffer retains.
    pub fn max_chunks(&self) -> (count: usize)
        ensures
            count == self.capacity(),
    {
        self.max_chunks
    }

    /// Number of frames currently buffered.
    pub fn len(&self) -> (count: usize)
        ensures
            count == self@.len(),
    {
        self.chunks.len()
    }

    /// Whether no frame is buffered.
    pub fn is_empty(&self) -> (empty: bool)
        ensures
            empty == (self@.len() == 0),
    {
        self.chunks.len() == 0
    }

    /// Pushes a frame, evicting the oldest frame if the buffer is at capacity.
    pub fn push(&mut self, chunk: Vec<T>)
        requires
            old(self).wf(),
        ensures
            final(self)@ == push_frame(old(self)@, old(self).capacity(), chunk@),
            final(self).capacity() == old(self).capacity(),
            final(self).wf(),
    {
        if self.chunks.len() >= self.max_chunks {
            let _ = self.chunks.pop_front();
        }
        self.chunks.push_back(chunk);
    }

    /// Removes every frame and returns their samples concatenated in order.
    pub fn drain_flat(&mut self) -> (samples: Vec<T>)
        ensures
            samples@ == old(self)@.flatten(),
            final(self)@ == Seq::<Seq<T>>::empty(),
            final(self).capacity() == old(self).capacity(),
            final(self).wf(),
    {
        let ghost all = self@;
        let ghost mut done: Seq<Seq<T>> = Seq::empty();
        let mut result: Vec<T> = Vec::new();
        while self.chunks.len() > 0
            invariant
                self.max_chunks == old(self).max_chunks,
                done + frame_views(self.chunks@) == all,
                result@ == done.flatten(),
            decreases self.chunks.len(),
        {
            let mut chunk = self.chunks.pop_front().unwrap();
            proof {
                lemma_flatten_append(done, chunk@);
                done = done.push(chunk@);
            }
            result.append(&mut chunk);
        }
        result
    }
}

/// Pushing into a buffer that respects its capacity keeps the most recent
/// frames: the stored frames followed by the pushed ones, cut down to the last
/// `capacity` entries.
pub proof fn lemma_push_frames_keeps_latest<A>(frames: Seq<A>, capacity: nat, incoming: Seq<A>)
    requires
        capacity >= 1,
        frames.len() <= capacity,
    ensures
        push_frames(frames, capacity, incoming) == last_entries(frames + incoming, capacity),
    decreases incoming.len(),
{
    if incoming.len() > 0 {
        lemma_push_frames_keeps_latest(frames, capacity, incoming.drop_last());
    }
}

/// Pushing one frame more than the capacity into an empty buffer leaves
/// exactly the last `capacity` frames, in the order they were pushed.
pub proof fn lemma_overfill_keeps_last_frames<A>(capacity: nat, incoming: Seq<A>)
    requires
        capacity >= 1,
        incoming.len() == capacity + 1,
    ensures
        push_frames(Seq::<A>::empty(), capacity, incoming) == incoming.subrange(
            1,
            incoming.len() as int,
        ),
{
    lemma_push_frames_keeps_latest(Seq::<A>::empty(), capacity, incoming);
}

} // verus!
