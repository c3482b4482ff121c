//! Sequences of audio frames and their concatenation.

use vstd::prelude::*;

verus! {

/// The sample sequences held by a list of frames.
pub open spec fn frame_views<T>(frames: Seq<Vec<T>>) -> Seq<Seq<T>> {
    Seq::new(frames.len(), |i: int| frames[i]@)
}

/// The last `count` entries of `items`, or all of them when there are fewer.
pub open spec fn last_entries<A>(items: Seq<A>, count: nat) -> Seq<A> {
    if items.len() <= count {
        items
    } else {
        items.subrange(items.len() - count, items.len() as int)
    }
}

/// Concatenating frames after putting one frame at the end.
pub proof fn lemma_flatten_append<T>(frames: Seq<Seq<T>>, last: Seq<T>)
    ensures
        frames.push(last).flatten() == frames.flatten() + last,
    decreases frames.len(),
{
    if frames.len() == 0 {
        reveal_with_fuel(Seq::flatten, 2);
    } else {
        lemma_flatten_append(frames.drop_first(), last);
        assert(frames.push(last).drop_first() =~= frames.drop_first().push(last));
    }
}

/// Moves every frame of `frames`, in order, onto the end of `samples`.
pub fn append_frames<T>(samples: &mut Vec<T>, frames: Vec<Vec<T>>)
    ensures
        final(samples)@ == old(samples)@ + frame_views(frames@).flatten(),
{
    let ghost all = frame_views(frames@);
    let ghost before = samples@;
    let mut frames = frames;
    let mut i: usize = 0;
    while i < frames.len()
        invariant
            i <= frames.len(),
            frames.len() == all.len(),
            forall|j: int| i <= j < frames.len() ==> (#[trigger] frames@[j])@ == all[j],
            samples@ == before + all.take(i as int).flatten(),
        decreases frames.len() - i,
    {
        let mut frame: Vec<T> = Vec::new();
        std::mem::swap(&mut frame, &mut frames[i]);
        proof {
            lemma_flatten_append(all.take(i as int), all[i as int]);
            assert(all.take(i as int).push(all[i as int]) =~= all.take(i + 1));
        }
        samples.append(&mut frame);
        i += 1;
    }
    proof {
        assert(all.take(all.len() as int) =~= all);
    }
}

} // verus!
