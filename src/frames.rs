//! Stereo output framing: each decoded frame is handed out as two consecutive
//! samples, left first.

use vstd::prelude::*;
use vstd::std_specs::iter::IteratorSpec;

verus! {

/// The samples of `frames`, each frame as its left sample followed by its right one.
pub open spec fn interleaved<X>(frames: Seq<(X, X)>) -> Seq<X>
    decreases frames.len(),
{
    if frames.len() == 0 {
        Seq::empty()
    } else {
        seq![frames[0].0, frames[0].1] + interleaved(frames.drop_first())
    }
}

/// The samples still to come from a framer holding `pending` whose input has
/// `frames` left.
pub open spec fn still_to_come<X>(pending: Option<X>, frames: Seq<(X, X)>) -> Seq<X> {
    match pending {
        Some(x) => seq![x] + interleaved(frames),
        None => interleaved(frames),
    }
}

/// Each frame gives exactly two samples, its left one and then its right one,
/// from the first frame to the last.
pub proof fn lemma_two_samples_per_frame<X>(frames: Seq<(X, X)>)
    ensures
        interleaved(frames).len() == 2 * frames.len(),
        forall|i: int|
            0 <= i < frames.len() ==> interleaved(frames)[2 * i] == (#[trigger] frames[i]).0
                && interleaved(frames)[2 * i + 1] == frames[i].1,
    decreases frames.len(),
{
    if frames.len() > 0 {
        let rest = frames.drop_first();
        lemma_two_samples_per_frame(rest);
        assert forall|i: int| 0 <= i < frames.len() implies interleaved(frames)[2 * i] == (
        #[trigger] frames[i]).0 && interleaved(frames)[2 * i + 1] == frames[i].1 by {
            if i > 0 {
                assert(frames[i] == rest[i - 1]);
                assert(interleaved(frames)[2 * i] == interleaved(rest)[2 * (i - 1)]);
                assert(interleaved(frames)[2 * i + 1] == interleaved(rest)[2 * (i - 1) + 1]);
            }
        }
    }
}

/// Turns an iterator of `(left, right)` frames into a stream of interleaved
/// samples.
pub struct StereoFrames<I, X> {
    input: I,
    buffered: Option<X>,
}

impl<X: Copy, I: Iterator<Item = (X, X)>> StereoFrames<I, X> {
    /// The input iterator of frames.
    pub closed spec fn source(&self) -> I {
        self.input
    }

    /// The right sample held back from the last frame, if it has not been handed out.
    pub closed spec fn pending(&self) -> Option<X> {
        self.buffered
    }

    /// Interleave the frames of `input`.
    pub fn new(input: I) -> (r: Self)
        ensures
            r.source() == input,
            r.pending() is None,
    {
        StereoFrames { input, buffered: None }
    }

    /// The next sample: the held-back right sample if there is one; otherwise
    /// the left sample of the next frame, whose right sample is then held back.
    /// `None` once the input has no more frames.
    pub fn next(&mut self) -> (r: Option<X>)
        ensures
            old(self).pending() is Some ==> r == old(self).pending() && final(self).pending() is None
                && final(self).source() == old(self).source(),
            old(self).pending() is None ==> (r is None && final(self).pending() is None) || (
            final(self).pending() is Some && r is Some),
            old(self).source().obeys_prophetic_iter_laws() ==> ({
                let before = still_to_come(old(self).pending(), old(self).source().remaining());
                let after = still_to_come(final(self).pending(), final(self).source().remaining());
                if before.len() > 0 {
                    r == Some(before[0]) && after == before.drop_first()
                } else {
                    r is None && after == before
                }
            }),
    {
        match self.buffered.take() {
            Some(s) => Some(s),
            None => match self.input.next() {
                Some(frame) => {
                    let (left, right) = frame;
                    self.buffered = Some(right);
                    Some(left)
                },
                None => None,
            },
        }
    }
}

} // verus!
