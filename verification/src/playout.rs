//! Adaptive playout (jitter) buffer for decoded audio frames.
//!
//! Holds at least `target_frames` frames before handing any out, and drops
//! the oldest frame once `max_frames` are queued, to catch up.
use vstd::prelude::*;
use std::collections::VecDeque;

verus! {

/// Frames that `push` keeps before appending: all of them, or all but the
/// oldest once the buffer is at its cap.
pub open spec fn kept_before_push<F>(frames: Seq<F>, max: nat) -> Seq<F> {
    if frames.len() >= max && frames.len() > 0 {
        frames.subrange(1, frames.len() as int)
    } else {
        frames
    }
}

/// The most frames the buffer ever holds: `max`, or one when `max` is zero.
pub open spec fn capacity_bound(max: nat) -> nat {
    if max == 0 {
        1
    } else {
        max
    }
}

/// A FIFO of frames of any type `F`.
pub struct PlayoutBuffer<F> {
    frames: VecDeque<F>,
    target_frames: usize,
    max_frames: usize,
}

impl<F> PlayoutBuffer<F> {
    /// The queued frames, oldest first.
    pub closed spec fn frames(&self) -> Seq<F> {
        self.frames@
    }

    /// How many frames must be queued before `pop` hands one out.
    pub closed spec fn target(&self) -> nat {
        self.target_frames as nat
    }

    /// How many queued frames make `push` drop the oldest.
    pub closed spec fn max(&self) -> nat {
        self.max_frames as nat
    }

    /// The queue never holds more than its cap.
    pub open spec fn wf(&self) -> bool {
        self.frames().len() <= capacity_bound(self.max())
    }

    /// An empty buffer that pre-buffers `target_frames` frames and caps the
    /// queue at four times that.
    pub fn new(target_frames: usize) -> (r: PlayoutBuffer<F>)
        requires
            target_frames <= usize::MAX / 4,
        ensures
            r.wf(),
            r.frames().len() == 0,
            r.target() == target_frames,
            r.max() == 4 * target_frames,
    {
        PlayoutBuffer { frames: VecDeque::new(), target_frames, max_frames: target_frames * 4 }
    }

    /// Queues a frame, dropping the oldest first when the queue is at its cap.
    pub fn push(&mut self, frame: F)
        requires
            old(self).wf(),
        ensures
            final(self).wf(),
            final(self).frames() == kept_before_push(old(self).frames(), old(self).max()).push(frame),
            final(self).target() == old(self).target(),
            final(self).max() == old(self).max(),
    {
        if self.frames.len() >= self.max_frames {
            let _dropped = self.frames.pop_front();
        }
        self.frames.push_back(frame);
    }

    /// The oldest frame, once at least `target_frames` are queued; `None`
    /// (play silence) before that.
    pub fn pop(&mut self) -> (r: Option<F>)
        requires
            old(self).wf(),
        ensures
            final(self).wf(),
            final(self).target() == old(self).target(),
            final(self).max() == old(self).max(),
            old(self).frames().len() >= old(self).target() && old(self).frames().len() > 0 ==> r
                == Some(old(self).frames()[0]) && final(self).frames() == old(self).frames().subrange(
                1,
                old(self).frames().len() as int,
            ),
            !(old(self).frames().len() >= old(self).target() && old(self).frames().len() > 0) ==> r
                is None && final(self).frames() == old(self).frames(),
    {
        if self.frames.len() >= self.target_frames {
            self.frames.pop_front()
        } else {
            None
        }
    }

    /// How many frames are queued.
    pub fn buffered_frames(&self) -> (r: usize)
        ensures
            r == self.frames().len(),
    {
        self.frames.len()
    }

    /// Drops every queued frame.
    pub fn reset(&mut self)
        ensures
            final(self).wf(),
            final(self).frames().len() == 0,
            final(self).target() == old(self).target(),
            final(self).max() == old(self).max(),
    {
        self.frames.clear();
    }
}

} // verus!
