//! The queue of frames between a dispatcher and the sink of its transport. It
//! is bounded: a full queue takes no frame, so that a slow peer holds back
//! those who make calls.

use std::collections::VecDeque;
use vstd::prelude::*;

verus! {

/// A bounded queue that hands frames out in the order in which it took them.
pub struct Outbound<T> {
    frames: VecDeque<T>,
    capacity: u32,
}

impl<T> View for Outbound<T> {
    type V = Seq<T>;

    closed spec fn view(&self) -> Seq<T> {
        self.frames@
    }
}

impl<T> Outbound<T> {
    /// How many frames the queue holds at most.
    pub closed spec fn capacity(&self) -> nat {
        self.capacity as nat
    }

    /// The queue holds no more frames than it may.
    pub closed spec fn wf(&self) -> bool {
        self.frames@.len() <= self.capacity
    }

    /// What is known of every queue.
    pub proof fn lemma_bounded(&self)
        requires
            self.wf(),
        ensures
            self@.len() <= self.capacity(),
    {
    }

    /// An empty queue for up to `capacity` frames.
    pub fn new(capacity: u32) -> (queue: Self)
        ensures
            queue.wf(),
            queue@ == Seq::<T>::empty(),
            queue.capacity() == capacity,
    {
        Outbound { frames: VecDeque::new(), capacity }
    }

    /// How many frames wait.
    pub fn len(&self) -> (n: usize)
        requires
            self.wf(),
        ensures
            n == self@.len(),
    {
        self.frames.len()
    }

    /// Whether the queue can take a frame.
    pub fn is_ready(&self) -> (ready: bool)
        requires
            self.wf(),
        ensures
            ready == (self@.len() < self.capacity()),
    {
        self.frames.len() < self.capacity as usize
    }

    /// Whether every frame has been handed out.
    pub fn is_flushed(&self) -> (flushed: bool)
        requires
            self.wf(),
        ensures
            flushed == (self@.len() == 0),
    {
        self.frames.len() == 0
    }

    /// Puts `frame` at the end of the queue. A full queue does not take it and
    /// hands it back.
    pub fn offer(&mut self, frame: T) -> (refused: Result<(), T>)
        requires
            old(self).wf(),
        ensures
            final(self).wf(),
            final(self).capacity() == old(self).capacity(),
            old(self)@.len() < old(self).capacity() ==> refused is Ok && final(self)@ == old(self)@.push(frame),
            old(self)@.len() >= old(self).capacity() ==> refused == Err::<(), T>(frame) && final(self)@ == old(self)@,
    {
        if self.frames.len() < self.capacity as usize {
            self.frames.push_back(frame);
            Ok(())
        } else {
            Err(frame)
        }
    }

    /// Drops every frame that waits.
    pub fn clear(&mut self)
        requires
            old(self).wf(),
        ensures
            final(self).wf(),
            final(self).capacity() == old(self).capacity(),
            final(self)@ == Seq::<T>::empty(),
    {
        self.frames.clear();
    }

    /// Takes the frame that has waited longest, for the sink of the transport.
    pub fn take(&mut self) -> (frame: Option<T>)
        requires
            old(self).wf(),
        ensures
            final(self).wf(),
            final(self).capacity() == old(self).capacity(),
            old(self)@.len() == 0 ==> frame is None && final(self)@ == old(self)@,
            old(self)@.len() > 0 ==> frame == Some(old(self)@[0]) && final(self)@ == old(self)@.subrange(1, old(self)@.len() as int),
    {
        self.frames.pop_front()
    }
}

/// Frames leave the queue in the order in which they came: of two frames that
/// were taken in one after the other, the first stands before the second, and
/// both stand behind every frame that waited already.
pub proof fn lemma_first_in_first_out<T>(queue: Seq<T>, first: T, second: T)
    ensures
        queue.push(first).push(second)[queue.len() as int] == first,
        queue.push(first).push(second)[queue.len() as int + 1] == second,
        forall|i: int| 0 <= i < queue.len() ==> queue.push(first).push(second)[i] == queue[i],
{
}

} // verus!
