//! The bounded arrival-order queue that the FIFO strategies share.

use crate::frame::Frame;
use crate::frame::FrameView;
use std::collections::VecDeque;
use vstd::prelude::*;

verus! {

/// The views of a sequence of frames, in order.
pub open spec fn views(frames: Seq<Frame>) -> Seq<FrameView> {
    frames.map_values(|f: Frame| f@)
}

/// The last `capacity` items of `items`, or all of them if there are fewer.
pub open spec fn most_recent<T>(items: Seq<T>, capacity: nat) -> Seq<T> {
    if items.len() > capacity {
        items.skip(items.len() - capacity)
    } else {
        items
    }
}

/// Appending `frame` to `queue` and then discarding from the head until at
/// most `capacity` frames remain.
pub open spec fn push_bounded(queue: Seq<FrameView>, capacity: nat, frame: FrameView) -> Seq<
    FrameView,
> {
    most_recent(queue.push(frame), capacity)
}

/// What became of a frame that the producer offered.
#[derive(Clone, Copy, Debug, PartialEq, Eq)]
pub enum PushOutcome {
    /// The frame was appended; `evicted` older frames were discarded to
    /// stay within capacity.
    Stored { evicted: usize },
    /// The other side held the queue; the frame was dropped.
    Contended,
}

/// What a bounded queue is: its frames, oldest first, and its capacity.
pub struct QueueView {
    pub frames: Seq<FrameView>,
    pub capacity: nat,
}

/// Frames in arrival order under a fixed capacity: a push that overfills
/// the queue discards the oldest frames.
pub struct BoundedQueue {
    frames: VecDeque<Frame>,
    capacity: usize,
}

impl View for BoundedQueue {
    type V = QueueView;

    closed spec fn view(&self) -> QueueView {
        QueueView { frames: views(self.frames@), capacity: self.capacity as nat }
    }
}

impl BoundedQueue {
    /// An empty queue that will hold at most `capacity` frames.
    pub fn new(capacity: usize) -> (made: BoundedQueue)
        ensures
            made@.frames.len() == 0,
            made@.capacity == capacity,
    {
        BoundedQueue { frames: VecDeque::new(), capacity }
    }

    /// The capacity the queue was made with.
    pub fn capacity(&self) -> (c: usize)
        ensures
            c == self@.capacity,
    {
        self.capacity
    }

    /// Number of frames waiting.
    pub fn len(&self) -> (n: usize)
        ensures
            n == self@.frames.len(),
    {
        self.frames.len()
    }

    /// Whether no frame is waiting.
    pub fn is_empty(&self) -> (e: bool)
        ensures
            e == (self@.frames.len() == 0),
    {
        self.frames.len() == 0
    }

    /// Timecode of the oldest waiting frame, if there is one.
    pub fn head_timecode(&self) -> (t: Option<i64>)
        ensures
            t is Some <==> self@.frames.len() > 0,
            t matches Some(tc) ==> tc == self@.frames[0].timecode,
    {
        if self.frames.len() == 0 {
            None
        } else {
            Some(self.frames[0].timecode())
        }
    }

    /// Removes and returns the oldest waiting frame, if there is one.
    pub fn pop(&mut self) -> (head: Option<Frame>)
        ensures
            final(self)@.capacity == old(self)@.capacity,
            head is Some <==> old(self)@.frames.len() > 0,
            head is None ==> final(self)@ == old(self)@,
            head matches Some(f) ==> f@ == old(self)@.frames[0] && final(self)@.frames == old(
                self,
            )@.frames.skip(1),
    {
        let head = self.frames.pop_front();
        proof {
            if old(self).frames@.len() > 0 {
                assert(views(old(self).frames@.subrange(1, old(self).frames@.len() as int))
                    =~= views(old(self).frames@).skip(1));
            }
        }
        head
    }

    /// Appends `frame` at the tail, then removes from the head until the
    /// length is within capacity. Returns how many frames were removed.
    pub fn push(&mut self, frame: Frame) -> (evicted: usize)
        ensures
            final(self)@.capacity == old(self)@.capacity,
            final(self)@.frames == push_bounded(old(self)@.frames, old(self)@.capacity, frame@),
            final(self)@.frames.len() <= final(self)@.capacity,
            evicted == old(self)@.frames.len() + 1 - final(self)@.frames.len(),
    {
        let ghost grown = old(self).frames@.push(frame);
        self.frames.push_back(frame);
        let mut evicted: usize = 0;
        assert(self.frames@.len() == self.frames.len());
        assert(grown.skip(0) =~= grown);
        while self.frames.len() > self.capacity
            invariant
                self.capacity == old(self).capacity,
                evicted + self.frames@.len() == grown.len(),
                grown.len() <= usize::MAX,
                evicted > 0 ==> self.frames@.len() >= self.capacity,
                self.frames@ == grown.skip(evicted as int),
            decreases self.frames@.len(),
        {
            let _ = self.frames.pop_front();
            evicted += 1;
            assert(self.frames@ =~= grown.skip(evicted as int));
        }
        proof {
            assert(views(grown) =~= views(old(self).frames@).push(frame@));
            assert(views(grown.skip(evicted as int)) =~= views(grown).skip(evicted as int));
        }
        evicted
    }
}

/// The queue after pushing each frame of `pushed` in turn.
pub open spec fn push_all(queue: Seq<FrameView>, capacity: nat, pushed: Seq<FrameView>) -> Seq<
    FrameView,
>
    decreases pushed.len(),
{
    if pushed.len() == 0 {
        queue
    } else {
        push_bounded(push_all(queue, capacity, pushed.drop_last()), capacity, pushed.last())
    }
}

/// However many frames are pushed, the queue never holds more than its
/// capacity, and what it holds are the most recent arrivals in arrival
/// order: the tail of everything that was queued or pushed.
pub proof fn lemma_push_all_keeps_most_recent(
    queue: Seq<FrameView>,
    capacity: nat,
    pushed: Seq<FrameView>,
)
    requires
        queue.len() <= capacity,
    ensures
        push_all(queue, capacity, pushed).len() <= capacity,
        push_all(queue, capacity, pushed) == most_recent(queue + pushed, capacity),
    decreases pushed.len(),
{
    if pushed.len() == 0 {
        assert(queue + pushed =~= queue);
    } else {
        let earlier = pushed.drop_last();
        lemma_push_all_keeps_most_recent(queue, capacity, earlier);
        let before = most_recent(queue + earlier, capacity);
        assert((queue + earlier).push(pushed.last()) =~= queue + pushed);
        assert(most_recent(before.push(pushed.last()), capacity) =~= most_recent(
            queue + pushed,
            capacity,
        ));
    }
}

} // verus!
