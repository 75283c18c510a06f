//! Bounded FIFO exchange with drop-oldest overflow and start-up prefill.
//!
//! Frames are released in arrival order. Nothing is released until more than
//! a prefill threshold of frames is buffered; that absorbs producer jitter at
//! the price of a fixed start-up latency. From the first release on, the head
//! frame is released on every poll that finds one.

use crate::frame::Frame;
use crate::frame::FrameView;
use crate::queue::push_bounded;
use crate::queue::BoundedQueue;
use crate::queue::PushOutcome;
use vstd::prelude::*;

verus! {

/// What a FIFO exchange is: the buffered frames, oldest first, its two
/// limits, and whether the prefill threshold has been passed.
pub struct FifoView {
    pub frames: Seq<FrameView>,
    pub capacity: nat,
    pub prefill: nat,
    pub primed: bool,
}

impl FifoView {
    /// The consumer may take frames: the threshold was passed before, or
    /// more than `prefill` frames are buffered now.
    pub open spec fn ready(self) -> bool {
        self.primed || self.frames.len() > self.prefill
    }

    /// The exchange after the producer pushed `frame`.
    pub open spec fn after_push(self, frame: FrameView) -> FifoView {
        FifoView { frames: push_bounded(self.frames, self.capacity, frame), ..self }
    }

    /// What a poll releases.
    pub open spec fn released(self) -> Option<FrameView> {
        if self.ready() && self.frames.len() > 0 {
            Some(self.frames[0])
        } else {
            None
        }
    }

    /// The exchange after a poll.
    pub open spec fn after_poll(self) -> FifoView {
        if !self.ready() {
            self
        } else if self.frames.len() > 0 {
            FifoView { frames: self.frames.skip(1), primed: true, ..self }
        } else {
            FifoView { primed: true, ..self }
        }
    }

    /// The exchange after the producer pushed each frame of `pushed`.
    pub open spec fn after_pushes(self, pushed: Seq<FrameView>) -> FifoView
        decreases pushed.len(),
    {
        if pushed.len() == 0 {
            self
        } else {
            self.after_pushes(pushed.drop_last()).after_push(pushed.last())
        }
    }
}

/// Why a configuration was refused.
#[derive(Clone, Copy, Debug, PartialEq, Eq)]
pub enum ConfigError {
    /// The prefill threshold is larger than the capacity, so the queue
    /// would discard frames before it could ever release one.
    PrefillExceedsCapacity,
}

/// The producer-to-consumer queue of the bounded FIFO strategy.
pub struct FifoExchange {
    queue: BoundedQueue,
    prefill: usize,
    primed: bool,
}

impl View for FifoExchange {
    type V = FifoView;

    closed spec fn view(&self) -> FifoView {
        FifoView {
            frames: self.queue@.frames,
            capacity: self.queue@.capacity,
            prefill: self.prefill as nat,
            primed: self.primed,
        }
    }
}

impl FifoExchange {
    /// An empty exchange holding at most `capacity` frames and releasing
    /// none until more than `prefill` are buffered. Refused when `prefill`
    /// exceeds `capacity`. With `prefill` equal to `capacity` the exchange
    /// is accepted and never releases a frame.
    pub fn new(capacity: usize, prefill: usize) -> (made: Result<FifoExchange, ConfigError>)
        ensures
            made is Ok <==> prefill <= capacity,
            made matches Ok(exchange) ==> exchange@ == (FifoView {
                frames: Seq::empty(),
                capacity: capacity as nat,
                prefill: prefill as nat,
                primed: false,
            }),
            made matches Err(e) ==> e == ConfigError::PrefillExceedsCapacity,
    {
        if prefill > capacity {
            Err(ConfigError::PrefillExceedsCapacity)
        } else {
            let queue = BoundedQueue::new(capacity);
            assert(queue@.frames =~= Seq::empty());
            Ok(FifoExchange { queue, prefill, primed: false })
        }
    }

    /// Number of frames buffered.
    pub fn len(&self) -> (n: usize)
        ensures
            n == self@.frames.len(),
    {
        self.queue.len()
    }

    /// Appends `frame`; if that overfills the queue, discards from the head
    /// until it fits. Returns how many frames were discarded.
    pub fn push(&mut self, frame: Frame) -> (evicted: usize)
        ensures
            final(self)@ == old(self)@.after_push(frame@),
            final(self)@.frames.len() <= final(self)@.capacity,
            evicted == old(self)@.frames.len() + 1 - final(self)@.frames.len(),
    {
        self.queue.push(frame)
    }

    /// Releases the head frame once the prefill threshold has been passed.
    pub fn pop_if_ready(&mut self) -> (head: Option<Frame>)
        ensures
            final(self)@ == old(self)@.after_poll(),
            head is Some <==> old(self)@.released() is Some,
            head matches Some(f) ==> Some(f@) == old(self)@.released(),
    {
        if !self.primed {
            if self.queue.len() > self.prefill {
                self.primed = true;
            } else {
                return None;
            }
        }
        self.queue.pop()
    }

    /// The producer's non-blocking push: `access` is the exchange if the
    /// producer got hold of it, `None` if the consumer held it. Without
    /// access the frame is dropped.
    pub fn try_push(access: Option<&mut FifoExchange>, frame: Frame) -> (outcome: PushOutcome)
        ensures
            access is None ==> outcome == PushOutcome::Contended,
            access matches Some(exchange) ==> final(exchange)@ == exchange@.after_push(frame@)
                && outcome == (PushOutcome::Stored {
                evicted: (exchange@.frames.len() + 1 - final(exchange)@.frames.len()) as usize,
            }),
    {
        match access {
            Some(exchange) => {
                let evicted = exchange.push(frame);
                PushOutcome::Stored { evicted }
            },
            None => PushOutcome::Contended,
        }
    }

    /// The consumer's non-blocking poll: without access nothing is taken
    /// and nothing is lost; the consumer tries again on its next tick.
    pub fn try_pop_if_ready(access: Option<&mut FifoExchange>) -> (head: Option<Frame>)
        ensures
            access is None ==> head is None,
            access matches Some(exchange) ==> final(exchange)@ == exchange@.after_poll() && (
            head is Some <==> exchange@.released() is Some) && (head matches Some(f) ==> Some(f@)
                == exchange@.released()),
    {
        match access {
            Some(exchange) => exchange.pop_if_ready(),
            None => None,
        }
    }
}

/// A fresh exchange releases nothing until strictly more than `prefill`
/// frames have been pushed. Once they have, and as long as no push has
/// overfilled the queue, the first frame released is the first one pushed.
pub proof fn lemma_prefill_holds_back(fresh: FifoView, pushed: Seq<FrameView>)
    requires
        fresh.frames.len() == 0,
        !fresh.primed,
    ensures
        pushed.len() <= fresh.prefill ==> fresh.after_pushes(pushed).released() is None,
        fresh.prefill < pushed.len() <= fresh.capacity ==> fresh.after_pushes(pushed).released()
            == Some(pushed[0]),
{
    lemma_after_pushes(fresh, pushed);
    crate::queue::lemma_push_all_keeps_most_recent(fresh.frames, fresh.capacity, pushed);
    assert(fresh.frames + pushed =~= pushed);
}

/// Pushing changes only the buffered frames, as the queue's own pushes do.
proof fn lemma_after_pushes(start: FifoView, pushed: Seq<FrameView>)
    ensures
        start.after_pushes(pushed) == (FifoView {
            frames: crate::queue::push_all(start.frames, start.capacity, pushed),
            ..start
        }),
    decreases pushed.len(),
{
    if pushed.len() > 0 {
        lemma_after_pushes(start, pushed.drop_last());
    }
}

} // verus!
