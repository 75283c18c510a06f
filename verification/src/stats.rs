//! Counters for the two kinds of expected frame loss: frames discarded to
//! stay within capacity, and frames dropped because the other side held the
//! queue.

use crate::queue::PushOutcome;
use vstd::prelude::*;

verus! {

/// What the counters hold. Each stops at `u64::MAX`.
pub struct DropCountersView {
    pub overflow: nat,
    pub contention: nat,
}

/// `count + more`, stopping at `u64::MAX`.
pub open spec fn capped_sum(count: nat, more: nat) -> nat {
    if count + more > u64::MAX {
        u64::MAX as nat
    } else {
        count + more
    }
}

impl DropCountersView {
    /// The counters after the producer saw `outcome`.
    pub open spec fn after(self, outcome: PushOutcome) -> DropCountersView {
        match outcome {
            PushOutcome::Stored { evicted } => DropCountersView {
                overflow: capped_sum(self.overflow, evicted as nat),
                ..self
            },
            PushOutcome::Contended => DropCountersView {
                contention: capped_sum(self.contention, 1),
                ..self
            },
        }
    }
}

/// Running totals of lost frames, kept by the producer.
pub struct DropCounters {
    overflow: u64,
    contention: u64,
}

impl View for DropCounters {
    type V = DropCountersView;

    closed spec fn view(&self) -> DropCountersView {
        DropCountersView { overflow: self.overflow as nat, contention: self.contention as nat }
    }
}

impl DropCounters {
    /// Counters at zero.
    pub fn new() -> (made: DropCounters)
        ensures
            made@ == (DropCountersView { overflow: 0, contention: 0 }),
    {
        DropCounters { overflow: 0, contention: 0 }
    }

    /// Frames discarded from the head of a full queue so far.
    pub fn overflow(&self) -> (n: u64)
        ensures
            n == self@.overflow,
    {
        self.overflow
    }

    /// Frames dropped because the consumer held the queue so far.
    pub fn contention(&self) -> (n: u64)
        ensures
            n == self@.contention,
    {
        self.contention
    }

    /// Adds what one push attempt lost to the totals.
    pub fn record(&mut self, outcome: PushOutcome)
        ensures
            final(self)@ == old(self)@.after(outcome),
    {
        match outcome {
            PushOutcome::Stored { evicted } => {
                self.overflow = self.overflow.saturating_add(evicted as u64);
            },
            PushOutcome::Contended => {
                self.contention = self.contention.saturating_add(1);
            },
        }
    }
}

} // verus!
