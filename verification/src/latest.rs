//! Latest-frame exchange: a single slot that the producer overwrites and the
//! consumer empties.
//!
//! The consumer sees the most recently stored frame or nothing. Frames stored
//! between two polls are discarded, which bounds memory when the consumer is
//! slower than the producer. No frame is handed to more than one poll.
//!
//! Both operations take the exchange exclusively, which is what lets their
//! contracts speak of the slot's content. Threads that share one exchange
//! reach it through a lock held for the length of one call.

use crate::frame::Frame;
use crate::frame::FrameView;
use arc_swap::ArcSwap;
use std::sync::Arc;
use vstd::prelude::*;

verus! {

/// An atomically swappable cell holding at most one frame.
///
/// The cell is an `arc_swap::ArcSwap<Option<Frame>>`. Its content is known
/// to the verifier only through [`cell_content`].
#[verifier::external_body]
pub struct FrameCell {
    inner: ArcSwap<Option<Frame>>,
}

/// The frame that the cell holds, if any.
pub uninterp spec fn cell_content(cell: FrameCell) -> Option<FrameView>;

/// The view of an optional frame.
pub open spec fn content_of(held: Option<Frame>) -> Option<FrameView> {
    match held {
        Some(f) => Some(f@),
        None => None,
    }
}

/// The slot after `frame` was stored: whatever it held is replaced.
pub open spec fn after_store(held: Option<FrameView>, frame: FrameView) -> Option<FrameView> {
    Some(frame)
}

/// The slot after each frame of `stored` was stored in turn.
pub open spec fn after_stores(held: Option<FrameView>, stored: Seq<FrameView>) -> Option<FrameView>
    decreases stored.len(),
{
    if stored.len() == 0 {
        held
    } else {
        after_store(after_stores(held, stored.drop_last()), stored.last())
    }
}

/// What a take hands to the consumer: the held frame, if any.
pub open spec fn taken(held: Option<FrameView>) -> Option<FrameView> {
    held
}

/// The slot after a take: empty.
pub open spec fn after_take(held: Option<FrameView>) -> Option<FrameView> {
    None
}

/// `ArcSwap::from_pointee` applied to `None`. Trusted: the new cell holds no
/// frame.
#[verifier::external_body]
fn cell_empty() -> (cell: FrameCell)
    ensures
        cell_content(cell) is None,
{
    FrameCell { inner: ArcSwap::from_pointee(None) }
}

/// `ArcSwapAny::swap`. Trusted: afterwards the cell holds `next`, and the
/// pointer handed back is the one the cell held before the call.
#[verifier::external_body]
fn cell_swap(cell: &mut FrameCell, next: Arc<Option<Frame>>) -> (prev: Arc<Option<Frame>>)
    ensures
        cell_content(*final(cell)) == content_of(*next),
        content_of(*prev) == cell_content(*old(cell)),
{
    cell.inner.swap(next)
}

/// `Arc::try_unwrap`. Trusted: either way the value handed back is the one
/// the pointer referred to; which of the two it is depends on how many
/// pointers to the value exist.
#[verifier::external_body]
fn unwrap_shared(shared: Arc<Option<Frame>>) -> (r: Result<Option<Frame>, Arc<Option<Frame>>>)
    ensures
        match r {
            Ok(owned) => owned == *shared,
            Err(still_shared) => *still_shared == *shared,
        },
{
    Arc::try_unwrap(shared)
}

/// Turns a pointer to an optional frame into an owned optional frame,
/// copying the frame only when the pointer is still shared.
fn into_owned(shared: Arc<Option<Frame>>) -> (owned: Option<Frame>)
    ensures
        content_of(owned) == content_of(*shared),
{
    match unwrap_shared(shared) {
        Ok(owned) => owned,
        Err(still_shared) => match &*still_shared {
            Some(frame) => Some(frame.duplicate()),
            None => None,
        },
    }
}

/// The producer-to-consumer slot of the latest-only strategy.
pub struct LatestExchange {
    cell: FrameCell,
}

impl LatestExchange {
    /// The frame waiting in the slot, if any.
    pub closed spec fn held(&self) -> Option<FrameView> {
        cell_content(self.cell)
    }

    /// An empty exchange.
    pub fn new() -> (made: LatestExchange)
        ensures
            made.held() is None,
    {
        LatestExchange { cell: cell_empty() }
    }

    /// Replaces whatever the slot holds with `frame`. Never fails.
    pub fn store(&mut self, frame: Frame)
        ensures
            final(self).held() == after_store(old(self).held(), frame@),
    {
        let _ = cell_swap(&mut self.cell, Arc::new(Some(frame)));
    }

    /// Removes and returns the held frame, leaving the slot empty.
    pub fn take(&mut self) -> (head: Option<Frame>)
        ensures
            content_of(head) == taken(old(self).held()),
            final(self).held() == after_take(old(self).held()),
    {
        let prev = cell_swap(&mut self.cell, Arc::new(None));
        into_owned(prev)
    }
}

/// Last write wins: after any number of stores a take yields the frame
/// stored last; with no store an empty slot yields nothing; and a take
/// right after a take yields nothing, so no frame is handed out twice.
pub proof fn lemma_last_store_wins(held: Option<FrameView>, stored: Seq<FrameView>)
    ensures
        stored.len() > 0 ==> taken(after_stores(held, stored)) == Some(stored.last()),
        stored.len() == 0 ==> taken(after_stores(held, stored)) == held,
        taken(after_take(after_stores(held, stored))) is None,
{
}

} // verus!
