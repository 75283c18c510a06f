//! Timecode-synchronized exchange: frames are released when the wall clock
//! reaches the moment their source timecode maps to.
//!
//! The first time the consumer finds a frame waiting, the exchange anchors
//! that frame's timecode to the consumer's clock. Every later frame is due
//! at the anchor plus its timecode distance from the anchor frame, so the
//! spacing between frames on screen is the spacing at capture.

use crate::frame::Frame;
use crate::frame::FrameView;
use crate::queue::push_bounded;
use crate::queue::views;
use crate::queue::BoundedQueue;
use crate::queue::PushOutcome;
use vstd::prelude::*;

verus! {

/// Nanoseconds in one timecode tick.
pub const TICK_NANOS: i128 = 100;

/// The anchor of the pacing: a source timecode (100 ns ticks) and the
/// wall-clock instant (nanoseconds on the consumer's monotonic clock) at
/// which the frame with that timecode was first seen waiting.
#[derive(Clone, Copy, Debug, PartialEq, Eq, Structural)]
pub struct Baseline {
    pub reference_timecode: i64,
    pub reference_instant: u64,
}

/// How the exchange decides that a frame may be shown.
#[derive(Clone, Copy, Debug, PartialEq, Eq, Structural)]
pub enum PacingMode {
    /// Frames queue up and each waits for its own deadline.
    Timecode,
    /// The source corrects the clock itself: the producer polls it every
    /// `tick_millis` and only its most recent frame is kept, due at once.
    SourceCorrected { tick_millis: u64 },
}

/// Wall-clock deadline, in nanoseconds, of a frame with `timecode`.
pub open spec fn deadline_at(baseline: Baseline, timecode: int) -> int {
    baseline.reference_instant + (timecode - baseline.reference_timecode) * 100
}

/// Whether a frame with `timecode` may be shown at `now`.
pub open spec fn eligible(mode: PacingMode, baseline: Baseline, timecode: int, now: int) -> bool {
    mode is SourceCorrected || now >= deadline_at(baseline, timecode)
}

/// Length of the longest prefix of `frames` whose frames are all eligible
/// at `now`.
pub open spec fn due_run(mode: PacingMode, baseline: Baseline, frames: Seq<FrameView>, now: int) -> nat
    decreases frames.len(),
{
    if frames.len() == 0 || !eligible(mode, baseline, frames[0].timecode, now) {
        0
    } else {
        1 + due_run(mode, baseline, frames.skip(1), now)
    }
}

/// What a paced exchange is: the waiting frames, oldest first, the
/// capacity, the mode and the anchor once it is set.
pub struct PacerView {
    pub frames: Seq<FrameView>,
    pub capacity: nat,
    pub mode: PacingMode,
    pub baseline: Option<Baseline>,
}

impl PacerView {
    /// The exchange after the producer pushed `frame`.
    pub open spec fn after_push(self, frame: FrameView) -> PacerView {
        PacerView { frames: push_bounded(self.frames, self.capacity, frame), ..self }
    }

    /// The anchor in force for a poll at `now`: the one already set, or
    /// else the head frame's timecode paired with `now`.
    pub open spec fn baseline_at(self, now: int) -> Option<Baseline> {
        match self.baseline {
            Some(b) => Some(b),
            None => if self.frames.len() > 0 {
                Some(
                    Baseline {
                        reference_timecode: self.frames[0].timecode as i64,
                        reference_instant: now as u64,
                    },
                )
            } else {
                None
            },
        }
    }

    /// How many frames a poll at `now` releases.
    pub open spec fn due_count(self, now: int) -> nat {
        match self.baseline_at(now) {
            Some(b) => due_run(self.mode, b, self.frames, now),
            None => 0,
        }
    }

    /// The frames a poll at `now` releases, oldest first.
    pub open spec fn drained(self, now: int) -> Seq<FrameView> {
        self.frames.take(self.due_count(now) as int)
    }

    /// The exchange after a poll at `now`.
    pub open spec fn after_drain(self, now: int) -> PacerView {
        PacerView {
            frames: self.frames.skip(self.due_count(now) as int),
            baseline: self.baseline_at(now),
            ..self
        }
    }
}

impl Baseline {
    /// Wall-clock deadline, in nanoseconds, of a frame with `timecode`.
    /// The frame that set the anchor is due at the anchor's instant.
    pub fn deadline(&self, timecode: i64) -> (d: i128)
        ensures
            d == deadline_at(*self, timecode as int),
            timecode == self.reference_timecode ==> d == self.reference_instant,
    {
        let ticks: i128 = timecode as i128 - self.reference_timecode as i128;
        self.reference_instant as i128 + ticks * TICK_NANOS
    }
}

/// The frame a consumer shows after a poll released `emitted`: the last
/// one, which brings the display back in step with the clock. The frames
/// before it are history.
pub fn newest(emitted: Vec<Frame>) -> (shown: Option<Frame>)
    ensures
        shown is Some <==> emitted@.len() > 0,
        shown matches Some(f) ==> f@ == emitted@.last()@,
{
    let mut emitted = emitted;
    emitted.pop()
}

/// The producer-to-consumer queue of the timecode-synchronized strategy.
pub struct PacedExchange {
    queue: BoundedQueue,
    mode: PacingMode,
    baseline: Option<Baseline>,
}

impl View for PacedExchange {
    type V = PacerView;

    closed spec fn view(&self) -> PacerView {
        PacerView {
            frames: self.queue@.frames,
            capacity: self.queue@.capacity,
            mode: self.mode,
            baseline: self.baseline,
        }
    }
}

impl PacedExchange {
    /// An empty exchange that holds at most `capacity` frames and paces
    /// them by their timecodes.
    pub fn timecode_paced(capacity: usize) -> (made: PacedExchange)
        ensures
            made@ == (PacerView {
                frames: Seq::empty(),
                capacity: capacity as nat,
                mode: PacingMode::Timecode,
                baseline: None,
            }),
    {
        let queue = BoundedQueue::new(capacity);
        assert(queue@.frames =~= Seq::empty());
        PacedExchange { queue, mode: PacingMode::Timecode, baseline: None }
    }

    /// An empty exchange for a source that corrects the clock itself: it
    /// keeps one frame, the most recent, and releases it at once.
    pub fn source_corrected(tick_millis: u64) -> (made: PacedExchange)
        ensures
            made@ == (PacerView {
                frames: Seq::empty(),
                capacity: 1,
                mode: PacingMode::SourceCorrected { tick_millis },
                baseline: None,
            }),
    {
        let queue = BoundedQueue::new(1);
        assert(queue@.frames =~= Seq::empty());
        PacedExchange { queue, mode: PacingMode::SourceCorrected { tick_millis }, baseline: None }
    }

    /// The mode the exchange was made with.
    pub fn mode(&self) -> (m: PacingMode)
        ensures
            m == self@.mode,
    {
        self.mode
    }

    /// The anchor, once a poll has set it.
    pub fn baseline(&self) -> (b: Option<Baseline>)
        ensures
            b == self@.baseline,
    {
        self.baseline
    }

    /// Number of frames waiting.
    pub fn len(&self) -> (n: usize)
        ensures
            n == self@.frames.len(),
    {
        self.queue.len()
    }

    /// Appends `frame`; if that overfills the queue, discards from the head
    /// until it fits. Returns how many frames were discarded.
    pub fn push(&mut self, frame: Frame) -> (evicted: usize)
        ensures
            final(self)@ == old(self)@.after_push(frame@),
            final(self)@.frames.len() <= final(self)@.capacity,
            evicted == old(self)@.frames.len() + 1 - final(self)@.frames.len(),
    {
        self.queue.push(frame)
    }

    /// Whether a frame with `timecode` may be shown at `now` under `b`.
    fn is_eligible(&self, b: Baseline, timecode: i64, now: u64) -> (yes: bool)
        ensures
            yes == eligible(self@.mode, b, timecode as int, now as int),
    {
        match self.mode {
            PacingMode::SourceCorrected { .. } => true,
            PacingMode::Timecode => now as i128 >= b.deadline(timecode),
        }
    }

    /// Releases every frame that is due at `now`, oldest first, and stops
    /// at the first frame that is not. Sets the anchor if this is the first
    /// poll to find a frame waiting.
    pub fn drain_ready(&mut self, now: u64) -> (emitted: Vec<Frame>)
        ensures
            final(self)@ == old(self)@.after_drain(now as int),
            views(emitted@) == old(self)@.drained(now as int),
    {
        let mut emitted: Vec<Frame> = Vec::new();
        if self.baseline.is_none() {
            match self.queue.head_timecode() {
                Some(first) => {
                    self.baseline = Some(
                        Baseline { reference_timecode: first, reference_instant: now },
                    );
                },
                None => {},
            }
        }
        let ghost before = old(self)@;
        let ghost anchor = before.baseline_at(now as int);
        assert(self.baseline == anchor);
        match self.baseline {
            None => {
                assert(views(emitted@) =~= before.drained(now as int));
                assert(before.frames.skip(0) =~= before.frames);
            },
            Some(b) => {
                assert(views(emitted@) =~= before.frames.take(0));
                assert(before.frames.skip(0) =~= before.frames);
                loop
                    invariant
                        self.baseline == Some(b),
                        anchor == Some(b),
                        self.mode == before.mode,
                        self.queue@.capacity == before.capacity,
                        emitted@.len() <= before.frames.len(),
                        views(emitted@) == before.frames.take(emitted@.len() as int),
                        self.queue@.frames == before.frames.skip(emitted@.len() as int),
                        due_run(before.mode, b, before.frames, now as int) == emitted@.len()
                            + due_run(before.mode, b, self.queue@.frames, now as int),
                    ensures
                        self.baseline == Some(b),
                        self.mode == before.mode,
                        self.queue@.capacity == before.capacity,
                        views(emitted@) == before.frames.take(emitted@.len() as int),
                        self.queue@.frames == before.frames.skip(emitted@.len() as int),
                        due_run(before.mode, b, before.frames, now as int) == emitted@.len(),
                    decreases self.queue@.frames.len(),
                {
                    let due = match self.queue.head_timecode() {
                        Some(timecode) => self.is_eligible(b, timecode, now),
                        None => false,
                    };
                    if !due {
                        break ;
                    }
                    let ghost waiting = self.queue@.frames;
                    let ghost sent = emitted@;
                    match self.queue.pop() {
                        Some(frame) => {
                            emitted.push(frame);
                            proof {
                                assert(views(emitted@) =~= views(sent).push(frame@));
                                assert(waiting[0] == before.frames[sent.len() as int]);
                                assert(views(emitted@) =~= before.frames.take(
                                    emitted@.len() as int,
                                ));
                                assert(self.queue@.frames =~= before.frames.skip(
                                    emitted@.len() as int,
                                ));
                            }
                        },
                        None => {},
                    }
                }
            },
        }
        emitted
    }

    /// The producer's non-blocking push: `access` is the exchange if the
    /// producer got hold of it, `None` if the consumer held it. Without
    /// access the frame is dropped.
    pub fn try_push(access: Option<&mut PacedExchange>, frame: Frame) -> (outcome: PushOutcome)
        ensures
            access is None ==> outcome == PushOutcome::Contended,
            access matches Some(exchange) ==> final(exchange)@ == exchange@.after_push(frame@)
                && outcome == (PushOutcome::Stored {
                evicted: (exchange@.frames.len() + 1 - final(exchange)@.frames.len()) as usize,
            }),
    {
        match access {
            Some(exchange) => {
                let evicted = exchange.push(frame);
                PushOutcome::Stored { evicted }
            },
            None => PushOutcome::Contended,
        }
    }

    /// The consumer's non-blocking poll: without access nothing is
    /// released and nothing is lost.
    pub fn try_drain_ready(access: Option<&mut PacedExchange>, now: u64) -> (emitted: Vec<Frame>)
        ensures
            access is None ==> emitted@.len() == 0,
            access matches Some(exchange) ==> final(exchange)@ == exchange@.after_drain(now as int)
                && views(emitted@) == exchange@.drained(now as int),
    {
        match access {
            Some(exchange) => exchange.drain_ready(now),
            None => Vec::new(),
        }
    }
}

/// `due_run` counts exactly the leading eligible frames: every frame
/// before the count is eligible and the frame at the count, if there is
/// one, is not.
pub proof fn lemma_due_run_is_maximal(
    mode: PacingMode,
    baseline: Baseline,
    frames: Seq<FrameView>,
    now: int,
)
    ensures
        due_run(mode, baseline, frames, now) <= frames.len(),
        forall|i: int|
            0 <= i < due_run(mode, baseline, frames, now) ==> eligible(
                mode,
                baseline,
                (#[trigger] frames[i]).timecode,
                now,
            ),
        due_run(mode, baseline, frames, now) < frames.len() ==> !eligible(
            mode,
            baseline,
            frames[due_run(mode, baseline, frames, now) as int].timecode,
            now,
        ),
    decreases frames.len(),
{
    if frames.len() > 0 && eligible(mode, baseline, frames[0].timecode, now) {
        let rest = frames.skip(1);
        lemma_due_run_is_maximal(mode, baseline, rest, now);
        let n = due_run(mode, baseline, rest, now);
        assert forall|i: int| 0 <= i < n + 1 implies eligible(
            mode,
            baseline,
            (#[trigger] frames[i]).timecode,
            now,
        ) by {
            if i > 0 {
                assert(frames[i] == rest[i - 1]);
            }
        }
        if n + 1 < frames.len() {
            assert(frames[n as int + 1] == rest[n as int]);
        }
    }
}

/// A run of `n` leading frames that are all eligible, followed by the end
/// of the queue or by a frame that is not, is what `due_run` counts.
pub proof fn lemma_due_run_counts(
    mode: PacingMode,
    baseline: Baseline,
    frames: Seq<FrameView>,
    now: int,
    n: nat,
)
    requires
        n <= frames.len(),
        forall|i: int| 0 <= i < n ==> eligible(mode, baseline, (#[trigger] frames[i]).timecode, now),
        n < frames.len() ==> !eligible(mode, baseline, frames[n as int].timecode, now),
    ensures
        due_run(mode, baseline, frames, now) == n,
    decreases n,
{
    if n > 0 {
        let rest = frames.skip(1);
        assert(eligible(mode, baseline, frames[0].timecode, now));
        assert forall|i: int| 0 <= i < n - 1 implies eligible(
            mode,
            baseline,
            (#[trigger] rest[i]).timecode,
            now,
        ) by {
            assert(rest[i] == frames[i + 1]);
        }
        if n < frames.len() {
            assert(rest[n - 1] == frames[n as int]);
        }
        lemma_due_run_counts(mode, baseline, rest, now, (n - 1) as nat);
    }
}

/// Catch-up: when the first `n` waiting frames are all due at `now` and
/// the next one, if any, is not, a poll at `now` releases exactly those
/// `n` frames in order, and a second poll at the same `now` releases
/// nothing.
pub proof fn lemma_drain_catches_up(before: PacerView, now: int, n: nat)
    requires
        n <= before.frames.len(),
        before.baseline_at(now) matches Some(b) && (forall|i: int|
            0 <= i < n ==> eligible(before.mode, b, (#[trigger] before.frames[i]).timecode, now))
            && (n < before.frames.len() ==> !eligible(
            before.mode,
            b,
            before.frames[n as int].timecode,
            now,
        )),
    ensures
        before.drained(now) == before.frames.take(n as int),
        before.after_drain(now).frames == before.frames.skip(n as int),
        before.after_drain(now).drained(now).len() == 0,
{
    let b = before.baseline_at(now)->0;
    lemma_due_run_counts(before.mode, b, before.frames, now, n);
    lemma_second_drain_is_empty(before, now);
}

/// Whatever a poll at `now` released, a second poll at the same `now`
/// with no push in between releases nothing.
pub proof fn lemma_second_drain_is_empty(before: PacerView, now: int)
    ensures
        before.after_drain(now).drained(now).len() == 0,
        before.after_drain(now).after_drain(now) == before.after_drain(now),
{
    let after = before.after_drain(now);
    match before.baseline_at(now) {
        Some(b) => {
            lemma_due_run_is_maximal(before.mode, b, before.frames, now);
            let n = due_run(before.mode, b, before.frames, now);
            assert(after.baseline == Some(b));
            assert(after.baseline_at(now) == Some(b));
            if n < before.frames.len() {
                assert(after.frames[0] == before.frames[n as int]);
            }
            assert(due_run(after.mode, b, after.frames, now) == 0);
            assert(after.frames.skip(0) =~= after.frames);
        },
        None => {
            assert(before.frames.len() == 0);
            assert(after.frames.len() == 0);
            assert(after.frames.skip(0) =~= after.frames);
        },
    }
}

/// The anchor is set once: neither a push nor a poll changes an anchor
/// that is set, and a poll that finds a frame waiting sets one.
pub proof fn lemma_baseline_is_set_once(before: PacerView, frame: FrameView, now: int)
    ensures
        before.after_push(frame).baseline == before.baseline,
        before.baseline is Some ==> before.after_drain(now).baseline == before.baseline,
        before.frames.len() > 0 ==> before.after_drain(now).baseline is Some,
{
}

/// A frame whose timecode does not exceed the anchor's is due as soon as
/// the clock has reached the anchor's instant.
pub proof fn lemma_early_timecode_is_due(mode: PacingMode, baseline: Baseline, timecode: int, now: int)
    requires
        timecode <= baseline.reference_timecode,
        now >= baseline.reference_instant,
    ensures
        eligible(mode, baseline, timecode, now),
{
}

} // verus!
