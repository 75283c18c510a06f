//! Frame hand-off between a capture thread and a presentation loop.
//!
//! A producer pulls timestamped RGBA frames from a source at the source's own
//! rate; a consumer ticks at the display's rate. The types here decide which
//! frame the consumer sees on each tick, and optionally transform the pixels
//! on the way.

pub mod fifo;
pub mod frame;
pub mod intake;
pub mod latest;
pub mod offload;
pub mod pacer;
pub mod queue;
pub mod source;
pub mod stats;
pub mod transform;

pub use crate::fifo::ConfigError;
pub use crate::fifo::FifoExchange;
pub use crate::frame::Frame;
pub use crate::intake::LineStrideOrSize;
pub use crate::intake::PixelFormat;
pub use crate::intake::RawVideo;
pub use crate::intake::Rejection;
pub use crate::intake::ValidatedFrame;
pub use crate::latest::LatestExchange;
pub use crate::offload::DispatchPlan;
pub use crate::pacer::Baseline;
pub use crate::pacer::PacedExchange;
pub use crate::pacer::PacingMode;
pub use crate::queue::BoundedQueue;
pub use crate::queue::PushOutcome;
pub use crate::source::TARGET_SOURCE_NAME;
pub use crate::stats::DropCounters;
