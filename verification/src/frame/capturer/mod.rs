//! Frame capture backends and the vocabulary they share: the events a
//! capturer reacts to and the actions it asks its driver to perform.
//!
//! A capturer never performs protocol or device work itself. Its driver feeds
//! it one [`CaptureEvent`] at a time and carries out the [`Step`] it answers
//! with: the action, and the release of every handle listed.

use vstd::prelude::*;
use crate::frame::Region;

pub mod none;
pub mod runs;
pub mod wlroots;

verus! {

/// Pause between a processed frame and the next capture attempt, in milliseconds.
pub const DELAY_SUCCESS_MS: u64 = 100;

/// Pause between a transient cancellation and the retry, in milliseconds.
pub const DELAY_FAILURE_MS: u64 = 1000;

/// Why the compositor cancelled a capture attempt.
#[derive(Clone, Copy, Debug, PartialEq, Eq, Structural)]
pub enum CancelReason {
    /// Temporary error, the source will produce more frames.
    Temporary,
    /// Fatal error, the source will not produce frames.
    Permanent,
    /// The source is being resized, it will produce more frames.
    Resizing,
}

impl CancelReason {
    /// Whether a retry can succeed after a cancellation for this reason.
    pub open spec fn is_transient(self) -> bool {
        self != CancelReason::Permanent
    }

    /// Whether a retry can succeed after a cancellation for this reason.
    pub fn transient(&self) -> (t: bool)
        ensures
            t == self.is_transient(),
    {
        match self {
            CancelReason::Permanent => false,
            _ => true,
        }
    }
}

/// A fatal condition other than a permanent cancellation.
#[derive(Clone, Copy, Debug, PartialEq, Eq, Structural)]
pub enum Fault {
    /// An event arrived that the capturer could not expect in its state.
    ProtocolViolation,
    /// The processor could not reduce the frame to a luminance.
    ProcessingFailed,
}

/// What a capturer reacts to.
#[derive(Clone, Copy, Debug, PartialEq, Eq, Structural)]
pub enum CaptureEvent {
    /// The driver is ready for the next capture attempt.
    Start,
    /// Frame metadata: dimensions and the number of regions that follow.
    Frame { width: u32, height: u32, num_objects: u32 },
    /// One region of the frame, with the handle that backs it.
    Object { index: u32, fd: i32, size: u32 },
    /// The frame is available for reading.
    Ready,
    /// The compositor gave up on the attempt.
    Cancel { reason: CancelReason },
    /// The processor reduced the frame to this luminance percentage.
    Processed { luma: u8 },
    /// The processor failed on the frame.
    ProcessingFailed,
    /// Any protocol event outside the vocabulary above.
    Unknown,
}

impl CaptureEvent {
    /// The handles that the event puts into the receiver's care.
    pub open spec fn handles(self) -> Seq<i32> {
        match self {
            CaptureEvent::Object { fd, .. } => seq![fd],
            _ => Seq::empty(),
        }
    }

    /// The region that an `Object` event describes.
    pub open spec fn region(self) -> Region
        recommends
            self is Object,
    {
        match self {
            CaptureEvent::Object { index, fd, size } => Region { index, handle: fd, byte_size: size },
            _ => Region { index: 0, handle: 0, byte_size: 0 },
        }
    }

    /// The event belongs to a frame's description: metadata or a region.
    pub open spec fn describes_frame(self) -> bool {
        self is Frame || self is Object
    }
}

/// What a capturer asks its driver to do next.
#[derive(Clone, Copy, Debug, PartialEq, Eq, Structural)]
pub enum CaptureAction {
    /// Issue a capture request against the bound output.
    Request,
    /// Nothing to do but wait for the next event.
    Wait,
    /// Hand the frame to the processor and report the outcome.
    Process,
    /// Deliver the luminance to the predictor, destroy the attempt's protocol
    /// resource, pause for `delay_ms`, then start the next attempt.
    Deliver { luma: u8, delay_ms: u64 },
    /// Destroy the attempt's protocol resource, pause for `delay_ms`, then
    /// start the next attempt.
    Retry { delay_ms: u64 },
    /// Destroy the attempt's protocol resource and shut the process down.
    Shutdown,
}

/// A capturer's answer to one event.
#[derive(Debug)]
pub struct Step {
    /// What the driver is to do.
    pub action: CaptureAction,
    /// Handles that the driver is to release now.
    pub release: Vec<i32>,
}

/// The operations every capture backend offers.
pub trait Capturer {
    /// Handles received from the compositor and not yet handed out for release.
    spec fn held(&self) -> Seq<i32>;

    /// Whether the capturer has shut down for good.
    spec fn halted(&self) -> bool;

    /// Feeds one event to the capturer.
    ///
    /// Whatever the backend, every handle is handed out for release exactly
    /// once: what was held plus what the event brought is what is released now
    /// plus what is still held. A capturer that has shut down stays shut down
    /// and asks for nothing but shutdown.
    fn step(&mut self, event: CaptureEvent) -> (step: Step)
        ensures
            old(self).held() + event.handles() == step.release@ + final(self).held(),
            old(self).halted() ==> final(self).halted() && step.action == CaptureAction::Shutdown,
    ;
}

} // verus!
