//! The protocol-driven capture backend: the state machine behind one
//! capture attempt after another on a compositor's buffer-export protocol.

use vstd::prelude::*;
use crate::frame::{Frame, FrameView, Region};
use crate::frame::capturer::{
    CancelReason, CaptureAction, CaptureEvent, Fault, Step, DELAY_FAILURE_MS, DELAY_SUCCESS_MS,
};

verus! {

/// Where the capturer stands in its cycle of attempts.
#[derive(Clone, Copy, Debug, PartialEq, Eq, Structural)]
pub enum CaptureState {
    /// No request in flight.
    Idle,
    /// A request is in flight and the frame's metadata has not arrived.
    AwaitingMetadata,
    /// The metadata has arrived; regions or the completion signal may follow.
    AwaitingObjects,
    /// The frame is with the processor.
    Ready,
    /// The compositor cancelled the attempt. Final if the reason is permanent.
    Cancelled(CancelReason),
    /// The capturer gave up. Final.
    Failed(Fault),
}

impl CaptureState {
    /// A request is in flight and the frame is still being put together.
    pub open spec fn is_awaiting(self) -> bool {
        self == CaptureState::AwaitingMetadata || self == CaptureState::AwaitingObjects
    }

    /// No request is in flight and a new attempt may start.
    pub open spec fn is_resting(self) -> bool {
        self == CaptureState::Idle || (self matches CaptureState::Cancelled(reason)
            && reason.is_transient())
    }

    /// The capturer has shut down for good.
    pub open spec fn is_final(self) -> bool {
        self == CaptureState::Cancelled(CancelReason::Permanent) || self is Failed
    }
}

/// Mathematical model of a [`Capturer`].
#[verifier::ext_equal]
pub struct CapturerView {
    pub state: CaptureState,
    /// The frame of the current attempt.
    pub frame: FrameView,
    /// Handles received during the current attempt, in order of arrival.
    pub held: Seq<i32>,
}

/// What one event leads to: the capturer afterwards and the step it answers with.
#[verifier::ext_equal]
pub struct Outcome {
    pub next: CapturerView,
    pub action: CaptureAction,
    pub release: Seq<i32>,
}

impl CapturerView {
    /// A capturer before its first attempt.
    pub open spec fn initial() -> CapturerView {
        CapturerView { state: CaptureState::Idle, frame: FrameView::empty(), held: Seq::empty() }
    }

    /// The capturer after an attempt has ended in `state`: the frame is
    /// discarded and nothing is held any longer.
    pub open spec fn ended(state: CaptureState) -> CapturerView {
        CapturerView { state, frame: FrameView::empty(), held: Seq::empty() }
    }

    /// The end of an attempt: everything held, and what `event` brought, is released.
    pub open spec fn end(self, state: CaptureState, action: CaptureAction, event: CaptureEvent) -> Outcome {
        Outcome { next: CapturerView::ended(state), action, release: self.held + event.handles() }
    }

    /// An event that the capturer could not expect in its state.
    pub open spec fn violation(self, event: CaptureEvent) -> Outcome {
        self.end(CaptureState::Failed(Fault::ProtocolViolation), CaptureAction::Shutdown, event)
    }

    /// The capturer goes on in `state` with nothing to release.
    pub open spec fn go_on(self, state: CaptureState, action: CaptureAction) -> Outcome {
        Outcome { next: CapturerView { state, ..self }, action, release: Seq::empty() }
    }
}

/// The transition function of the capture state machine.
///
/// * At rest, `Start` opens an attempt with an empty frame and asks for a
///   capture request.
/// * While a frame is awaited, metadata and regions are recorded in whatever
///   order they arrive, each region's handle is taken into care, and the
///   completion signal sends the frame to the processor.
/// * A cancellation ends the attempt: everything held is released, and the
///   capturer either asks for a retry after the failure delay or, if the
///   reason is permanent, shuts down.
/// * The processor's luminance ends the attempt with a delivery and the
///   success delay; its failure shuts the capturer down.
/// * Anything else is a protocol violation, which shuts the capturer down.
/// * Once shut down, the capturer stays as it is, asks for shutdown again
///   and releases at once whatever an event brings.
pub open spec fn transition(pre: CapturerView, event: CaptureEvent) -> Outcome {
    if pre.state.is_final() {
        pre.end(pre.state, CaptureAction::Shutdown, event)
    } else if pre.state.is_resting() {
        match event {
            CaptureEvent::Start => Outcome {
                next: CapturerView {
                    state: CaptureState::AwaitingMetadata,
                    frame: FrameView::empty(),
                    held: pre.held,
                },
                action: CaptureAction::Request,
                release: Seq::empty(),
            },
            _ => pre.violation(event),
        }
    } else if pre.state.is_awaiting() {
        match event {
            CaptureEvent::Frame { width, height, num_objects } => Outcome {
                next: CapturerView {
                    state: CaptureState::AwaitingObjects,
                    frame: pre.frame.with_metadata(width, height, num_objects),
                    held: pre.held,
                },
                action: CaptureAction::Wait,
                release: Seq::empty(),
            },
            CaptureEvent::Object { index, fd, size } => Outcome {
                next: CapturerView {
                    state: pre.state,
                    frame: pre.frame.with_region(Region { index, handle: fd, byte_size: size }),
                    held: pre.held.push(fd),
                },
                action: CaptureAction::Wait,
                release: Seq::empty(),
            },
            CaptureEvent::Ready => pre.go_on(CaptureState::Ready, CaptureAction::Process),
            CaptureEvent::Cancel { reason } => pre.end(
                CaptureState::Cancelled(reason),
                if reason.is_transient() {
                    CaptureAction::Retry { delay_ms: DELAY_FAILURE_MS }
                } else {
                    CaptureAction::Shutdown
                },
                event,
            ),
            _ => pre.violation(event),
        }
    } else {
        match event {
            CaptureEvent::Processed { luma } => pre.end(
                CaptureState::Idle,
                CaptureAction::Deliver { luma, delay_ms: DELAY_SUCCESS_MS },
                event,
            ),
            CaptureEvent::ProcessingFailed => pre.end(
                CaptureState::Failed(Fault::ProcessingFailed),
                CaptureAction::Shutdown,
                event,
            ),
            _ => pre.violation(event),
        }
    }
}

/// The capture state machine with the frame it is putting together.
#[derive(Debug)]
pub struct Capturer {
    state: CaptureState,
    frame: Frame,
    held: Vec<i32>,
}

impl View for Capturer {
    type V = CapturerView;

    closed spec fn view(&self) -> CapturerView {
        CapturerView { state: self.state, frame: self.frame@, held: self.held@ }
    }
}

impl Default for Capturer {
    /// A capturer at rest, as [`Capturer::new`] makes it.
    fn default() -> (capturer: Capturer)
        ensures
            capturer@ == CapturerView::initial(),
    {
        Capturer::new()
    }
}

impl Capturer {
    /// A capturer at rest, before its first attempt.
    pub fn new() -> (capturer: Capturer)
        ensures
            capturer@ == CapturerView::initial(),
    {
        Capturer { state: CaptureState::Idle, frame: Frame::new(), held: Vec::new() }
    }

    /// The state the capturer is in.
    pub fn state(&self) -> (state: CaptureState)
        ensures
            state == self@.state,
    {
        self.state
    }

    /// The frame of the current attempt, as far as it has arrived.
    pub fn frame(&self) -> (frame: &Frame)
        ensures
            frame@ == self@.frame,
    {
        &self.frame
    }

    /// Ends the attempt in `state`: discards the frame and hands out every
    /// handle held, followed by the one that `event` may have brought.
    fn end(&mut self, state: CaptureState, action: CaptureAction, event: CaptureEvent) -> (step: Step)
        ensures
            final(self)@ == CapturerView::ended(state),
            step.action == action,
            step.release@ == old(self)@.held + event.handles(),
    {
        let mut release: Vec<i32> = Vec::new();
        core::mem::swap(&mut self.held, &mut release);
        if let CaptureEvent::Object { fd, .. } = event {
            release.push(fd);
        }
        self.state = state;
        self.frame = Frame::new();
        assert(release@ =~= old(self)@.held + event.handles());
        Step { action, release }
    }
}

impl crate::frame::capturer::Capturer for Capturer {
    open spec fn held(&self) -> Seq<i32> {
        self@.held
    }

    open spec fn halted(&self) -> bool {
        self@.state.is_final()
    }

    /// Feeds one event to the state machine, as [`transition`] describes.
    fn step(&mut self, event: CaptureEvent) -> (step: Step)
        ensures
            final(self)@ == transition(old(self)@, event).next,
            step.action == transition(old(self)@, event).action,
            step.release@ == transition(old(self)@, event).release,
    {
        let violation = CaptureState::Failed(Fault::ProtocolViolation);
        let step = match self.state {
            CaptureState::Cancelled(CancelReason::Permanent) | CaptureState::Failed(_) => {
                let state = self.state;
                self.end(state, CaptureAction::Shutdown, event)
            },
            CaptureState::Idle | CaptureState::Cancelled(_) => match event {
                CaptureEvent::Start => {
                    self.state = CaptureState::AwaitingMetadata;
                    self.frame = Frame::new();
                    Step { action: CaptureAction::Request, release: Vec::new() }
                },
                _ => self.end(violation, CaptureAction::Shutdown, event),
            },
            CaptureState::AwaitingMetadata | CaptureState::AwaitingObjects => match event {
                CaptureEvent::Frame { width, height, num_objects } => {
                    self.frame.set_metadata(width, height, num_objects);
                    self.state = CaptureState::AwaitingObjects;
                    Step { action: CaptureAction::Wait, release: Vec::new() }
                },
                CaptureEvent::Object { index, fd, size } => {
                    self.frame.set_object(index, fd, size);
                    self.held.push(fd);
                    Step { action: CaptureAction::Wait, release: Vec::new() }
                },
                CaptureEvent::Ready => {
                    self.state = CaptureState::Ready;
                    Step { action: CaptureAction::Process, release: Vec::new() }
                },
                CaptureEvent::Cancel { reason } => {
                    let action = if reason.transient() {
                        CaptureAction::Retry { delay_ms: DELAY_FAILURE_MS }
                    } else {
                        CaptureAction::Shutdown
                    };
                    self.end(CaptureState::Cancelled(reason), action, event)
                },
                _ => self.end(violation, CaptureAction::Shutdown, event),
            },
            CaptureState::Ready => match event {
                CaptureEvent::Processed { luma } => self.end(
                    CaptureState::Idle,
                    CaptureAction::Deliver { luma, delay_ms: DELAY_SUCCESS_MS },
                    event,
                ),
                CaptureEvent::ProcessingFailed => self.end(
                    CaptureState::Failed(Fault::ProcessingFailed),
                    CaptureAction::Shutdown,
                    event,
                ),
                _ => self.end(violation, CaptureAction::Shutdown, event),
            },
        };
        proof {
            let out = transition(old(self)@, event);
            assert(old(self)@.held + event.handles() =~= out.release + out.next.held);
        }
        step
    }
}

} // verus!
