//! The disabled capture backend.

use vstd::prelude::*;
use crate::frame::capturer::{CaptureAction, CaptureEvent, Step};

verus! {

/// A capturer that never requests a frame, so that brightness follows
/// ambient light alone.
#[derive(Debug)]
pub struct Capturer {}

impl Capturer {
    /// The disabled capturer.
    pub fn new() -> Capturer {
        Capturer {}
    }
}

impl Default for Capturer {
    fn default() -> Capturer {
        Capturer::new()
    }
}

impl crate::frame::capturer::Capturer for Capturer {
    open spec fn held(&self) -> Seq<i32> {
        Seq::empty()
    }

    open spec fn halted(&self) -> bool {
        false
    }

    /// Asks the driver to wait, whatever the event, and hands back at once
    /// any handle that the event brought.
    fn step(&mut self, event: CaptureEvent) -> (step: Step)
        ensures
            step.action == CaptureAction::Wait,
            step.release@ == event.handles(),
    {
        let mut release: Vec<i32> = Vec::new();
        if let CaptureEvent::Object { fd, .. } = event {
            release.push(fd);
        }
        assert(release@ =~= event.handles());
        Step { action: CaptureAction::Wait, release }
    }
}

} // verus!
