//! Runs of the capture state machine: what holds of every sequence of events.

use vstd::prelude::*;
use crate::frame::{lemma_indices_below, FrameView};
use crate::frame::capturer::{
    CancelReason, CaptureAction, CaptureEvent, DELAY_FAILURE_MS, DELAY_SUCCESS_MS,
};
use crate::frame::capturer::wlroots::{transition, CaptureState, CapturerView, Outcome};

verus! {

/// The capturer after `events` have been fed to it in order.
pub open spec fn run(pre: CapturerView, events: Seq<CaptureEvent>) -> CapturerView
    decreases events.len(),
{
    if events.len() == 0 {
        pre
    } else {
        transition(run(pre, events.drop_last()), events.last()).next
    }
}

/// What the event at position `i` of a run leads to.
pub open spec fn outcome_at(pre: CapturerView, events: Seq<CaptureEvent>, i: int) -> Outcome
    recommends
        0 <= i < events.len(),
{
    transition(run(pre, events.take(i)), events[i])
}

/// Every handle handed out for release in the course of a run, in order.
pub open spec fn released(pre: CapturerView, events: Seq<CaptureEvent>) -> Seq<i32>
    decreases events.len(),
{
    if events.len() == 0 {
        Seq::empty()
    } else {
        released(pre, events.drop_last()) + transition(
            run(pre, events.drop_last()),
            events.last(),
        ).release
    }
}

/// Every handle that `events` brought, in order.
pub open spec fn arrived(events: Seq<CaptureEvent>) -> Seq<i32>
    decreases events.len(),
{
    if events.len() == 0 {
        Seq::empty()
    } else {
        arrived(events.drop_last()) + events.last().handles()
    }
}

/// Between attempts the capturer holds no handle and no part of a frame.
pub open spec fn settled(m: CapturerView) -> bool {
    m.state.is_resting() || m.state.is_final() ==> m == CapturerView::ended(m.state)
}

/// Handles are neither leaked nor released twice: over any run, from any
/// state, the handles held at the start followed by those that arrived are
/// exactly the handles released followed by those still held.
pub proof fn lemma_handles_released_once(pre: CapturerView, events: Seq<CaptureEvent>)
    ensures
        pre.held + arrived(events) == released(pre, events) + run(pre, events).held,
    decreases events.len(),
{
    if events.len() == 0 {
        assert(pre.held + arrived(events) =~= released(pre, events) + run(pre, events).held);
    } else {
        let front = events.drop_last();
        let mid = run(pre, front);
        let out = transition(mid, events.last());
        lemma_handles_released_once(pre, front);
        assert(mid.held + events.last().handles() =~= out.release + out.next.held);
        assert(pre.held + arrived(events) =~= (pre.held + arrived(front)) + events.last().handles());
        assert((released(pre, front) + mid.held) + events.last().handles() =~= released(pre, front)
            + (mid.held + events.last().handles()));
        assert(released(pre, front) + (out.release + out.next.held) =~= released(pre, events)
            + run(pre, events).held);
    }
}

/// A capturer that is settled stays settled.
pub proof fn lemma_run_settled(pre: CapturerView, events: Seq<CaptureEvent>)
    requires
        settled(pre),
    ensures
        settled(run(pre, events)),
    decreases events.len(),
{
    if events.len() > 0 {
        lemma_run_settled(pre, events.drop_last());
    }
}

/// Every attempt releases all of its handles when it ends: whenever a run
/// from the initial state leaves the capturer between attempts, every handle
/// that arrived has been released, and nothing is held.
pub proof fn lemma_attempts_release_everything(events: Seq<CaptureEvent>)
    ensures
        ({
            let m = run(CapturerView::initial(), events);
            m.state.is_resting() || m.state.is_final() ==> m.held == Seq::<i32>::empty()
                && released(CapturerView::initial(), events) == arrived(events)
        }),
{
    let pre = CapturerView::initial();
    lemma_run_settled(pre, events);
    lemma_handles_released_once(pre, events);
    let m = run(pre, events);
    if m.state.is_resting() || m.state.is_final() {
        assert(pre.held + arrived(events) =~= arrived(events));
        assert(released(pre, events) + m.held =~= released(pre, events));
    }
}

/// Shutdown is final: once the capturer has shut down, no event changes its
/// state, and every event is answered with a request to shut down, never
/// with a capture request.
pub proof fn lemma_shutdown_is_final(pre: CapturerView, events: Seq<CaptureEvent>)
    requires
        pre.state.is_final(),
    ensures
        run(pre, events).state == pre.state,
        forall|i: int|
            0 <= i < events.len() ==> (#[trigger] outcome_at(pre, events, i)).action
                == CaptureAction::Shutdown,
{
    lemma_stays_final(pre, events);
    assert forall|i: int| 0 <= i < events.len() implies (#[trigger] outcome_at(
        pre,
        events,
        i,
    )).action == CaptureAction::Shutdown by {
        lemma_stays_final(pre, events.take(i));
    }
}

/// No event changes the state of a capturer that has shut down.
proof fn lemma_stays_final(pre: CapturerView, events: Seq<CaptureEvent>)
    requires
        pre.state.is_final(),
    ensures
        run(pre, events).state == pre.state,
    decreases events.len(),
{
    if events.len() > 0 {
        lemma_stays_final(pre, events.drop_last());
    }
}

/// A permanent cancellation shuts the capturer down, whatever state it is in.
pub proof fn lemma_permanent_cancel_shuts_down(pre: CapturerView)
    ensures
        ({
            let out = transition(
                pre,
                CaptureEvent::Cancel { reason: CancelReason::Permanent },
            );
            out.action == CaptureAction::Shutdown && out.next.state.is_final() && out.release
                == pre.held
        }),
{
    let event = CaptureEvent::Cancel { reason: CancelReason::Permanent };
    assert(pre.held + event.handles() =~= pre.held);
}

/// A capture request is issued only in answer to `Start`, and only while no
/// attempt is under way; it opens an attempt with an empty frame.
pub proof fn lemma_request_only_on_start(pre: CapturerView, event: CaptureEvent)
    requires
        transition(pre, event).action == CaptureAction::Request,
    ensures
        event == CaptureEvent::Start,
        pre.state.is_resting(),
        transition(pre, event).next.state == CaptureState::AwaitingMetadata,
        transition(pre, event).next.frame == FrameView::empty(),
{
}

/// A frame goes to the processor only in answer to the completion signal of
/// an attempt under way, and not a second time: until the processor has
/// answered, nothing else is sent to it.
pub proof fn lemma_process_only_on_ready(pre: CapturerView, event: CaptureEvent)
    requires
        transition(pre, event).action == CaptureAction::Process,
    ensures
        event == CaptureEvent::Ready,
        pre.state.is_awaiting(),
        transition(pre, event).next.frame == pre.frame,
        transition(pre, event).next.state == CaptureState::Ready,
        forall|later: CaptureEvent| #[trigger]
            transition(transition(pre, event).next, later).action != CaptureAction::Process,
{
}

/// A transient cancellation is followed by exactly one retry after the
/// failure delay: the attempt ends with a retry order that carries the
/// failure delay, the next `Start` is answered with one capture request, and
/// no further request is issued while that attempt is under way.
pub proof fn lemma_transient_cancel_retries_once(
    pre: CapturerView,
    reason: CancelReason,
)
    requires
        pre.state.is_awaiting(),
        reason.is_transient(),
    ensures
        ({
            let cancelled = transition(pre, CaptureEvent::Cancel { reason });
            let retry = transition(cancelled.next, CaptureEvent::Start);
            &&& cancelled.action == CaptureAction::Retry { delay_ms: DELAY_FAILURE_MS }
            &&& cancelled.release == pre.held
            &&& cancelled.next.state.is_resting()
            &&& retry.action == CaptureAction::Request
            &&& retry.next.state == CaptureState::AwaitingMetadata
            &&& forall|event: CaptureEvent| #[trigger]
                transition(retry.next, event).action != CaptureAction::Request
        }),
        DELAY_FAILURE_MS >= 10 * DELAY_SUCCESS_MS,
{
    let event = CaptureEvent::Cancel { reason };
    assert(pre.held + event.handles() =~= pre.held);
}

/// A processed frame is followed by exactly one next attempt after the
/// success delay: the attempt ends with a delivery order that carries the
/// luminance and the success delay, the next `Start` is answered with one
/// capture request, and no further request is issued while that attempt is
/// under way.
pub proof fn lemma_success_continues_once(pre: CapturerView, luma: u8)
    requires
        pre.state == CaptureState::Ready,
    ensures
        ({
            let done = transition(pre, CaptureEvent::Processed { luma });
            let again = transition(done.next, CaptureEvent::Start);
            &&& done.action == CaptureAction::Deliver { luma, delay_ms: DELAY_SUCCESS_MS }
            &&& done.release == pre.held
            &&& done.next.state.is_resting()
            &&& again.action == CaptureAction::Request
            &&& again.next.state == CaptureState::AwaitingMetadata
            &&& forall|event: CaptureEvent| #[trigger]
                transition(again.next, event).action != CaptureAction::Request
        }),
{
    let event = CaptureEvent::Processed { luma };
    assert(pre.held + event.handles() =~= pre.held);
}

/// The event at position `j` of `events` is an `Object` with index `k`.
pub open spec fn object_at(events: Seq<CaptureEvent>, j: int, k: u32) -> bool {
    0 <= j < events.len() && events[j] is Object && events[j].region().index == k
}

/// The event at position `j` of `events` is metadata.
pub open spec fn metadata_at(events: Seq<CaptureEvent>, j: int) -> bool {
    0 <= j < events.len() && events[j] is Frame
}

/// Some event of `events` is an `Object` with index `k`.
pub open spec fn brings(events: Seq<CaptureEvent>, k: u32) -> bool {
    exists|j: int| #[trigger] object_at(events, j, k)
}

/// Every event of `events` is metadata or a region.
pub open spec fn all_describe_frame(events: Seq<CaptureEvent>) -> bool {
    forall|j: int| 0 <= j < events.len() ==> #[trigger] events[j].describes_frame()
}

/// No two `Object` events of `events` have the same index.
pub open spec fn each_index_once(events: Seq<CaptureEvent>) -> bool {
    forall|i: int, j: int, k: u32|
        #[trigger] object_at(events, i, k) && #[trigger] object_at(events, j, k) ==> i == j
}

/// Every metadata event of `events` announces these dimensions and `n` regions.
pub open spec fn all_metadata_is(events: Seq<CaptureEvent>, width: u32, height: u32, n: u32) -> bool {
    forall|j: int| #[trigger]
        metadata_at(events, j) ==> events[j] == (CaptureEvent::Frame { width, height, num_objects: n })
}

/// `events` describe one frame of `n` regions: metadata and regions in any
/// order, with at least one metadata event, all metadata announcing the same
/// dimensions and `n` regions, and one region for each index below `n` and
/// for no other.
pub open spec fn describes_frame_of(
    events: Seq<CaptureEvent>,
    width: u32,
    height: u32,
    n: u32,
) -> bool {
    &&& all_describe_frame(events)
    &&& exists|j: int| #[trigger] metadata_at(events, j)
    &&& all_metadata_is(events, width, height, n)
    &&& forall|j: int, k: u32| #[trigger] object_at(events, j, k) ==> k < n
    &&& forall|k: u32| k < n ==> #[trigger] brings(events, k)
    &&& each_index_once(events)
}

/// Dropping the last event keeps what is required of the events of an attempt.
proof fn lemma_front(events: Seq<CaptureEvent>)
    requires
        events.len() > 0,
        all_describe_frame(events),
    ensures
        all_describe_frame(events.drop_last()),
        each_index_once(events) ==> each_index_once(events.drop_last()),
        forall|j: int, k: u32|
            #[trigger] object_at(events.drop_last(), j, k) <==> object_at(events, j, k) && j
                < events.len() - 1,
        forall|j: int|
            #[trigger] metadata_at(events.drop_last(), j) <==> metadata_at(events, j) && j
                < events.len() - 1,
        events.last().describes_frame(),
{
    let front = events.drop_last();
    assert forall|j: int| 0 <= j < front.len() implies #[trigger] front[j].describes_frame() by {
        assert(front[j] == events[j]);
        assert(events[j].describes_frame());
    }
    assert forall|j: int, k: u32|
        #[trigger] object_at(front, j, k) <==> object_at(events, j, k) && j < events.len() - 1 by {
        if 0 <= j < front.len() {
            assert(front[j] == events[j]);
        }
    }
    assert forall|j: int|
        #[trigger] metadata_at(front, j) <==> metadata_at(events, j) && j < events.len() - 1 by {
        if 0 <= j < front.len() {
            assert(front[j] == events[j]);
        }
    }
    if each_index_once(events) {
        assert forall|i: int, j: int, k: u32|
            #[trigger] object_at(front, i, k) && #[trigger] object_at(front, j, k) implies i == j by {
            assert(object_at(events, i, k) && object_at(events, j, k));
        }
    }
    assert(events[events.len() - 1].describes_frame());
}

/// Metadata and regions keep the attempt open, and metadata moves it on to
/// awaiting regions.
proof fn lemma_attempt_stays_open(pre: CapturerView, events: Seq<CaptureEvent>)
    requires
        pre.state.is_awaiting(),
        all_describe_frame(events),
    ensures
        run(pre, events).state.is_awaiting(),
        (exists|j: int| #[trigger] metadata_at(events, j)) ==> run(pre, events).state
            == CaptureState::AwaitingObjects,
    decreases events.len(),
{
    if events.len() > 0 {
        let front = events.drop_last();
        lemma_front(events);
        lemma_attempt_stays_open(pre, front);
        if exists|j: int| #[trigger] metadata_at(events, j) {
            let j = choose|j: int| #[trigger] metadata_at(events, j);
            if j < events.len() - 1 {
                assert(metadata_at(front, j));
            } else {
                assert(events.last() is Frame);
            }
        }
    } else {
        assert(forall|j: int| !metadata_at(events, j));
    }
}

/// The frame carries what the metadata events agree on.
proof fn lemma_attempt_metadata(
    pre: CapturerView,
    events: Seq<CaptureEvent>,
    width: u32,
    height: u32,
    n: u32,
)
    requires
        pre.state.is_awaiting(),
        all_describe_frame(events),
        all_metadata_is(events, width, height, n),
        exists|j: int| #[trigger] metadata_at(events, j),
    ensures
        run(pre, events).frame.width == width,
        run(pre, events).frame.height == height,
        run(pre, events).frame.expected_region_count == n,
    decreases events.len(),
{
    let front = events.drop_last();
    let last = events.len() - 1;
    lemma_front(events);
    lemma_attempt_stays_open(pre, front);
    if events.last() is Frame {
        assert(metadata_at(events, last));
    } else {
        let j = choose|j: int| #[trigger] metadata_at(events, j);
        assert(metadata_at(front, j));
        assert forall|j: int| #[trigger] metadata_at(front, j) implies front[j] == (
        CaptureEvent::Frame { width, height, num_objects: n }) by {
            assert(metadata_at(events, j));
            assert(front[j] == events[j]);
        }
        lemma_attempt_metadata(pre, front, width, height, n);
    }
}

/// The frame holds the regions that it held before and those that the
/// events brought, each under its index.
proof fn lemma_attempt_regions(pre: CapturerView, events: Seq<CaptureEvent>)
    requires
        pre.state.is_awaiting(),
        all_describe_frame(events),
        each_index_once(events),
    ensures
        forall|k: u32| #[trigger]
            run(pre, events).frame.regions.contains_key(k) <==> pre.frame.regions.contains_key(k)
                || brings(events, k),
        forall|j: int, k: u32| #[trigger]
            object_at(events, j, k) ==> run(pre, events).frame.regions[k] == events[j].region(),
    decreases events.len(),
{
    if events.len() == 0 {
        assert(forall|j: int, k: u32| !object_at(events, j, k));
    } else {
        let front = events.drop_last();
        let last = events.len() - 1;
        let mid = run(pre, front);
        let m = run(pre, events);
        lemma_front(events);
        lemma_attempt_stays_open(pre, front);
        lemma_attempt_regions(pre, front);
        assert forall|k: u32| #[trigger]
            m.frame.regions.contains_key(k) <==> pre.frame.regions.contains_key(k) || brings(
                events,
                k,
            ) by {
            if brings(front, k) {
                let j = choose|j: int| #[trigger] object_at(front, j, k);
                assert(object_at(events, j, k));
            }
            if brings(events, k) {
                let j = choose|j: int| #[trigger] object_at(events, j, k);
                if j < last {
                    assert(object_at(front, j, k));
                }
            }
            if events.last() is Object && events.last().region().index == k {
                assert(object_at(events, last, k));
            }
        }
        assert forall|j: int, k: u32| #[trigger] object_at(events, j, k) implies m.frame.regions[k]
            == events[j].region() by {
            if j < last {
                assert(object_at(front, j, k));
                assert(front[j] == events[j]);
                if events.last() is Object && events.last().region().index == k {
                    assert(object_at(events, last, k));
                }
            }
        }
    }
}

/// Completeness: whatever the order in which the metadata and the regions
/// of a frame of `n` regions arrive in an attempt, the completion signal
/// sends a frame to the processor that carries the announced dimensions and
/// exactly `n` regions, under the indices below `n`, each as the compositor
/// described it.
pub proof fn lemma_complete_frame(
    rest: CapturerView,
    events: Seq<CaptureEvent>,
    width: u32,
    height: u32,
    n: u32,
)
    requires
        rest.state.is_resting(),
        describes_frame_of(events, width, height, n),
    ensures
        ({
            let opened = transition(rest, CaptureEvent::Start).next;
            let ready = transition(run(opened, events), CaptureEvent::Ready);
            let frame = ready.next.frame;
            &&& ready.action == CaptureAction::Process
            &&& ready.next.state == CaptureState::Ready
            &&& frame.width == width
            &&& frame.height == height
            &&& frame.expected_region_count == n
            &&& frame.is_complete()
            &&& frame.regions.dom().finite()
            &&& frame.regions.dom().len() == n
            &&& forall|j: int, k: u32| #[trigger]
                object_at(events, j, k) ==> frame.regions[k] == events[j].region()
        }),
{
    let opened = transition(rest, CaptureEvent::Start).next;
    let m = run(opened, events);
    lemma_attempt_stays_open(opened, events);
    lemma_attempt_metadata(opened, events, width, height, n);
    lemma_attempt_regions(opened, events);
    assert forall|k: u32| #[trigger] m.frame.regions.contains_key(k) <==> k < n by {
        if brings(events, k) {
            let j = choose|j: int| #[trigger] object_at(events, j, k);
        }
        if k < n {
            assert(brings(events, k));
        }
    }
    lemma_indices_below(n);
    assert(m.frame.regions.dom() =~= Set::new(|k: u32| k < n));
}

} // verus!
