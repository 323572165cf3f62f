use wluma::frame::capturer::none;
use wluma::frame::capturer::wlroots::{CaptureState, Capturer};
use wluma::frame::capturer::Capturer as Backend;
use wluma::frame::capturer::{
    CancelReason, CaptureAction, CaptureEvent, Fault, DELAY_FAILURE_MS, DELAY_SUCCESS_MS,
};
use wluma::frame::Region;

fn object(index: u32, fd: i32, size: u32) -> CaptureEvent {
    CaptureEvent::Object { index, fd, size }
}

fn metadata(width: u32, height: u32, num_objects: u32) -> CaptureEvent {
    CaptureEvent::Frame { width, height, num_objects }
}

/// Opens an attempt and feeds `events`, none of which may end it.
fn attempt(capturer: &mut Capturer, events: &[CaptureEvent]) {
    let step = capturer.step(CaptureEvent::Start);
    assert_eq!(step.action, CaptureAction::Request);
    assert!(step.release.is_empty());
    for event in events {
        let step = capturer.step(*event);
        assert_eq!(step.action, CaptureAction::Wait);
        assert!(step.release.is_empty());
    }
}

fn assert_two_regions(capturer: &Capturer) {
    let frame = capturer.frame();
    assert_eq!(frame.width(), 1920);
    assert_eq!(frame.height(), 1080);
    assert_eq!(frame.expected_region_count(), 2);
    assert_eq!(frame.region_count(), 2);
    assert!(frame.is_complete());
    assert_eq!(frame.region(0), Some(Region { index: 0, handle: 30, byte_size: 1000 }));
    assert_eq!(frame.region(1), Some(Region { index: 1, handle: 31, byte_size: 2000 }));
}

#[test]
fn delays_differ_by_an_order_of_magnitude() {
    assert_eq!(DELAY_SUCCESS_MS, 100);
    assert_eq!(DELAY_FAILURE_MS, 1000);
}

#[test]
fn new_capturer_is_idle() {
    let capturer = Capturer::new();
    assert_eq!(capturer.state(), CaptureState::Idle);
    assert_eq!(capturer.frame().region_count(), 0);
}

#[test]
fn start_issues_a_request() {
    let mut capturer = Capturer::new();
    let step = capturer.step(CaptureEvent::Start);
    assert_eq!(step.action, CaptureAction::Request);
    assert!(step.release.is_empty());
    assert_eq!(capturer.state(), CaptureState::AwaitingMetadata);
}

#[test]
fn metadata_moves_on_to_awaiting_objects() {
    let mut capturer = Capturer::new();
    attempt(&mut capturer, &[metadata(1920, 1080, 2)]);
    assert_eq!(capturer.state(), CaptureState::AwaitingObjects);
    assert_eq!(capturer.frame().expected_region_count(), 2);
}

#[test]
fn object_before_metadata_keeps_awaiting_metadata() {
    let mut capturer = Capturer::new();
    attempt(&mut capturer, &[object(0, 30, 1000)]);
    assert_eq!(capturer.state(), CaptureState::AwaitingMetadata);
    assert_eq!(capturer.frame().region_count(), 1);
}

#[test]
fn complete_frame_with_metadata_first() {
    let mut capturer = Capturer::new();
    attempt(&mut capturer, &[metadata(1920, 1080, 2), object(0, 30, 1000), object(1, 31, 2000)]);
    let step = capturer.step(CaptureEvent::Ready);
    assert_eq!(step.action, CaptureAction::Process);
    assert!(step.release.is_empty());
    assert_eq!(capturer.state(), CaptureState::Ready);
    assert_two_regions(&capturer);
}

#[test]
fn complete_frame_with_metadata_last() {
    let mut capturer = Capturer::new();
    attempt(&mut capturer, &[object(1, 31, 2000), object(0, 30, 1000), metadata(1920, 1080, 2)]);
    let step = capturer.step(CaptureEvent::Ready);
    assert_eq!(step.action, CaptureAction::Process);
    assert_two_regions(&capturer);
}

#[test]
fn complete_frame_with_metadata_between_objects() {
    let mut capturer = Capturer::new();
    attempt(&mut capturer, &[object(1, 31, 2000), metadata(1920, 1080, 2), object(0, 30, 1000)]);
    let step = capturer.step(CaptureEvent::Ready);
    assert_eq!(step.action, CaptureAction::Process);
    assert_two_regions(&capturer);
}

#[test]
fn processed_frame_is_delivered_and_released() {
    let mut capturer = Capturer::new();
    attempt(&mut capturer, &[metadata(1920, 1080, 2), object(0, 30, 1000), object(1, 31, 2000)]);
    capturer.step(CaptureEvent::Ready);
    let step = capturer.step(CaptureEvent::Processed { luma: 42 });
    assert_eq!(step.action, CaptureAction::Deliver { luma: 42, delay_ms: 100 });
    assert_eq!(step.release, vec![30, 31]);
    assert_eq!(capturer.state(), CaptureState::Idle);
    assert_eq!(capturer.frame().region_count(), 0);
    assert_eq!(capturer.frame().expected_region_count(), 0);
}

#[test]
fn success_is_followed_by_one_next_attempt() {
    let mut capturer = Capturer::new();
    attempt(&mut capturer, &[metadata(10, 10, 1), object(0, 3, 400)]);
    capturer.step(CaptureEvent::Ready);
    let step = capturer.step(CaptureEvent::Processed { luma: 7 });
    assert_eq!(step.action, CaptureAction::Deliver { luma: 7, delay_ms: DELAY_SUCCESS_MS });
    let step = capturer.step(CaptureEvent::Start);
    assert_eq!(step.action, CaptureAction::Request);
    assert!(step.release.is_empty());
    assert_eq!(capturer.state(), CaptureState::AwaitingMetadata);
    assert_eq!(capturer.frame().region_count(), 0);
}

#[test]
fn transient_cancel_retries_after_failure_delay() {
    let mut capturer = Capturer::new();
    attempt(&mut capturer, &[metadata(10, 10, 2), object(0, 3, 400)]);
    let step = capturer.step(CaptureEvent::Cancel { reason: CancelReason::Temporary });
    assert_eq!(step.action, CaptureAction::Retry { delay_ms: 1000 });
    assert_eq!(step.release, vec![3]);
    assert_eq!(capturer.state(), CaptureState::Cancelled(CancelReason::Temporary));
    assert_eq!(capturer.frame().region_count(), 0);
    let step = capturer.step(CaptureEvent::Start);
    assert_eq!(step.action, CaptureAction::Request);
    assert!(step.release.is_empty());
    assert_eq!(capturer.state(), CaptureState::AwaitingMetadata);
}

#[test]
fn resizing_cancel_is_transient() {
    let mut capturer = Capturer::new();
    attempt(&mut capturer, &[]);
    let step = capturer.step(CaptureEvent::Cancel { reason: CancelReason::Resizing });
    assert_eq!(step.action, CaptureAction::Retry { delay_ms: DELAY_FAILURE_MS });
    assert!(step.release.is_empty());
    assert_eq!(capturer.state(), CaptureState::Cancelled(CancelReason::Resizing));
    assert_eq!(capturer.step(CaptureEvent::Start).action, CaptureAction::Request);
}

#[test]
fn cancel_reasons_tell_transient_from_permanent() {
    assert!(CancelReason::Temporary.transient());
    assert!(CancelReason::Resizing.transient());
    assert!(!CancelReason::Permanent.transient());
}

#[test]
fn permanent_cancel_shuts_down_for_good() {
    let mut capturer = Capturer::new();
    attempt(&mut capturer, &[metadata(10, 10, 1), object(0, 3, 400)]);
    capturer.step(CaptureEvent::Ready);
    capturer.step(CaptureEvent::Processed { luma: 50 });
    attempt(&mut capturer, &[metadata(10, 10, 2), object(0, 8, 400), object(1, 9, 400)]);
    let step = capturer.step(CaptureEvent::Cancel { reason: CancelReason::Permanent });
    assert_eq!(step.action, CaptureAction::Shutdown);
    assert_eq!(step.release, vec![8, 9]);
    assert_eq!(capturer.state(), CaptureState::Cancelled(CancelReason::Permanent));
    let later = [
        CaptureEvent::Start,
        metadata(10, 10, 1),
        CaptureEvent::Ready,
        CaptureEvent::Cancel { reason: CancelReason::Temporary },
        CaptureEvent::Processed { luma: 1 },
        CaptureEvent::ProcessingFailed,
        CaptureEvent::Unknown,
        CaptureEvent::Start,
    ];
    for event in later {
        let step = capturer.step(event);
        assert_eq!(step.action, CaptureAction::Shutdown);
        assert!(step.release.is_empty());
        assert_eq!(capturer.state(), CaptureState::Cancelled(CancelReason::Permanent));
    }
}

#[test]
fn handle_arriving_after_shutdown_is_released_at_once() {
    let mut capturer = Capturer::new();
    attempt(&mut capturer, &[]);
    capturer.step(CaptureEvent::Cancel { reason: CancelReason::Permanent });
    let step = capturer.step(object(0, 77, 10));
    assert_eq!(step.action, CaptureAction::Shutdown);
    assert_eq!(step.release, vec![77]);
    assert_eq!(capturer.frame().region_count(), 0);
}

#[test]
fn processing_failure_is_fatal() {
    let mut capturer = Capturer::new();
    attempt(&mut capturer, &[metadata(10, 10, 1), object(0, 3, 400)]);
    capturer.step(CaptureEvent::Ready);
    let step = capturer.step(CaptureEvent::ProcessingFailed);
    assert_eq!(step.action, CaptureAction::Shutdown);
    assert_eq!(step.release, vec![3]);
    assert_eq!(capturer.state(), CaptureState::Failed(Fault::ProcessingFailed));
    assert_eq!(capturer.step(CaptureEvent::Start).action, CaptureAction::Shutdown);
}

#[test]
fn unknown_event_is_a_protocol_violation() {
    let mut capturer = Capturer::new();
    attempt(&mut capturer, &[metadata(10, 10, 2), object(0, 3, 400)]);
    let step = capturer.step(CaptureEvent::Unknown);
    assert_eq!(step.action, CaptureAction::Shutdown);
    assert_eq!(step.release, vec![3]);
    assert_eq!(capturer.state(), CaptureState::Failed(Fault::ProtocolViolation));
}

#[test]
fn event_without_request_is_a_protocol_violation() {
    for event in [
        metadata(10, 10, 1),
        CaptureEvent::Ready,
        CaptureEvent::Cancel { reason: CancelReason::Temporary },
        CaptureEvent::Processed { luma: 1 },
        CaptureEvent::ProcessingFailed,
        CaptureEvent::Unknown,
    ] {
        let mut capturer = Capturer::new();
        let step = capturer.step(event);
        assert_eq!(step.action, CaptureAction::Shutdown);
        assert!(step.release.is_empty());
        assert_eq!(capturer.state(), CaptureState::Failed(Fault::ProtocolViolation));
    }
}

#[test]
fn object_without_request_is_released_and_fatal() {
    let mut capturer = Capturer::new();
    let step = capturer.step(object(0, 5, 10));
    assert_eq!(step.action, CaptureAction::Shutdown);
    assert_eq!(step.release, vec![5]);
    assert_eq!(capturer.state(), CaptureState::Failed(Fault::ProtocolViolation));
}

#[test]
fn second_start_during_attempt_is_a_protocol_violation() {
    let mut capturer = Capturer::new();
    attempt(&mut capturer, &[object(0, 5, 10)]);
    let step = capturer.step(CaptureEvent::Start);
    assert_eq!(step.action, CaptureAction::Shutdown);
    assert_eq!(step.release, vec![5]);
    assert_eq!(capturer.state(), CaptureState::Failed(Fault::ProtocolViolation));
}

#[test]
fn processor_outcome_without_ready_is_a_protocol_violation() {
    let mut capturer = Capturer::new();
    attempt(&mut capturer, &[metadata(10, 10, 1)]);
    let step = capturer.step(CaptureEvent::Processed { luma: 9 });
    assert_eq!(step.action, CaptureAction::Shutdown);
    assert_eq!(capturer.state(), CaptureState::Failed(Fault::ProtocolViolation));
}

#[test]
fn protocol_event_during_processing_is_a_protocol_violation() {
    for event in [
        CaptureEvent::Start,
        metadata(10, 10, 1),
        object(1, 6, 10),
        CaptureEvent::Ready,
        CaptureEvent::Cancel { reason: CancelReason::Temporary },
        CaptureEvent::Unknown,
    ] {
        let mut capturer = Capturer::new();
        attempt(&mut capturer, &[metadata(10, 10, 1), object(0, 5, 10)]);
        capturer.step(CaptureEvent::Ready);
        let step = capturer.step(event);
        assert_eq!(step.action, CaptureAction::Shutdown);
        let mut expected = vec![5];
        if let CaptureEvent::Object { fd, .. } = event {
            expected.push(fd);
        }
        assert_eq!(step.release, expected);
        assert_eq!(capturer.state(), CaptureState::Failed(Fault::ProtocolViolation));
    }
}

#[test]
fn replaced_region_is_still_released() {
    let mut capturer = Capturer::new();
    attempt(
        &mut capturer,
        &[metadata(10, 10, 1), object(0, 5, 10), object(0, 6, 20)],
    );
    assert_eq!(capturer.frame().region_count(), 1);
    assert_eq!(capturer.frame().region(0), Some(Region { index: 0, handle: 6, byte_size: 20 }));
    capturer.step(CaptureEvent::Ready);
    let step = capturer.step(CaptureEvent::Processed { luma: 3 });
    assert_eq!(step.release, vec![5, 6]);
}

#[test]
fn every_handle_is_released_exactly_once_over_many_attempts() {
    let mut capturer = Capturer::new();
    let mut arrived: Vec<i32> = Vec::new();
    let mut released: Vec<i32> = Vec::new();
    let mut fd = 100;
    for round in 0..6u32 {
        released.extend(capturer.step(CaptureEvent::Start).release);
        released.extend(capturer.step(metadata(4, 4, 2)).release);
        for index in 0..2u32 {
            arrived.push(fd);
            released.extend(capturer.step(object(index, fd, 64)).release);
            fd += 1;
        }
        if round % 2 == 0 {
            released.extend(capturer.step(CaptureEvent::Ready).release);
            released.extend(capturer.step(CaptureEvent::Processed { luma: 10 }).release);
        } else {
            let reason = CancelReason::Temporary;
            released.extend(capturer.step(CaptureEvent::Cancel { reason }).release);
        }
        assert_eq!(released, arrived);
    }
    let reason = CancelReason::Permanent;
    released.extend(capturer.step(CaptureEvent::Start).release);
    arrived.push(fd);
    released.extend(capturer.step(object(0, fd, 64)).release);
    released.extend(capturer.step(CaptureEvent::Cancel { reason }).release);
    assert_eq!(released, arrived);
}

#[test]
fn ready_hands_over_the_frame_as_it_stands() {
    let mut capturer = Capturer::new();
    attempt(&mut capturer, &[object(0, 5, 10)]);
    let step = capturer.step(CaptureEvent::Ready);
    assert_eq!(step.action, CaptureAction::Process);
    assert_eq!(capturer.state(), CaptureState::Ready);
    assert_eq!(capturer.frame().region_count(), 1);
    assert!(!capturer.frame().is_complete());
}

#[test]
fn disabled_capturer_only_waits() {
    let mut capturer = none::Capturer::new();
    for event in [
        CaptureEvent::Start,
        metadata(10, 10, 1),
        CaptureEvent::Ready,
        CaptureEvent::Cancel { reason: CancelReason::Permanent },
        CaptureEvent::Processed { luma: 1 },
        CaptureEvent::ProcessingFailed,
        CaptureEvent::Unknown,
    ] {
        let step = capturer.step(event);
        assert_eq!(step.action, CaptureAction::Wait);
        assert!(step.release.is_empty());
    }
}

#[test]
fn disabled_capturer_releases_what_it_is_given() {
    let mut capturer = none::Capturer::new();
    let step = capturer.step(object(0, 9, 10));
    assert_eq!(step.action, CaptureAction::Wait);
    assert_eq!(step.release, vec![9]);
}
