use wluma::frame::{Frame, Region};

#[test]
fn new_frame_is_empty() {
    let frame = Frame::new();
    assert_eq!(frame.width(), 0);
    assert_eq!(frame.height(), 0);
    assert_eq!(frame.expected_region_count(), 0);
    assert_eq!(frame.region_count(), 0);
    assert_eq!(frame.region(0), None);
}

#[test]
fn metadata_is_recorded() {
    let mut frame = Frame::new();
    frame.set_metadata(1920, 1080, 2);
    assert_eq!(frame.width(), 1920);
    assert_eq!(frame.height(), 1080);
    assert_eq!(frame.expected_region_count(), 2);
    assert_eq!(frame.region_count(), 0);
}

#[test]
fn metadata_keeps_regions() {
    let mut frame = Frame::new();
    frame.set_object(0, 5, 4096);
    frame.set_metadata(640, 480, 1);
    assert_eq!(frame.region(0), Some(Region { index: 0, handle: 5, byte_size: 4096 }));
    assert_eq!(frame.region_count(), 1);
}

#[test]
fn regions_are_found_by_index() {
    let mut frame = Frame::new();
    frame.set_object(2, 12, 300);
    frame.set_object(0, 10, 100);
    frame.set_object(1, 11, 200);
    assert_eq!(frame.region(0), Some(Region { index: 0, handle: 10, byte_size: 100 }));
    assert_eq!(frame.region(1), Some(Region { index: 1, handle: 11, byte_size: 200 }));
    assert_eq!(frame.region(2), Some(Region { index: 2, handle: 12, byte_size: 300 }));
    assert_eq!(frame.region(3), None);
    assert_eq!(frame.region_count(), 3);
}

#[test]
fn region_with_same_index_replaces() {
    let mut frame = Frame::new();
    frame.set_object(0, 10, 100);
    frame.set_object(1, 11, 200);
    frame.set_object(0, 20, 150);
    assert_eq!(frame.region_count(), 2);
    assert_eq!(frame.region(0), Some(Region { index: 0, handle: 20, byte_size: 150 }));
    assert_eq!(frame.region(1), Some(Region { index: 1, handle: 11, byte_size: 200 }));
}

#[test]
fn frame_without_regions_expected_is_complete() {
    let frame = Frame::new();
    assert!(frame.is_complete());
}

#[test]
fn frame_is_complete_once_all_regions_arrived() {
    let mut frame = Frame::new();
    frame.set_metadata(800, 600, 3);
    assert!(!frame.is_complete());
    frame.set_object(1, 4, 10);
    assert!(!frame.is_complete());
    frame.set_object(2, 5, 10);
    assert!(!frame.is_complete());
    frame.set_object(0, 3, 10);
    assert!(frame.is_complete());
}

#[test]
fn frame_with_stray_index_is_not_complete() {
    let mut frame = Frame::new();
    frame.set_metadata(800, 600, 2);
    frame.set_object(0, 3, 10);
    frame.set_object(7, 4, 10);
    assert_eq!(frame.region_count(), 2);
    assert!(!frame.is_complete());
}

#[test]
fn frame_with_too_many_regions_is_not_complete() {
    let mut frame = Frame::new();
    frame.set_object(0, 3, 10);
    frame.set_object(1, 4, 10);
    frame.set_metadata(800, 600, 1);
    assert!(!frame.is_complete());
}

#[test]
fn regions_before_metadata_complete_the_frame() {
    let mut frame = Frame::new();
    frame.set_object(1, 4, 10);
    frame.set_object(0, 3, 10);
    assert!(!frame.is_complete());
    frame.set_metadata(800, 600, 2);
    assert!(frame.is_complete());
}

#[test]
fn highest_index_is_accepted() {
    let mut frame = Frame::new();
    frame.set_object(u32::MAX, -1, u32::MAX);
    assert_eq!(
        frame.region(u32::MAX),
        Some(Region { index: u32::MAX, handle: -1, byte_size: u32::MAX })
    );
    assert_eq!(frame.region(0), None);
}
