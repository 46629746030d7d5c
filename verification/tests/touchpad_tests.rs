use keyboard_usage_tracker::events::TouchpadContact;
use keyboard_usage_tracker::touchpad::{live_touchpad, TouchEvent, TouchpadTracker};

fn c(id: u32, x: i32, y: i32) -> TouchpadContact {
    TouchpadContact { id, x, y }
}

#[test]
fn frame_reports_active_slots_in_order() {
    let mut t = TouchpadTracker::new();
    assert_eq!(t.apply(TouchEvent::Slot(3)), None);
    assert_eq!(t.apply(TouchEvent::TrackingId(17)), None);
    assert_eq!(t.apply(TouchEvent::PositionX(100)), None);
    assert_eq!(t.apply(TouchEvent::PositionY(200)), None);
    assert_eq!(t.apply(TouchEvent::Slot(1)), None);
    assert_eq!(t.apply(TouchEvent::TrackingId(18)), None);
    assert_eq!(t.apply(TouchEvent::PositionX(5)), None);
    assert_eq!(t.apply(TouchEvent::Sync), Some(vec![c(1, 5, 0), c(3, 100, 200)]));
    assert_eq!(t.apply(TouchEvent::Sync), None);
}

#[test]
fn lifting_a_finger_clears_its_slot() {
    let mut t = TouchpadTracker::new();
    t.apply(TouchEvent::TrackingId(1));
    t.apply(TouchEvent::PositionX(10));
    t.apply(TouchEvent::PositionY(20));
    assert_eq!(t.apply(TouchEvent::Sync), Some(vec![c(0, 10, 20)]));
    t.apply(TouchEvent::TrackingId(-1));
    assert_eq!(t.apply(TouchEvent::Sync), Some(vec![]));
    t.apply(TouchEvent::TrackingId(2));
    assert_eq!(t.apply(TouchEvent::Sync), Some(vec![c(0, 0, 0)]));
}

#[test]
fn out_of_range_slots_are_ignored() {
    let mut t = TouchpadTracker::new();
    t.apply(TouchEvent::Slot(9));
    t.apply(TouchEvent::Slot(10));
    t.apply(TouchEvent::Slot(-1));
    t.apply(TouchEvent::TrackingId(4));
    assert_eq!(t.apply(TouchEvent::Sync), Some(vec![c(9, 0, 0)]));
}

#[test]
fn other_events_change_nothing() {
    let mut t = TouchpadTracker::new();
    assert_eq!(t.apply(TouchEvent::Other), None);
    assert_eq!(t.apply(TouchEvent::Sync), None);
    assert_eq!(t.contacts(), vec![]);
}

#[test]
fn live_contacts_expire_after_250_ms() {
    let v = vec![c(0, 1, 2)];
    assert_eq!(live_touchpad(0, v.clone()), v);
    assert_eq!(live_touchpad(250_000_000, v.clone()), v);
    assert_eq!(live_touchpad(250_000_001, v.clone()), vec![]);
}
