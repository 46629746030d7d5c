use keyboard_usage_tracker::aggregate::{
    grid_cell, receive_wait_nanos, sample_due, Aggregator, ClickRecord, HeatCell,
    KeyRecord,
};
use keyboard_usage_tracker::events::{MouseButton, TouchpadContact};
use std::collections::HashMap;

const MS: u64 = 1_000_000;

#[test]
fn hold_time_is_measured_from_the_first_press() {
    let mut a = Aggregator::new();
    a.key_down(30, false, true, false, "A".to_string(), 1_000 * MS);
    a.key_down(30, false, false, true, "A".to_string(), 1_200 * MS);
    a.key_up(30, false, 1_350 * MS + 999_999);
    assert_eq!(
        a.pending_keys(),
        &vec![KeyRecord { vk_code: 30, key_name: "A".to_string(), shift_held: true, caps_on: false, hold_ms: Some(350) }]
    );
    a.key_up(30, false, 2_000 * MS);
    assert_eq!(a.pending_keys().len(), 1);
}

#[test]
fn extended_flag_distinguishes_keys() {
    let mut a = Aggregator::new();
    a.key_down(13, false, false, false, "Enter".to_string(), 0);
    a.key_down(13, true, false, false, "NumEnter".to_string(), 5 * MS);
    a.key_up(13, true, 10 * MS);
    assert_eq!(a.pending_keys()[0].key_name, "NumEnter");
    assert_eq!(a.pending_keys()[0].hold_ms, Some(5));
    a.release_all(100 * MS);
    assert_eq!(a.pending_keys()[1].key_name, "Enter");
    assert_eq!(a.pending_keys()[1].hold_ms, Some(100));
}

#[test]
fn release_before_press_time_counts_zero() {
    let mut a = Aggregator::new();
    a.key_down(1, false, false, false, "Escape".to_string(), 10 * MS);
    a.key_up(1, false, 5 * MS);
    assert_eq!(a.pending_keys()[0].hold_ms, Some(0));
}

#[test]
fn clicks_are_buffered_with_button_names() {
    let mut a = Aggregator::new();
    a.mouse_click(MouseButton::Left, 1, 2);
    a.mouse_click(MouseButton::Middle, -3, 4);
    assert_eq!(
        a.pending_clicks(),
        &vec![
            ClickRecord { button: "Left".to_string(), x: 1, y: 2 },
            ClickRecord { button: "Middle".to_string(), x: -3, y: 4 },
        ]
    );
    a.clear_clicks();
    assert!(a.pending_clicks().is_empty());
}

#[test]
fn grid_rounds_toward_zero() {
    assert_eq!(grid_cell(0), 0);
    assert_eq!(grid_cell(19), 0);
    assert_eq!(grid_cell(47), 40);
    assert_eq!(grid_cell(-47), -40);
    assert_eq!(grid_cell(-19), 0);
    assert_eq!(grid_cell(i32::MIN), (i32::MIN / 20) * 20);
    assert_eq!(grid_cell(i32::MAX), (i32::MAX / 20) * 20);
}

#[test]
fn touch_samples_count_fingers_and_cells() {
    let mut a = Aggregator::new();
    a.record_touch_sample(&vec![]);
    assert!(a.pending_fingers().is_empty());
    let two = vec![TouchpadContact { id: 0, x: 45, y: 5 }, TouchpadContact { id: 1, x: 41, y: 19 }];
    a.record_touch_sample(&two);
    a.record_touch_sample(&vec![TouchpadContact { id: 0, x: 100, y: 100 }]);
    a.record_touch_sample(&two);
    assert_eq!(
        a.pending_fingers(),
        &HashMap::from([(2u32, 2u32), (1, 1)])
    );
    assert_eq!(
        a.pending_heatmap(),
        &vec![HeatCell { x: 40, y: 0, hits: 4 }, HeatCell { x: 100, y: 100, hits: 1 }]
    );
}

#[test]
fn flush_is_due_on_time_or_size() {
    let mut a = Aggregator::new();
    assert!(!a.flush_due(1_999_999_999));
    assert!(a.flush_due(2_000_000_000));
    for i in 0..50 {
        a.mouse_click(MouseButton::Right, i, i);
    }
    assert!(a.flush_due(0));
    a.clear_clicks();
    assert!(!a.flush_due(0));
}

#[test]
fn sampling_rhythm() {
    assert!(!sample_due(49_999_999));
    assert!(sample_due(50_000_000));
    assert_eq!(receive_wait_nanos(0), 50_000_000);
    assert_eq!(receive_wait_nanos(49_000_000), 1_000_000);
    assert_eq!(receive_wait_nanos(49_500_000), 500_000);
    assert_eq!(receive_wait_nanos(50_000_000), 1_000_000);
    assert_eq!(receive_wait_nanos(u128::MAX), 1_000_000);
}

#[test]
fn samples_fit_while_counters_are_small() {
    let mut agg = Aggregator::new();
    let none: Vec<TouchpadContact> = Vec::new();
    assert!(agg.can_record_sample(&none));
    let two = vec![TouchpadContact { id: 0, x: 5, y: 5 }, TouchpadContact { id: 1, x: 15, y: 19 }];
    assert!(agg.can_record_sample(&two));
    agg.record_touch_sample(&two);
    assert!(agg.can_record_sample(&two));
}
