use keyboard_usage_tracker::combos::{top_key_combos, ComboCount, KeyPress};

fn p(name: &str, ts: i64) -> KeyPress {
    KeyPress { key_name: name.to_string(), ts_ms: ts }
}

fn cc(combo: &str, count: u64) -> ComboCount {
    ComboCount { combo: combo.to_string(), count }
}

#[test]
fn ctrl_c_is_detected() {
    let out = top_key_combos(&vec![p("LCtrl", 1000), p("C", 1100)]);
    assert_eq!(out, vec![cc("Ctrl+C", 1)]);
}

#[test]
fn window_is_200_ms_inclusive() {
    assert_eq!(top_key_combos(&vec![p("RShift", 0), p("A", 200)]), vec![cc("Shift+A", 1)]);
    assert_eq!(top_key_combos(&vec![p("RShift", 0), p("A", 201)]), vec![]);
    assert_eq!(top_key_combos(&vec![p("LAlt", 500), p("Tab", 499)]), vec![]);
}

#[test]
fn a_modifier_combines_once() {
    let out = top_key_combos(&vec![p("Win", 0), p("E", 10), p("R", 20)]);
    assert_eq!(out, vec![cc("Win+E", 1)]);
}

#[test]
fn latest_unused_modifier_is_taken() {
    let out = top_key_combos(&vec![p("LCtrl", 0), p("LShift", 10), p("S", 20), p("Z", 30)]);
    assert_eq!(out, vec![cc("Shift+S", 1), cc("Ctrl+Z", 1)]);
}

#[test]
fn only_four_modifiers_are_remembered() {
    let out = top_key_combos(&vec![
        p("LCtrl", 0),
        p("LAlt", 1),
        p("LAlt", 2),
        p("LAlt", 3),
        p("LAlt", 4),
        p("X", 5),
        p("Y", 6),
        p("Z", 7),
        p("W", 8),
        p("V", 9),
    ]);
    assert_eq!(out, vec![cc("Alt+X", 1), cc("Alt+Y", 1), cc("Alt+Z", 1), cc("Alt+W", 1)]);
}

#[test]
fn plain_shift_name_is_not_a_modifier() {
    assert_eq!(top_key_combos(&vec![p("Shift", 0), p("A", 1)]), vec![]);
    assert_eq!(top_key_combos(&vec![p("LCtrl", 0), p("RCtrl", 1)]), vec![]);
}

#[test]
fn most_frequent_first_and_at_most_fifteen() {
    let mut presses = Vec::new();
    let mut t = 0i64;
    for (i, key) in ["A", "B", "C", "D", "E", "F", "G", "H", "I", "J", "K", "L", "M", "N", "O", "P", "Q"]
        .iter()
        .enumerate()
    {
        for _ in 0..(i + 1) {
            presses.push(p("LCtrl", t));
            presses.push(p(key, t + 50));
            t += 1000;
        }
    }
    let out = top_key_combos(&presses);
    assert_eq!(out.len(), 15);
    assert_eq!(out[0], cc("Ctrl+Q", 17));
    assert_eq!(out[14], cc("Ctrl+C", 3));
    for w in out.windows(2) {
        assert!(w[0].count >= w[1].count);
    }
}

#[test]
fn counts_repeat_combos() {
    let out = top_key_combos(&vec![
        p("LCtrl", 0),
        p("C", 10),
        p("LCtrl", 100),
        p("V", 110),
        p("LCtrl", 200),
        p("V", 210),
    ]);
    assert_eq!(out, vec![cc("Ctrl+V", 2), cc("Ctrl+C", 1)]);
}
