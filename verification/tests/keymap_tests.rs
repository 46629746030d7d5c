use keyboard_usage_tracker::keymap::key_name;

#[test]
fn linux_key_names() {
    let cases: &[(u32, &str)] = &[
        (30, "A"), (31, "S"), (32, "D"), (33, "F"),
        (16, "Q"), (17, "W"), (18, "E"), (19, "R"),
        (2, "1"), (3, "2"), (4, "3"),
        (57, "Space"), (28, "Enter"), (14, "Backspace"), (15, "Tab"),
        (1, "Escape"), (59, "F1"), (68, "F10"), (87, "F11"),
        (42, "LShift"), (54, "RShift"), (29, "LCtrl"), (97, "RCtrl"),
        (56, "LAlt"), (100, "RAlt"), (125, "Win"),
        (103, "Up"), (108, "Down"), (105, "Left"), (106, "Right"),
        (82, "Num0"), (96, "NumEnter"),
    ];
    for &(code, expected) in cases {
        assert_eq!(key_name(code, false), expected, "code {}", code);
    }
}

#[test]
fn extended_flag_does_not_change_the_name() {
    assert_eq!(key_name(28, true), key_name(28, false));
    assert_eq!(key_name(43, false), "\\");
    assert_eq!(key_name(11, false), "0");
}

#[test]
fn unnamed_codes_are_shown_by_number() {
    assert_eq!(key_name(0, false), "Key0");
    assert_eq!(key_name(250, false), "Key250");
    assert_eq!(key_name(u32::MAX, false), "Key4294967295");
}
