use keyboard_usage_tracker::format::{
    decimal_string, encode_utf16, hour_time_filter, linux_fingerprint, should_send_contacts,
    wide_null, wide_tip, windows_fingerprint,
};

#[test]
fn decimal_matches_to_string() {
    for n in [0u32, 7, 10, 99, 168, 4294967295] {
        assert_eq!(decimal_string(n), n.to_string());
    }
}

#[test]
fn hour_filters() {
    assert_eq!(hour_time_filter(0), "timestamp >= strftime('%Y-%m-%dT%H:00:00','now','localtime')");
    assert_eq!(
        hour_time_filter(1),
        "timestamp >= strftime('%Y-%m-%dT%H:00:00','now','localtime','-1 hours') AND timestamp < strftime('%Y-%m-%dT%H:00:00','now','localtime','-0 hours')"
    );
    assert_eq!(hour_time_filter(500), hour_time_filter(168));
    assert!(hour_time_filter(168).contains("'-168 hours') AND"));
    assert!(hour_time_filter(168).ends_with("'-167 hours')"));
}

#[test]
fn fingerprints() {
    assert_eq!(linux_fingerprint("box", "abc123"), "box|abc123");
    assert_eq!(linux_fingerprint("box", "abc123\n"), "box|abc123");
    assert_eq!(linux_fingerprint("", " \t\u{3000}id x\r\n\u{a0}"), "|id x");
    assert_eq!(linux_fingerprint("h", " \n "), "h|");
    for raw in ["  a b  ", "\u{2028}z\u{85}", "", "\u{200b}q"] {
        assert_eq!(linux_fingerprint("h", raw), format!("h|{}", raw.trim()));
    }
    assert_eq!(windows_fingerprint("PC", 0x1a2b), "PC|00001a2b");
    assert_eq!(windows_fingerprint("", u32::MAX), "|ffffffff");
}

#[test]
fn websocket_sends_changes_or_contacts() {
    assert!(should_send_contacts(true, "[]", "[]"));
    assert!(should_send_contacts(false, "[]", "[{}]"));
    assert!(!should_send_contacts(false, "[]", "[]"));
}

#[test]
fn utf16_strings() {
    for s in ["Exit", "", "Türkçe", "😀x"] {
        assert_eq!(encode_utf16(s), s.encode_utf16().collect::<Vec<u16>>());
        let mut expected: Vec<u16> = s.encode_utf16().collect();
        expected.push(0);
        assert_eq!(wide_null(s), expected);
    }
}

#[test]
fn tooltip_is_truncated_to_127_units() {
    let tip = wide_tip("Keyboard Usage Tracker");
    let units: Vec<u16> = "Keyboard Usage Tracker".encode_utf16().collect();
    assert_eq!(&tip[..units.len()], &units[..]);
    assert!(tip[units.len()..].iter().all(|&u| u == 0));
    let long = "x".repeat(300);
    let tip = wide_tip(&long);
    assert!(tip[..127].iter().all(|&u| u == 'x' as u16));
    assert_eq!(tip[127], 0);
}
