use keyboard_usage_tracker::text::{
    find_with_prefix, has_prefix, parse_u32, same_text, split_str, trim_text,
};

#[test]
fn split_str_keeps_empty_pieces() {
    assert_eq!(split_str("a?b?c", '?'), vec!["a", "b", "c"]);
    assert_eq!(split_str("", '?'), vec![""]);
    assert_eq!(split_str("?", '?'), vec!["", ""]);
    assert_eq!(split_str("x&&y&", '&'), vec!["x", "", "y", ""]);
    assert_eq!(split_str("héllo?wörld", '?'), vec!["héllo", "wörld"]);
}

#[test]
fn has_prefix_cases() {
    assert!(has_prefix("token=abc", "token="));
    assert!(has_prefix("token=", "token="));
    assert!(!has_prefix("toke", "token="));
    assert!(!has_prefix("xtoken=1", "token="));
    assert!(has_prefix("anything", ""));
}

#[test]
fn parse_u32_matches_std() {
    for s in [
        "0", "42", "+7", "007", "4294967295", "4294967296", "99999999999", "", "+", "-1", "12a",
        " 1", "1 ", "++1", "-0", "+0",
    ] {
        assert_eq!(parse_u32(s), s.parse::<u32>().ok(), "input {s:?}");
    }
}

#[test]
fn find_with_prefix_takes_the_first_match() {
    let parts: Vec<String> = ["a=1", "token=x", "token=y"].iter().map(|s| s.to_string()).collect();
    assert_eq!(find_with_prefix(&parts, "token="), Some("x".to_string()));
    assert_eq!(find_with_prefix(&parts, "b="), None);
    let empty: Vec<String> = vec![];
    assert_eq!(find_with_prefix(&empty, "token="), None);
}

#[test]
fn same_text_compares_contents() {
    assert!(same_text("abc", "abc"));
    assert!(!same_text("abc", "abd"));
    assert!(same_text("", ""));
}

#[test]
fn trim_text_matches_str_trim() {
    for v in 0u32..0x3100 {
        if let Some(c) = char::from_u32(v) {
            let s = format!("{c}a{c}b{c}");
            assert_eq!(trim_text(&s), s.trim(), "char {v:#x}");
        }
    }
    assert_eq!(trim_text(""), "");
    assert_eq!(trim_text(" \n\t "), "");
}
