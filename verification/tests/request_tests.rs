use keyboard_usage_tracker::request::{query_param, route_request, split_url, tokens_json, Route};
use keyboard_usage_tracker::token::{
    native_byte_order, restart_tokens_at, stats_tokens_at, stop_tokens_at, ByteOrder,
};

const FP: &str = "host|machine";
const NOW: u64 = 1_700_000_000;

fn ord() -> ByteOrder {
    native_byte_order()
}

fn stats_token() -> String {
    stats_tokens_at(FP, NOW, ord()).0
}

#[test]
fn split_url_takes_path_and_first_query() {
    assert_eq!(split_url("/api/stats?token=a&x=1"), ("/api/stats".to_string(), "token=a&x=1".to_string()));
    assert_eq!(split_url("/"), ("/".to_string(), String::new()));
    assert_eq!(split_url("/a?b?c"), ("/a".to_string(), "b".to_string()));
}

#[test]
fn query_param_finds_first_value() {
    assert_eq!(query_param("x=1&token=abc&token=def", "token="), Some("abc".to_string()));
    assert_eq!(query_param("", "token="), None);
    assert_eq!(query_param("tok=1", "token="), None);
}

#[test]
fn open_routes_need_no_token() {
    assert_eq!(route_request("/favicon.ico", "GET", FP, NOW, ord()), Route::Favicon);
    assert_eq!(route_request("/api/tokens", "GET", FP, NOW, ord()), Route::Tokens);
    assert_eq!(route_request("/", "GET", FP, NOW, ord()), Route::Dashboard);
    assert_eq!(route_request("/anything/else?token=x", "POST", FP, NOW, ord()), Route::Dashboard);
}

#[test]
fn data_routes_need_a_stats_token() {
    let tok = stats_token();
    let pairs = [
        ("/api/stats", Route::Stats),
        ("/api/touchpad_fingers", Route::TouchpadFingers),
        ("/api/touchpad_heatmap", Route::TouchpadHeatmap),
        ("/api/live_touchpad", Route::LiveTouchpad),
        ("/api/click_positions", Route::ClickPositions),
        ("/api/hour_stats", Route::HourStats { offset: 0 }),
    ];
    for (path, route) in pairs {
        assert_eq!(route_request(&format!("{path}?token={tok}"), "GET", FP, NOW, ord()), route);
        assert_eq!(route_request(path, "GET", FP, NOW, ord()), Route::Forbidden);
        assert_eq!(route_request(&format!("{path}?token=wrong"), "GET", FP, NOW, ord()), Route::Forbidden);
    }
}

#[test]
fn previous_window_token_is_still_accepted() {
    let tok = stats_tokens_at(FP, NOW - 900, ord()).0;
    assert_eq!(route_request(&format!("/api/stats?token={tok}"), "GET", FP, NOW, ord()), Route::Stats);
    let old = stats_tokens_at(FP, NOW - 1800, ord()).0;
    assert_eq!(route_request(&format!("/api/stats?token={old}"), "GET", FP, NOW, ord()), Route::Forbidden);
}

#[test]
fn hour_stats_reads_the_offset() {
    let tok = stats_token();
    let r = |q: &str| route_request(&format!("/api/hour_stats?token={tok}&{q}"), "GET", FP, NOW, ord());
    assert_eq!(r("offset=5"), Route::HourStats { offset: 5 });
    assert_eq!(r("offset=+3"), Route::HourStats { offset: 3 });
    assert_eq!(r("offset=abc"), Route::HourStats { offset: 0 });
    assert_eq!(r("offset=4294967296"), Route::HourStats { offset: 0 });
    assert_eq!(r("x=1"), Route::HourStats { offset: 0 });
    assert_eq!(r("offset=9999"), Route::HourStats { offset: 9999 });
}

#[test]
fn restart_and_stop_need_post_and_their_own_token() {
    let restart = restart_tokens_at(FP, NOW, ord()).0;
    let stop = stop_tokens_at(FP, NOW, ord()).0;
    assert_eq!(route_request(&format!("/api/restart?token={restart}"), "POST", FP, NOW, ord()), Route::Restart);
    assert_eq!(route_request(&format!("/api/restart?token={restart}"), "GET", FP, NOW, ord()), Route::Forbidden);
    assert_eq!(route_request(&format!("/api/restart?token={stop}"), "POST", FP, NOW, ord()), Route::Forbidden);
    assert_eq!(route_request(&format!("/api/stop?token={stop}"), "POST", FP, NOW, ord()), Route::Stop);
    assert_eq!(route_request(&format!("/api/stop?token={stop}"), "post", FP, NOW, ord()), Route::Forbidden);
    assert_eq!(route_request(&format!("/api/stop?token={}", stats_token()), "POST", FP, NOW, ord()), Route::Forbidden);
}

#[test]
fn token_after_a_second_question_mark_is_not_read() {
    let tok = stats_token();
    assert_eq!(route_request(&format!("/api/stats?x=1?token={tok}"), "GET", FP, NOW, ord()), Route::Forbidden);
}

#[test]
fn tokens_json_lists_current_tokens() {
    let j = tokens_json(FP, NOW, ord());
    let expected = format!(
        r#"{{"stats":"{}","restart":"{}","stop":"{}"}}"#,
        stats_tokens_at(FP, NOW, ord()).0,
        restart_tokens_at(FP, NOW, ord()).0,
        stop_tokens_at(FP, NOW, ord()).0
    );
    assert_eq!(j, expected);
}
