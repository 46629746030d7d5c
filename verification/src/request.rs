//! Routing of the dashboard's HTTP requests: which answer a request gets,
//! given its URL and method, the machine's fingerprint and the time.

use crate::text::{
    find_with_prefix, first_with_prefix, lemma_split_on_nonempty, parse_u32, parse_u32_spec,
    same_text, split_on, split_str,
};
use crate::token::{
    lemma_token_accepted_until_next_window, restart_purpose, restart_tokens_at, stats_purpose,
    stats_tokens_at, stop_purpose, stop_tokens_at, token_accepted, tokens_at_view, validate_token,
    validate_stats_token_at, ByteOrder, RESTART_TOKEN_CYCLE_SECS, STATS_TOKEN_CYCLE_SECS,
};
use vstd::prelude::*;

verus! {

/// What the dashboard answers a request with.
#[derive(Debug, Clone, Copy, PartialEq, Eq, Structural)]
pub enum Route {
    /// The icon.
    Favicon,
    /// The current statistics, restart and stop tokens.
    Tokens,
    /// Status 403 with `{"error":"forbidden"}`.
    Forbidden,
    /// The cached statistics.
    Stats,
    /// The finger-count histogram of the touchpad.
    TouchpadFingers,
    /// The touchpad heatmap.
    TouchpadHeatmap,
    /// The fingers on the touchpad now.
    LiveTouchpad,
    /// The statistics of the hour `offset` hours back.
    HourStats { offset: u32 },
    /// The click positions.
    ClickPositions,
    /// Restart the tracker.
    Restart,
    /// Stop the tracker.
    Stop,
    /// The dashboard page.
    Dashboard,
}

/// The path of a URL: what comes before the first `?`.
pub open spec fn url_path(url: Seq<char>) -> Seq<char> {
    split_on(url, '?')[0]
}

/// The query of a URL: what comes after the first `?`, up to a second
/// one; empty when there is none.
pub open spec fn url_query(url: Seq<char>) -> Seq<char> {
    if split_on(url, '?').len() > 1 {
        split_on(url, '?')[1]
    } else {
        Seq::empty()
    }
}

/// The value of the first `&`-separated part of `query` that begins with
/// `key` (the key written with its `=`).
pub open spec fn query_value(query: Seq<char>, key: Seq<char>) -> Option<Seq<char>> {
    first_with_prefix(split_on(query, '&'), key)
}

/// The token that a URL carries; empty when it carries none.
pub open spec fn submitted_token(url: Seq<char>) -> Seq<char> {
    match query_value(url_query(url), "token="@) {
        Some(v) => v,
        None => Seq::empty(),
    }
}

/// The hour offset that a URL asks for; 0 when it asks for none or for
/// something that is not a `u32`.
pub open spec fn requested_offset(url: Seq<char>) -> u32 {
    match query_value(url_query(url), "offset="@) {
        Some(v) => match parse_u32_spec(v) {
            Some(n) => n,
            None => 0,
        },
        None => 0,
    }
}

/// Whether the URL carries a statistics token valid at `now`.
pub open spec fn stats_allowed(url: Seq<char>, fingerprint: Seq<char>, now: u64, order: ByteOrder) -> bool {
    token_accepted(
        submitted_token(url),
        fingerprint,
        stats_purpose(),
        STATS_TOKEN_CYCLE_SECS,
        now,
        order,
    )
}

/// The answer to a request.
pub open spec fn route_spec(
    url: Seq<char>,
    method: Seq<char>,
    fingerprint: Seq<char>,
    now: u64,
    order: ByteOrder,
) -> Route {
    let path = url_path(url);
    let tok = submitted_token(url);
    let stats_ok = stats_allowed(url, fingerprint, now, order);
    if path == "/favicon.ico"@ {
        Route::Favicon
    } else if path == "/api/tokens"@ {
        Route::Tokens
    } else if path == "/api/stats"@ {
        if stats_ok { Route::Stats } else { Route::Forbidden }
    } else if path == "/api/touchpad_fingers"@ {
        if stats_ok { Route::TouchpadFingers } else { Route::Forbidden }
    } else if path == "/api/touchpad_heatmap"@ {
        if stats_ok { Route::TouchpadHeatmap } else { Route::Forbidden }
    } else if path == "/api/live_touchpad"@ {
        if stats_ok { Route::LiveTouchpad } else { Route::Forbidden }
    } else if path == "/api/hour_stats"@ {
        if stats_ok { Route::HourStats { offset: requested_offset(url) } } else { Route::Forbidden }
    } else if path == "/api/click_positions"@ {
        if stats_ok { Route::ClickPositions } else { Route::Forbidden }
    } else if path == "/api/restart"@ {
        if method == "POST"@ && token_accepted(
            tok,
            fingerprint,
            restart_purpose(),
            RESTART_TOKEN_CYCLE_SECS,
            now,
            order,
        ) {
            Route::Restart
        } else {
            Route::Forbidden
        }
    } else if path == "/api/stop"@ {
        if method == "POST"@ && token_accepted(
            tok,
            fingerprint,
            stop_purpose(),
            RESTART_TOKEN_CYCLE_SECS,
            now,
            order,
        ) {
            Route::Stop
        } else {
            Route::Forbidden
        }
    } else {
        Route::Dashboard
    }
}

/// The path and the query of a URL.
pub fn split_url(url: &str) -> (r: (String, String))
    ensures
        r.0@ == url_path(url@),
        r.1@ == url_query(url@),
{
    let parts = split_str(url, '?');
    proof {
        lemma_split_on_nonempty(url@, '?');
    }
    let path = parts[0].clone();
    let query = if parts.len() > 1 {
        parts[1].clone()
    } else {
        String::new()
    };
    (path, query)
}

/// The value of the first part of `query` that begins with `key`.
pub fn query_param(query: &str, key: &str) -> (r: Option<String>)
    ensures
        match r {
            Some(v) => query_value(query@, key@) == Some(v@),
            None => query_value(query@, key@) is None,
        },
{
    let parts = split_str(query, '&');
    assert(parts@.map_values(|p: String| p@) =~= split_on(query@, '&'));
    find_with_prefix(&parts, key)
}

/// The answer to the request for `url` with `method`, on the machine with
/// `fingerprint` and byte order `order`, at `now` seconds since the epoch.
pub fn route_request(url: &str, method: &str, fingerprint: &str, now: u64, order: ByteOrder) -> (r:
    Route)
    ensures
        r == route_spec(url@, method@, fingerprint@, now, order),
{
    let (path, query) = split_url(url);
    let token = match query_param(query.as_str(), "token=") {
        Some(t) => t,
        None => String::new(),
    };
    assert(token@ == submitted_token(url@));
    let p = path.as_str();
    if same_text(p, "/favicon.ico") {
        Route::Favicon
    } else if same_text(p, "/api/tokens") {
        Route::Tokens
    } else if same_text(p, "/api/stats") {
        if validate_stats_token_at(token.as_str(), fingerprint, now, order) {
            Route::Stats
        } else {
            Route::Forbidden
        }
    } else if same_text(p, "/api/touchpad_fingers") {
        if validate_stats_token_at(token.as_str(), fingerprint, now, order) {
            Route::TouchpadFingers
        } else {
            Route::Forbidden
        }
    } else if same_text(p, "/api/touchpad_heatmap") {
        if validate_stats_token_at(token.as_str(), fingerprint, now, order) {
            Route::TouchpadHeatmap
        } else {
            Route::Forbidden
        }
    } else if same_text(p, "/api/live_touchpad") {
        if validate_stats_token_at(token.as_str(), fingerprint, now, order) {
            Route::LiveTouchpad
        } else {
            Route::Forbidden
        }
    } else if same_text(p, "/api/hour_stats") {
        if validate_stats_token_at(token.as_str(), fingerprint, now, order) {
            let offset = match query_param(query.as_str(), "offset=") {
                Some(v) => match parse_u32(v.as_str()) {
                    Some(n) => n,
                    None => 0,
                },
                None => 0,
            };
            Route::HourStats { offset }
        } else {
            Route::Forbidden
        }
    } else if same_text(p, "/api/click_positions") {
        if validate_stats_token_at(token.as_str(), fingerprint, now, order) {
            Route::ClickPositions
        } else {
            Route::Forbidden
        }
    } else if same_text(p, "/api/restart") {
        let (cur, prev) = restart_tokens_at(fingerprint, now, order);
        if same_text(method, "POST") && validate_token(token.as_str(), cur.as_str(), prev.as_str()) {
            Route::Restart
        } else {
            Route::Forbidden
        }
    } else if same_text(p, "/api/stop") {
        let (cur, prev) = stop_tokens_at(fingerprint, now, order);
        if same_text(method, "POST") && validate_token(token.as_str(), cur.as_str(), prev.as_str()) {
            Route::Stop
        } else {
            Route::Forbidden
        }
    } else {
        Route::Dashboard
    }
}

/// The body of the answer to `/api/tokens`.
pub open spec fn tokens_json_view(stats: Seq<char>, restart: Seq<char>, stop: Seq<char>) -> Seq<
    char,
> {
    "{\"stats\":\""@ + stats + "\",\"restart\":\""@ + restart + "\",\"stop\":\""@ + stop + "\"}"@
}

/// The body of the answer to `/api/tokens` at `now`: the current token
/// of each purpose.
pub fn tokens_json(fingerprint: &str, now: u64, order: ByteOrder) -> (j: String)
    ensures
        j@ == tokens_json_view(
            tokens_at_view(fingerprint@, stats_purpose(), STATS_TOKEN_CYCLE_SECS, now, order).0,
            tokens_at_view(fingerprint@, restart_purpose(), RESTART_TOKEN_CYCLE_SECS, now, order).0,
            tokens_at_view(fingerprint@, stop_purpose(), RESTART_TOKEN_CYCLE_SECS, now, order).0,
        ),
{
    let (stats, _) = stats_tokens_at(fingerprint, now, order);
    let (restart, _) = restart_tokens_at(fingerprint, now, order);
    let (stop, _) = stop_tokens_at(fingerprint, now, order);
    let mut j = String::from_str("{\"stats\":\"");
    j.append(stats.as_str());
    j.append("\",\"restart\":\"");
    j.append(restart.as_str());
    j.append("\",\"stop\":\"");
    j.append(stop.as_str());
    j.append("\"}");
    j
}

/// Data is only handed out for a valid statistics token.
pub proof fn lemma_data_needs_stats_token(
    url: Seq<char>,
    method: Seq<char>,
    fingerprint: Seq<char>,
    now: u64,
    order: ByteOrder,
)
    ensures
        ({
            let r = route_spec(url, method, fingerprint, now, order);
            (r is Stats || r is TouchpadFingers || r is TouchpadHeatmap || r is LiveTouchpad
                || r is HourStats || r is ClickPositions) ==> stats_allowed(url, fingerprint, now, order)
        }),
{
}

/// The tracker is only restarted or stopped on a POST that carries a
/// valid token of that purpose.
pub proof fn lemma_control_needs_post_and_token(
    url: Seq<char>,
    method: Seq<char>,
    fingerprint: Seq<char>,
    now: u64,
    order: ByteOrder,
)
    ensures
        route_spec(url, method, fingerprint, now, order) is Restart ==> method == "POST"@
            && token_accepted(
            submitted_token(url),
            fingerprint,
            restart_purpose(),
            RESTART_TOKEN_CYCLE_SECS,
            now,
            order,
        ),
        route_spec(url, method, fingerprint, now, order) is Stop ==> method == "POST"@ && token_accepted(
            submitted_token(url),
            fingerprint,
            stop_purpose(),
            RESTART_TOKEN_CYCLE_SECS,
            now,
            order,
        ),
{
}

/// A request for protected data without a valid statistics token is
/// refused.
pub proof fn lemma_missing_token_refused(
    url: Seq<char>,
    method: Seq<char>,
    fingerprint: Seq<char>,
    now: u64,
    order: ByteOrder,
)
    requires
        url_path(url) == "/api/stats"@ || url_path(url) == "/api/touchpad_fingers"@ || url_path(url)
            == "/api/touchpad_heatmap"@ || url_path(url) == "/api/live_touchpad"@ || url_path(url)
            == "/api/hour_stats"@ || url_path(url) == "/api/click_positions"@,
        !stats_allowed(url, fingerprint, now, order),
    ensures
        route_spec(url, method, fingerprint, now, order) == Route::Forbidden,
{
    reveal_strlit("/favicon.ico");
    reveal_strlit("/api/tokens");
    reveal_strlit("/api/stats");
    reveal_strlit("/api/touchpad_fingers");
    reveal_strlit("/api/touchpad_heatmap");
    reveal_strlit("/api/live_touchpad");
    reveal_strlit("/api/hour_stats");
    reveal_strlit("/api/click_positions");
    reveal_strlit("/api/restart");
    reveal_strlit("/api/stop");
    assert("/favicon.ico"@.len() == 12);
    assert("/api/tokens"@.len() == 11);
    assert("/api/stats"@.len() == 10);
    assert("/api/touchpad_fingers"@.len() == 21);
    assert("/api/touchpad_heatmap"@.len() == 21);
    assert("/api/live_touchpad"@.len() == 18);
    assert("/api/hour_stats"@.len() == 15);
    assert("/api/click_positions"@.len() == 20);
    assert("/api/touchpad_fingers"@[14] != "/api/touchpad_heatmap"@[14]);
}

/// A statistics token handed out by `/api/tokens` opens `/api/stats`
/// until the end of the window after the one it was issued in.
pub proof fn lemma_issued_token_opens_stats(
    url: Seq<char>,
    method: Seq<char>,
    fingerprint: Seq<char>,
    issued: u64,
    later: u64,
    order: ByteOrder,
)
    requires
        url_path(url) == "/api/stats"@,
        submitted_token(url) == tokens_at_view(
            fingerprint,
            stats_purpose(),
            STATS_TOKEN_CYCLE_SECS,
            issued,
            order,
        ).0,
        later / STATS_TOKEN_CYCLE_SECS == issued / STATS_TOKEN_CYCLE_SECS || later
            / STATS_TOKEN_CYCLE_SECS == issued / STATS_TOKEN_CYCLE_SECS + 1,
    ensures
        route_spec(url, method, fingerprint, later, order) == Route::Stats,
{
    reveal_strlit("/favicon.ico");
    reveal_strlit("/api/tokens");
    reveal_strlit("/api/stats");
    assert("/api/stats"@.len() == 10);
    assert("/favicon.ico"@.len() == 12);
    assert("/api/tokens"@.len() == 11);
    lemma_token_accepted_until_next_window(
        fingerprint,
        stats_purpose(),
        STATS_TOKEN_CYCLE_SECS,
        issued,
        later,
        order,
    );
}

/// A restart or stop token handed out by `/api/tokens` at `issued` acts
/// on a POST to `/api/restart` or `/api/stop` at any `later` time in the
/// same hour window or the next one: the tracker is restarted or stopped.
pub proof fn lemma_issued_control_token_acts(
    url: Seq<char>,
    fingerprint: Seq<char>,
    issued: u64,
    later: u64,
    order: ByteOrder,
)
    requires
        later / 3600 == issued / 3600 || later / 3600 == issued / 3600 + 1,
    ensures
        url_path(url) == "/api/restart"@ && submitted_token(url) == tokens_at_view(
            fingerprint,
            restart_purpose(),
            3600,
            issued,
            order,
        ).0 ==> route_spec(url, "POST"@, fingerprint, later, order) == Route::Restart,
        url_path(url) == "/api/stop"@ && submitted_token(url) == tokens_at_view(
            fingerprint,
            stop_purpose(),
            3600,
            issued,
            order,
        ).0 ==> route_spec(url, "POST"@, fingerprint, later, order) == Route::Stop,
{
    reveal_strlit("/favicon.ico");
    reveal_strlit("/api/tokens");
    reveal_strlit("/api/stats");
    reveal_strlit("/api/touchpad_fingers");
    reveal_strlit("/api/touchpad_heatmap");
    reveal_strlit("/api/live_touchpad");
    reveal_strlit("/api/hour_stats");
    reveal_strlit("/api/click_positions");
    reveal_strlit("/api/restart");
    reveal_strlit("/api/stop");
    assert("/favicon.ico"@.len() == 12);
    assert("/api/tokens"@.len() == 11);
    assert("/api/stats"@.len() == 10);
    assert("/api/touchpad_fingers"@.len() == 21);
    assert("/api/touchpad_heatmap"@.len() == 21);
    assert("/api/live_touchpad"@.len() == 18);
    assert("/api/hour_stats"@.len() == 15);
    assert("/api/click_positions"@.len() == 20);
    assert("/api/restart"@.len() == 12);
    assert("/api/stop"@.len() == 9);
    assert("/api/restart"@[1] != "/favicon.ico"@[1]);
    assert("/api/stop"@[5] != "/api/stats"@[5] || "/api/stop"@.len() != "/api/stats"@.len());
    lemma_token_accepted_until_next_window(fingerprint, restart_purpose(), 3600, issued, later, order);
    lemma_token_accepted_until_next_window(fingerprint, stop_purpose(), 3600, issued, later, order);
}

} // verus!
