use chrono::Duration;
use chrono::Utc;
use yule_gitlog::events::filter_contrib_events;
use yule_gitlog::events::filter_events_by_days;
use yule_gitlog::events::filter_events_since;
use yule_gitlog::events::mk_event;
use yule_gitlog::events::pad_right;
use yule_gitlog::events::parse_events_to_ticker;
use yule_gitlog::events::try_parse_events_to_ticker;
use yule_gitlog::events::GitHubEvent;

/// Ensures pad_right does not truncate when the string is already long enough.
#[test]
fn pad_right_no_padding_when_long_enough() {
    let out = pad_right("hello", 3);
    assert_eq!(out, "hello");
}

/// Ensures pad_right appends the expected number of spaces.
#[test]
fn pad_right_adds_spaces() {
    let out = pad_right("hi", 5);
    assert_eq!(out, "hi   ");
}

/// Ensures empty events yield empty ticker strings and no ticker flag.
#[test]
fn parse_events_to_ticker_empty() {
    let (msg, meta, have) = parse_events_to_ticker(&[]);
    assert_eq!(msg, "");
    assert_eq!(meta, "");
    assert!(!have);
}

/// Ensures recent events are labeled as "today" in the meta ticker.
#[test]
fn parse_events_to_ticker_today() {
    let now = Utc::now();
    let events = vec![mk_event("PushEvent", "octo/repo", now.timestamp())];
    let (msg, meta, have) = parse_events_to_ticker(&events);
    assert!(have);
    assert!(msg.contains("PushEvent in octo/repo"));
    assert!(meta.contains("today"));
}

/// Ensures a 1-day offset is labeled as "1 day ago".
#[test]
fn parse_events_to_ticker_one_day_ago() {
    let ts = Utc::now() - Duration::days(1);
    let events = vec![mk_event("PullRequestEvent", "octo/repo", ts.timestamp())];
    let (_msg, meta, _have) = parse_events_to_ticker(&events);
    assert!(meta.contains("1 day ago"));
}

/// Ensures filtering by days keeps only recent events.
#[test]
fn filter_events_by_days_keeps_recent() {
    let now = Utc::now();
    let events = vec![
        mk_event("PushEvent", "octo/repo", (now - Duration::days(1)).timestamp()),
        mk_event("PushEvent", "octo/old", (now - Duration::days(10)).timestamp()),
    ];
    let filtered = filter_events_by_days(events, 5);
    assert_eq!(filtered.len(), 1);
    assert_eq!(filtered[0].repo.name, "octo/repo");
}

/// Ensures non-contribution event types are removed by the contrib filter.
#[test]
fn filter_contrib_events_removes_non_contrib() {
    let now = Utc::now();
    let mut events = vec![
        mk_event("PushEvent", "octo/repo", now.timestamp()),
        mk_event("PublicEvent", "octo/repo", now.timestamp()),
    ];
    filter_contrib_events(&mut events);
    assert_eq!(events.len(), 1);
    assert_eq!(events[0].type_, "PushEvent");
}

/// Ensures filtering an empty input yields an empty output.
#[test]
fn filter_events_by_days_empty_input() {
    let filtered = filter_events_by_days(Vec::new(), 7);
    assert!(filtered.is_empty());
}

/// Ensures the meta ticker uses plural days for older events.
#[test]
fn parse_events_to_ticker_many_days_ago() {
    let ts = Utc::now() - Duration::days(3);
    let events = vec![mk_event("IssuesEvent", "octo/repo", ts.timestamp())];
    let (_msg, meta, _have) = parse_events_to_ticker(&events);
    assert!(meta.contains("3 days ago"));
}

/// Ensures message and meta strings have equal segment widths.
#[test]
fn parse_events_to_ticker_padding_matches() {
    let now = Utc::now();
    let events = vec![mk_event("CreateEvent", "octo/long-repo-name", now.timestamp())];
    let (msg, meta, _have) = parse_events_to_ticker(&events);
    assert_eq!(msg.len(), meta.len());
}

/// The creation time written by mk_event parses back to the same
/// second: an event is kept exactly for cutoffs strictly before it.
#[test]
fn filter_since_is_strict() {
    let e = mk_event("PushEvent", "octo/repo", 1_700_000_000);
    let kept = filter_events_since(vec![e], 1_699_999_999);
    assert_eq!(kept.len(), 1);
    let e = mk_event("PushEvent", "octo/repo", 1_700_000_000);
    let dropped = filter_events_since(vec![e], 1_700_000_000);
    assert!(dropped.is_empty());
}

/// An unparseable creation time is reported rather than formatted.
#[test]
fn try_parse_rejects_bad_timestamp() {
    let bad = GitHubEvent {
        created_at: "not a date".to_string(),
        type_: "PushEvent".to_string(),
        repo: yule_gitlog::events::Repo {
            name: "octo/repo".to_string(),
        },
    };
    assert!(try_parse_events_to_ticker(&[bad]).is_none());
    let good = mk_event("PushEvent", "octo/repo", Utc::now().timestamp());
    let r = try_parse_events_to_ticker(&[good]);
    assert!(r.is_some());
    assert!(r.unwrap().2);
}

/// Each segment is the wider of its two lines plus a four-space gap.
#[test]
fn segment_width_rule() {
    let now = Utc::now();
    let events = vec![mk_event("PushEvent", "octo/repo", now.timestamp())];
    let (msg, _meta, _have) = parse_events_to_ticker(&events);
    // "PushEvent in octo/repo" is 22 runes, "today" is 5: width 26
    assert_eq!(msg.chars().count(), 26);
    assert_eq!(msg, "PushEvent in octo/repo    ");
}
