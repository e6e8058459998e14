use post::context::Context;
use post::cursor::{channel_state_path, invalid_state_file, ChannelState};
use post::error::ErrorCode;
use post::presence::{
    heartbeat_payload, is_live, parse_heartbeat, read_presence, rooms_to_report, sort_rooms, who_text,
};
use post::textmap::RoomMap;
use std::time::{SystemTime, UNIX_EPOCH};

const ID1: &str = "20260722-013000-000001-aaa111";
const ID2: &str = "20260722-013000-000002-bbb222";

/// Writes the cursors out and reads them back, as a store does.
fn reload(state: &ChannelState) -> ChannelState {
    let mut fresh = ChannelState::default();
    for i in 0..state.len() {
        let (channel, id) = state.entry(i);
        fresh.restore(channel, id);
    }
    fresh
}

fn now() -> u64 {
    SystemTime::now().duration_since(UNIX_EPOCH).unwrap().as_secs()
}

#[test]
fn advance_works_for_a_room_that_never_received_mail() {
    let mut state = ChannelState::default();
    state.advance("taxonomy", "20260722-013000-000001-abc123");
    let state = reload(&state);
    assert_eq!(state.cursor("taxonomy"), Some("20260722-013000-000001-abc123"));
}

#[test]
fn missing_state_file_is_empty_state() {
    let state = ChannelState::default();
    assert!(state.cursor("taxonomy").is_none());
    assert_eq!(state.len(), 0);
}

#[test]
fn advance_persists_and_reloads() {
    let mut state = ChannelState::default();
    state.advance("taxonomy", "20260722-013000-000001-abc123");
    assert_eq!(reload(&state).cursor("taxonomy"), Some("20260722-013000-000001-abc123"));
}

#[test]
fn advance_never_regresses() {
    let mut state = ChannelState::default();
    state.advance("taxonomy", "20260722-013000-000002-bbb222");
    let mut state = reload(&state);
    state.advance("taxonomy", "20260722-013000-000001-aaa111");
    assert_eq!(reload(&state).cursor("taxonomy"), Some("20260722-013000-000002-bbb222"));
}

#[test]
fn cursors_are_per_channel_and_per_room() {
    let mut alpha = ChannelState::default();
    let mut beta = ChannelState::default();
    alpha.advance("taxonomy", "20260722-013000-000001-abc123");
    alpha.advance("build", "20260722-014000-000001-def456");
    beta.advance("taxonomy", "20260722-015000-000001-fed789");
    assert_eq!(alpha.cursor("taxonomy"), Some("20260722-013000-000001-abc123"));
    assert_eq!(alpha.cursor("build"), Some("20260722-014000-000001-def456"));
    assert_eq!(beta.cursor("taxonomy"), Some("20260722-015000-000001-fed789"));
}

#[test]
fn advance_reports_prior_and_new_cursor_and_replay_is_not_an_advance() {
    let mut state = ChannelState::default();
    let first = state.advance("taxonomy", ID2);
    assert_eq!(first.prior, None);
    assert_eq!(first.cursor, ID2);
    assert!(first.advanced);

    let replay = state.advance("taxonomy", ID2);
    assert_eq!(replay.prior.as_deref(), Some(ID2));
    assert_eq!(replay.cursor, ID2);
    assert!(!replay.advanced);

    let behind = state.advance("taxonomy", ID1);
    assert_eq!(behind.cursor, ID2, "a target behind the cursor never moves it");
    assert!(!behind.advanced);
}

#[test]
fn concurrent_advances_on_two_channels_both_survive() {
    let mut one = ChannelState::default();
    one.advance("a", ID1);
    one.advance("b", ID2);
    let mut other = ChannelState::default();
    other.advance("b", ID2);
    other.advance("a", ID1);
    for channel in ["a", "b"] {
        assert_eq!(one.cursor(channel), other.cursor(channel));
    }
}

#[test]
fn corrupt_state_is_a_config_error_not_a_panic() {
    let error = invalid_state_file("/mail/alpha/channel-state.json", "expected value");
    assert_eq!(error.code.as_str(), "config_invalid");
    let context = Context { root: "/mail".to_owned(), home: "/h".to_owned() };
    assert_eq!(
        channel_state_path(&context, "alpha").expect("path"),
        "/mail/alpha/channel-state.json"
    );
    assert_eq!(
        channel_state_path(&context, "a/b").expect_err("bad room").code,
        ErrorCode::InvalidArgument
    );
}

#[test]
fn missing_heartbeat_is_not_live() {
    let presence = read_presence("alpha", None, now());
    assert!(!presence.live_watch);
    assert!(presence.last_seen.is_none());
}

#[test]
fn fresh_heartbeat_is_live() {
    let at = now();
    let presence = read_presence("alpha", Some(&heartbeat_payload(at, 1000)), at);
    assert!(presence.live_watch);
    assert_eq!(presence.last_seen, Some(at.to_string()));
}

#[test]
fn stale_heartbeat_is_not_live() {
    let presence = read_presence("alpha", Some("1 1000\n"), now());
    assert!(!presence.live_watch);
    assert_eq!(presence.last_seen.as_deref(), Some("1"));
}

#[test]
fn ten_second_interval_stays_live_between_polls() {
    let now = now();
    // Age 9s with a 10s poll interval: within interval*2 + slack.
    assert!(is_live(now, now.saturating_sub(9), 10_000));
    // Age well past the window.
    assert!(!is_live(now, now.saturating_sub(30), 10_000));
}

#[test]
fn future_stamp_is_never_live() {
    let now = now();
    assert!(!is_live(now, now.saturating_add(3600), 1000));
}

#[test]
fn liveness_has_exact_edges_and_survives_huge_intervals() {
    assert!(is_live(1004, 1000, 1000));
    assert!(!is_live(1005, 1000, 1000));
    assert!(is_live(u64::MAX, 0, u64::MAX));
}

#[test]
fn heartbeats_without_an_interval_assume_a_second() {
    assert_eq!(parse_heartbeat("12"), (Some(12), 1000));
    assert_eq!(parse_heartbeat("12 5"), (Some(12), 5));
    assert_eq!(parse_heartbeat(""), (None, 1000));
    assert_eq!(parse_heartbeat("x y"), (None, 1000));
    assert_eq!(parse_heartbeat("+7  9 rest"), (Some(7), 9));
}

#[test]
fn presence_lists_named_rooms_once_in_order() {
    let mut rooms: RoomMap = RoomMap::new();
    rooms.insert("beta", "/b".to_owned());
    rooms.insert("alpha", "/a".to_owned());
    assert_eq!(rooms_to_report(&vec![], &rooms), vec!["alpha".to_owned(), "beta".to_owned()]);
    let named = vec!["b".to_owned(), "a".to_owned(), "b".to_owned()];
    assert_eq!(rooms_to_report(&named, &rooms), vec!["b".to_owned(), "a".to_owned()]);
    let entries = sort_rooms(vec![
        read_presence("b", Some("5 1000"), 5),
        read_presence("a", None, 5),
    ]);
    assert_eq!(
        who_text(&entries),
        "a  live-watch=no  last-seen=never\nb  live-watch=yes  last-seen=5\n"
    );
    assert_eq!(who_text(&vec![]), "post: no rooms to report\n");
}
