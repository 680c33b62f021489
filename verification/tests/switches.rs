//! The stored switch, and the hold that a usage limit puts on new starts.

use rimaia_core::instant::{format_instant, parse_instant, Instant};
use rimaia_core::scheduler::pause::{active_until, clear, note_usage_limit};
use rimaia_core::scheduler::state::{queue_state, QueueState};

fn at(rfc3339: &str) -> Instant {
    parse_instant(rfc3339).expect("a literal timestamp must parse")
}

#[test]
fn a_queue_nobody_has_ever_started_is_paused() {
    assert_eq!(queue_state(&None), QueueState::Paused);
    assert_eq!(QueueState::default(), QueueState::Paused);
}

#[test]
fn the_switch_survives_being_read_back_through_the_row_it_wrote() {
    let row = Some(QueueState::Running.as_str().to_string());

    assert_eq!(row, Some("running".to_string()));
    assert_eq!(queue_state(&row), QueueState::Running);
}

#[test]
fn a_hand_edited_switch_falls_back_to_paused_rather_than_to_running() {
    assert_eq!(queue_state(&Some("Running".to_string())), QueueState::Paused);
}

#[test]
fn the_switch_serializes_with_the_spelling_it_stores() {
    for (state, spelling) in [(QueueState::Running, "running"), (QueueState::Paused, "paused")] {
        assert_eq!(
            serde_json::to_value(state.as_str()).expect("a word must serialize"),
            serde_json::Value::String(spelling.to_string())
        );
        assert_eq!(QueueState::from_stored(state.as_str()), state);
    }
}

#[test]
fn a_queue_that_has_never_hit_a_wall_is_not_paused() {
    assert_eq!(active_until(&None, at("2026-08-20T02:00:00Z")), None);
}

#[test]
fn a_pause_survives_being_read_back_through_the_row_it_wrote() {
    let until = at("2026-08-20T06:00:00Z");
    let row = note_usage_limit(&None, until);
    assert!(row.is_some());

    assert_eq!(active_until(&row, at("2026-08-20T02:00:00Z")), Some(until));
}

#[test]
fn a_second_limit_may_lengthen_a_pending_wait_but_never_shorten_it() {
    let now = at("2026-08-20T02:00:00Z");
    let first = note_usage_limit(&None, at("2026-08-20T06:00:00Z"));

    assert_eq!(
        note_usage_limit(&first, at("2026-08-20T05:00:00Z")),
        None,
        "an earlier reset leaves the row alone",
    );
    assert_eq!(active_until(&first, now), Some(at("2026-08-20T06:00:00Z")));

    let second = note_usage_limit(&first, at("2026-08-20T07:00:00Z"));
    assert_eq!(active_until(&second, now), Some(at("2026-08-20T07:00:00Z")));
}

#[test]
fn a_pause_whose_instant_has_passed_is_no_pause_at_all() {
    let row = note_usage_limit(&None, at("2026-08-20T06:00:00Z"));
    assert_eq!(active_until(&row, at("2026-08-20T06:00:01Z")), None);
    assert_eq!(active_until(&row, at("2026-08-20T06:00:00Z")), None);
}

#[test]
fn a_hand_edited_pause_is_read_as_no_pause_rather_than_failing_the_night() {
    for nonsense in ["soon", "", "1787224800"] {
        assert_eq!(
            active_until(&Some(nonsense.to_string()), at("2026-08-20T02:00:00Z")),
            None,
            "{nonsense:?}",
        );
    }
}

#[test]
fn clearing_lifts_the_hold() {
    let now = at("2026-08-20T02:00:00Z");
    let mut row = note_usage_limit(&None, at("2026-08-20T06:00:00Z"));
    assert_eq!(active_until(&row, now), Some(at("2026-08-20T06:00:00Z")), "the limit is recorded");

    row = Some(clear());

    assert_eq!(active_until(&row, now), None);
}

#[test]
fn an_instant_is_written_the_way_it_is_read() {
    assert_eq!(format_instant(at("2026-08-20T06:00:00Z")), "2026-08-20T06:00:00+00:00");
    assert_eq!(at("2026-08-20T06:00:00+02:00"), at("2026-08-20T04:00:00Z"));
}
