//! What a session has spent.

use rimaia_core::db::ExitClass;
use rimaia_core::instant::parse_instant;
use rimaia_core::scheduler::attempts::{fold, resumable_session, AttemptRow, Ending};

const SESSION: &str = "0b6d3e2e-0000-4000-8000-00000000c0de";
const OTHER_SESSION: &str = "0b6d3e2e-0000-4000-8000-00000000feed";

fn row(session_id: &str, exit_class: Option<ExitClass>) -> AttemptRow {
    AttemptRow { session_id: session_id.to_string(), exit_class }
}

fn ending(exit_class: ExitClass) -> Ending {
    Ending { exit_class, usage_limit_resets_at: None }
}

#[test]
fn a_task_that_has_never_run_has_no_history_to_read() {
    assert_eq!(fold(&Vec::new(), ending(ExitClass::Transient)), None);
}

#[test]
fn the_attempt_count_comes_from_the_session_and_not_from_the_task() {
    let rows = vec![
        row(SESSION, None),
        row(SESSION, Some(ExitClass::Transient)),
        row(OTHER_SESSION, Some(ExitClass::Transient)),
        row(OTHER_SESSION, Some(ExitClass::Transient)),
        row(OTHER_SESSION, Some(ExitClass::Transient)),
    ];

    let history = fold(&rows, ending(ExitClass::Transient)).expect("a task with runs");

    assert_eq!(history.session_id, SESSION);
    assert_eq!(history.attempts_in_session, 2);
    assert_eq!(
        history.transient_attempts, 2,
        "the previous session's three failures are history, not budget",
    );
}

#[test]
fn the_ending_attempt_is_counted_from_the_outcome_rather_than_from_its_own_row() {
    let history = fold(&vec![row(SESSION, None)], ending(ExitClass::Transient))
        .expect("a task with one run");

    assert_eq!(history.exit_class, ExitClass::Transient);
    assert_eq!(history.transient_attempts, 1);
    assert_eq!(history.attempts_in_session, 1);
}

#[test]
fn each_class_is_counted_against_its_own_budget_and_nothing_else_is() {
    let rows = vec![
        row(SESSION, None),
        row(SESSION, Some(ExitClass::UsageLimit)),
        row(SESSION, Some(ExitClass::Interrupted)),
        row(SESSION, Some(ExitClass::Transient)),
        row(SESSION, Some(ExitClass::UsageLimit)),
    ];

    let history = fold(&rows, ending(ExitClass::Interrupted)).expect("a task with runs");

    assert_eq!(history.attempts_in_session, 5);
    assert_eq!(history.transient_attempts, 1);
    assert_eq!(history.interrupted_attempts, 2);
}

#[test]
fn a_reported_reset_time_rides_in_on_the_ending_rather_than_off_a_column() {
    let reset = parse_instant("2026-08-20T06:00:00Z").expect("a literal timestamp");
    let history = fold(
        &vec![row(SESSION, None)],
        Ending { exit_class: ExitClass::UsageLimit, usage_limit_resets_at: Some(reset) },
    )
    .expect("a task with one run");

    assert_eq!(history.usage_limit_resets_at, Some(reset));
}

#[test]
fn the_session_to_resume_is_the_newest_attempts() {
    assert_eq!(resumable_session(&Vec::new()), None);
    assert_eq!(
        resumable_session(&vec![row(SESSION, None), row(OTHER_SESSION, Some(ExitClass::Fatal))]),
        Some(SESSION.to_string()),
    );
}
