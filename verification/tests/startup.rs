//! What a crash left behind, found and repaired.

use rimaia_core::db::{ExitClass, RunState, RunStatus};
use rimaia_core::error::Error;
use rimaia_core::instant::{parse_instant, Instant};
use rimaia_core::scheduler::attempts::AttemptRow;
use rimaia_core::scheduler::reconcile::{
    has_scheduled_resume, interrupted, interrupted_after, reconcile_interrupted, settle,
};
use rimaia_core::startup::{survey, PathCheck, SurveyedRun, SurveyedTask};

fn task(id: &str, run_state: RunState, worktree: Option<PathCheck>) -> SurveyedTask {
    SurveyedTask { id: id.to_string(), run_state, worktree }
}

fn now() -> Instant {
    parse_instant("2026-08-20T02:00:00Z").expect("a literal timestamp")
}

#[test]
fn a_task_left_running_is_reported() {
    let report = survey(&vec![task("t", RunState::Running, None)], &Vec::new());

    assert_eq!(report.tasks_left_running, vec!["t"]);
    assert!(report.missing_worktrees.is_empty());
    assert!(report.missing_run_logs.is_empty());
}

#[test]
fn a_deleted_worktree_directory_is_reported() {
    let report =
        survey(&vec![task("t", RunState::Idle, Some(PathCheck::Absent))], &Vec::new());

    assert_eq!(report.missing_worktrees, vec!["t"]);
    assert!(report.tasks_left_running.is_empty());
    assert!(report.missing_run_logs.is_empty());
}

#[test]
fn a_worktree_that_still_exists_is_not_reported() {
    let report = survey(
        &vec![
            task("seen", RunState::Idle, Some(PathCheck::Present)),
            task("unseen", RunState::Idle, Some(PathCheck::Unreadable)),
        ],
        &Vec::new(),
    );

    assert!(report.missing_worktrees.is_empty());
}

#[test]
fn a_run_with_a_missing_transcript_is_reported() {
    let report = survey(
        &Vec::new(),
        &vec![
            SurveyedRun { id: "gone".to_string(), log: PathCheck::Absent },
            SurveyedRun { id: "there".to_string(), log: PathCheck::Present },
        ],
    );

    assert_eq!(report.missing_run_logs, vec!["gone"]);
    assert!(report.tasks_left_running.is_empty());
    assert!(report.missing_worktrees.is_empty());
}

#[test]
fn a_clean_database_surveys_to_an_empty_report() {
    assert!(survey(&Vec::new(), &Vec::new()).is_empty());
    assert!(!survey(&vec![task("t", RunState::Running, None)], &Vec::new()).is_empty());
}

#[test]
fn an_interrupted_run_makes_nothing_up() {
    let outcome = interrupted();
    assert_eq!(outcome.exit_class, ExitClass::Interrupted);
    assert_eq!(outcome.status, RunStatus::Interrupted);
    assert_eq!(
        outcome.error_message.as_deref(),
        Some("Rimaia stopped while this run was in flight; the run did not survive it"),
    );
    assert_eq!(outcome.num_turns, None);
    assert_eq!(outcome.cost, None);
    assert_eq!(outcome.usage.input_tokens, None);
    assert_eq!(outcome.resume_after, None);
}

fn rows(interruptions: usize) -> Vec<AttemptRow> {
    let row = |exit_class: Option<ExitClass>| AttemptRow {
        session_id: "s".to_string(),
        exit_class,
    };
    let mut rows = vec![row(None)];
    for _ in 0..interruptions {
        rows.push(row(Some(ExitClass::Interrupted)));
    }
    rows
}

#[test]
fn a_crash_is_offered_for_resume_while_the_budget_lasts() {
    assert_eq!(interrupted_after(Ok(rows(0)), now(), "run").resume_after, Some(now()));
    assert_eq!(
        interrupted_after(Ok(rows(1)), now(), "run").resume_after,
        Some(now().plus_seconds(60)),
    );
    assert_eq!(interrupted_after(Ok(rows(5)), now(), "run").resume_after, None);
}

#[test]
fn a_history_that_is_empty_or_unreadable_offers_nothing() {
    assert_eq!(interrupted_after(Ok(Vec::new()), now(), "run").resume_after, None);
    let failed = Err(Error::internal("locked".to_string()));
    assert_eq!(interrupted_after(failed, now(), "run").resume_after, None);
}

#[test]
fn settling_walks_a_task_off_whatever_a_crash_caught_it_in() {
    assert_eq!(settle(Some(RunState::Running), false), Some(RunState::Failed));
    assert_eq!(settle(Some(RunState::WaitingRetry), false), Some(RunState::Failed));
    assert_eq!(settle(Some(RunState::WaitingRetry), true), None);
    assert_eq!(settle(Some(RunState::Queued), false), Some(RunState::Cancelled));
    assert_eq!(settle(Some(RunState::Idle), false), None);
    assert_eq!(settle(None, false), None);
}

#[test]
fn only_the_newest_attempts_deadline_counts() {
    assert!(has_scheduled_resume(Some(Some(now()))));
    assert!(!has_scheduled_resume(Some(None)));
    assert!(!has_scheduled_resume(None));
}

#[test]
fn one_bad_row_does_not_stop_the_rest() {
    let tasks = vec!["a".to_string(), "b".to_string(), "c".to_string()];
    assert_eq!(reconcile_interrupted(&tasks, &vec![true, false, true]), vec!["a", "c"]);
}
