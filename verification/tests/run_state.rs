//! Which moves a task's run state may make.

use rimaia_core::db::{BoardColumn, MutationSource, Position, RunState, StrategyMode, Task};
use rimaia_core::error::ErrorCode;
use rimaia_core::instant::Instant;
use rimaia_core::tasks::run_state::{is_legal_run_state_transition, set_run_state, wire_spelling};

const LEGAL: &[(RunState, RunState)] = &[
    (RunState::Idle, RunState::Queued),
    (RunState::Queued, RunState::Running),
    (RunState::Queued, RunState::Blocked),
    (RunState::Blocked, RunState::Queued),
    (RunState::Running, RunState::Idle),
    (RunState::Running, RunState::WaitingRetry),
    (RunState::Running, RunState::Failed),
    (RunState::WaitingRetry, RunState::Running),
    (RunState::WaitingRetry, RunState::Failed),
    (RunState::WaitingRetry, RunState::Cancelled),
    (RunState::Queued, RunState::Cancelled),
    (RunState::Blocked, RunState::Cancelled),
    (RunState::Failed, RunState::Queued),
    (RunState::Cancelled, RunState::Queued),
];

const ALL_STATES: [RunState; 7] = [
    RunState::Idle,
    RunState::Queued,
    RunState::Running,
    RunState::Blocked,
    RunState::WaitingRetry,
    RunState::Failed,
    RunState::Cancelled,
];

#[test]
fn every_pair_agrees_with_the_documented_legal_set() {
    for from in ALL_STATES {
        for to in ALL_STATES {
            let expected = LEGAL.contains(&(from, to));
            assert_eq!(
                is_legal_run_state_transition(from, to),
                expected,
                "{from:?} -> {to:?} should be {}",
                if expected { "legal" } else { "illegal" }
            );
        }
    }
}

#[test]
fn idle_to_running_skips_queued_and_is_illegal() {
    assert!(!is_legal_run_state_transition(
        RunState::Idle,
        RunState::Running
    ));
}

#[test]
fn every_state_naming_itself_is_illegal() {
    for state in ALL_STATES {
        assert!(
            !is_legal_run_state_transition(state, state),
            "{state:?} -> {state:?} must not be a transition a caller can no-op through"
        );
    }
}

#[test]
fn cancelling_a_running_task_lands_on_failed_not_cancelled() {
    assert!(is_legal_run_state_transition(
        RunState::Running,
        RunState::Failed
    ));
    assert!(!is_legal_run_state_transition(
        RunState::Running,
        RunState::Cancelled
    ));
}

fn task(run_state: RunState) -> Task {
    let epoch = Instant { seconds: 1_787_227_200, nanos: 0 };
    Task {
        id: "t".to_string(),
        repository_id: "r".to_string(),
        title: "Wire the board".to_string(),
        plan: Some("plan".to_string()),
        extra_instructions: None,
        column: BoardColumn::Ready,
        position: Position { bits: 0 },
        run_state,
        branch: None,
        worktree_path: None,
        strategy_mode: StrategyMode::Default,
        model: None,
        effort: None,
        strategy_plan: None,
        strategy_source: None,
        strategy_updated_at: None,
        created_at: epoch,
        updated_at: epoch,
        source: MutationSource::Ui,
    }
}

#[test]
fn a_legal_move_stamps_the_row_and_leaves_the_rest_of_it_alone() {
    let now = Instant { seconds: 1_787_230_800, nanos: 5 };
    let change = set_run_state("t", Some(task(RunState::Idle)), RunState::Queued, now)
        .expect("a legal move");
    assert_eq!(
        change.task,
        Task { run_state: RunState::Queued, updated_at: now, ..task(RunState::Idle) },
    );
    assert_eq!(change.changed, vec!["t".to_string()]);
}

#[test]
fn an_illegal_move_and_a_missing_task_are_refused_differently() {
    let now = Instant { seconds: 1_787_230_800, nanos: 0 };
    let refused = set_run_state("t", Some(task(RunState::Idle)), RunState::Running, now)
        .expect_err("queued is not to be skipped");
    assert_eq!(refused.code(), ErrorCode::Invalid);
    assert_eq!(
        refused.message,
        "cannot move task t from run state \"idle\" to \"running\": not a legal transition",
    );
    assert_eq!(wire_spelling(RunState::WaitingRetry), "waiting_retry");

    let missing = set_run_state("t", None, RunState::Queued, now).expect_err("no such task");
    assert_eq!(missing.code(), ErrorCode::NotFound);
    assert_eq!(missing.message, "no task with id t");
}
