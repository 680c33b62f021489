//! Who owns a task.

use rimaia_core::db::{BoardColumn, MutationSource, Position, RunState, StrategyMode, Task};
use rimaia_core::error::Error;
use rimaia_core::instant::Instant;
use rimaia_core::scheduler::claim::{
    claim, claim_next, claim_retry, lost_the_race, release, ClaimOutcome, ClaimProgress, ClaimStage,
};
use rimaia_core::tasks::run_state::set_run_state;

#[test]
fn a_refused_transition_and_a_deleted_task_are_both_lost_races() {
    assert!(lost_the_race(&Error::invalid("not a legal transition".to_string())));
    assert!(lost_the_race(&Error::not_found("no task with id x".to_string())));
}

#[test]
fn a_store_failure_is_never_read_as_a_lost_race() {
    assert!(!lost_the_race(&Error::internal("the disk is full".to_string())));
    assert!(!lost_the_race(&Error::internal(sqlx::Error::RowNotFound.to_string())));
}

#[test]
fn a_fresh_start_makes_two_writes_and_a_retry_one() {
    let first = claim();
    assert_eq!(first.target(), RunState::Queued);
    assert_eq!(
        claim_next(first, Ok(())),
        Ok(ClaimProgress::Write(ClaimStage::Starting)),
    );
    assert_eq!(ClaimStage::Starting.target(), RunState::Running);
    assert_eq!(
        claim_next(ClaimStage::Starting, Ok(())),
        Ok(ClaimProgress::Decided(ClaimOutcome::Claimed)),
    );

    assert_eq!(claim_retry().target(), RunState::Running);
    assert_eq!(
        claim_next(claim_retry(), Ok(())),
        Ok(ClaimProgress::Decided(ClaimOutcome::Claimed)),
    );
}

#[test]
fn a_refused_write_loses_the_claim_and_a_failure_is_passed_on() {
    assert_eq!(
        claim_next(claim(), Err(Error::invalid("no".to_string()))),
        Ok(ClaimProgress::Decided(ClaimOutcome::Lost)),
    );
    let failure = Error::internal("the disk is full".to_string());
    assert_eq!(claim_next(claim(), Err(failure.clone())), Err(failure));
}

#[test]
fn only_a_task_that_is_still_running_is_given_up() {
    assert_eq!(release(Some(RunState::Running)), Some(RunState::Failed));
    assert_eq!(release(Some(RunState::Idle)), None);
    assert_eq!(release(None), None);
}

fn task(run_state: RunState) -> Task {
    let epoch = Instant { seconds: 1_787_227_200, nanos: 0 };
    Task {
        id: "t".to_string(),
        repository_id: "r".to_string(),
        title: "Wire the board".to_string(),
        plan: Some("plan".to_string()),
        extra_instructions: None,
        column: BoardColumn::Ready,
        position: Position { bits: 0 },
        run_state,
        branch: None,
        worktree_path: None,
        strategy_mode: StrategyMode::Default,
        model: None,
        effort: None,
        strategy_plan: None,
        strategy_source: None,
        strategy_updated_at: None,
        created_at: epoch,
        updated_at: epoch,
        source: MutationSource::Ui,
    }
}

/// One conditional write of a claimer, and where it leaves the row.
fn write(row: &mut RunState, claimer: ClaimProgress) -> ClaimProgress {
    let stage = match claimer {
        ClaimProgress::Write(stage) => stage,
        decided => return decided,
    };
    let now = Instant { seconds: 1_787_230_800, nanos: 0 };
    let answer = match set_run_state("t", Some(task(*row)), stage.target(), now) {
        Ok(change) => {
            *row = change.task.run_state;
            Ok(())
        }
        Err(error) => Err(error),
    };
    claim_next(stage, answer).expect("a refused write is a lost race")
}

#[test]
fn two_claimers_of_one_task_never_both_win() {
    let won = ClaimProgress::Decided(ClaimOutcome::Claimed);
    let rows = [
        RunState::Idle,
        RunState::Queued,
        RunState::Running,
        RunState::Blocked,
        RunState::WaitingRetry,
        RunState::Failed,
        RunState::Cancelled,
    ];
    for start in rows {
        for first in [claim(), claim_retry()] {
            for second in [claim(), claim_retry()] {
                for turns in 0u32..16 {
                    let mut row = start;
                    let mut one = ClaimProgress::Write(first);
                    let mut other = ClaimProgress::Write(second);
                    for turn in 0..4 {
                        if turns & (1 << turn) == 0 {
                            one = write(&mut row, one);
                        } else {
                            other = write(&mut row, other);
                        }
                    }
                    assert!(!(one == won && other == won), "{start:?} {turns}");
                    if one == won || other == won {
                        assert_eq!(row, RunState::Running);
                    }
                }
            }
        }
    }
}

#[test]
fn a_due_retry_takes_a_waiting_task_in_one_write() {
    let mut row = RunState::WaitingRetry;
    assert_eq!(
        write(&mut row, ClaimProgress::Write(claim_retry())),
        ClaimProgress::Decided(ClaimOutcome::Claimed),
    );
    assert_eq!(row, RunState::Running);

    let mut idle = RunState::Idle;
    assert_eq!(
        write(&mut idle, ClaimProgress::Write(claim_retry())),
        ClaimProgress::Decided(ClaimOutcome::Lost),
    );
    assert_eq!(idle, RunState::Idle);
}
