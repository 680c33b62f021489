//! Who owns a task, decided by conditional writes of its state.
//!
//! A fresh start walks `Queued` and then `Running`, one conditional write each;
//! a due retry takes `Running` in one. Whoever makes the write into `Running`
//! owns the process. A refused write is a lost race and no error.

use vstd::prelude::*;

use crate::db::RunState;
use crate::error::{Error, ErrorCode};
use crate::tasks::run_state;

verus! {

/// What trying to claim a task came to.
#[derive(Debug, Clone, Copy, PartialEq, Eq, Hash, Structural)]
pub enum ClaimOutcome {
    /// This caller owns the task. Start a process.
    Claimed,
    /// Somebody else got there first, or the task is gone. Start nothing.
    Lost,
}

/// The write a claim makes next.
#[derive(Debug, Clone, Copy, PartialEq, Eq, Hash, Structural)]
pub enum ClaimStage {
    /// The first write of a fresh start.
    Queueing,
    /// The second write of a fresh start.
    Starting,
    /// The one write of a due retry.
    Resuming,
}

/// Where a claim stands after a write was answered.
#[derive(Debug, Clone, Copy, PartialEq, Eq, Hash, Structural)]
pub enum ClaimProgress {
    /// Make this write next.
    Write(ClaimStage),
    /// The claim is decided.
    Decided(ClaimOutcome),
}

impl ClaimStage {
    /// The state this stage asks for.
    pub open spec fn wanted(self) -> RunState {
        match self {
            ClaimStage::Queueing => RunState::Queued,
            ClaimStage::Starting => RunState::Running,
            ClaimStage::Resuming => RunState::Running,
        }
    }

    /// The state this stage asks for.
    pub fn target(self) -> (r: RunState)
        ensures
            r == self.wanted(),
    {
        match self {
            ClaimStage::Queueing => RunState::Queued,
            ClaimStage::Starting => RunState::Running,
            ClaimStage::Resuming => RunState::Running,
        }
    }
}

/// The error means that somebody else has the task, not that the store broke.
pub open spec fn lost(error: Error) -> bool {
    error.code == ErrorCode::Invalid || error.code == ErrorCode::NotFound
}

/// Whether an error means that somebody else has the task.
pub fn lost_the_race(error: &Error) -> (r: bool)
    ensures
        r == lost(*error),
{
    match error.code {
        ErrorCode::Invalid => true,
        ErrorCode::NotFound => true,
        ErrorCode::Internal => false,
    }
}

/// How a fresh start of a task begins.
pub fn claim() -> (r: ClaimStage)
    ensures
        r == ClaimStage::Queueing,
{
    ClaimStage::Queueing
}

/// How a due retry of a task begins.
pub fn claim_retry() -> (r: ClaimStage)
    ensures
        r == ClaimStage::Resuming,
{
    ClaimStage::Resuming
}

/// Where a claim stands once the write of `stage` was answered. A failure that
/// is no lost race is passed on.
pub fn claim_next(stage: ClaimStage, answer: Result<(), Error>) -> (r: Result<ClaimProgress, Error>)
    ensures
        match answer {
            Ok(_) => r == Ok::<ClaimProgress, Error>(
                if stage == ClaimStage::Queueing {
                    ClaimProgress::Write(ClaimStage::Starting)
                } else {
                    ClaimProgress::Decided(ClaimOutcome::Claimed)
                },
            ),
            Err(e) => if lost(e) {
                r == Ok::<ClaimProgress, Error>(ClaimProgress::Decided(ClaimOutcome::Lost))
            } else {
                r == Err::<ClaimProgress, Error>(e)
            },
        },
{
    match answer {
        Ok(_) => match stage {
            ClaimStage::Queueing => Ok(ClaimProgress::Write(ClaimStage::Starting)),
            ClaimStage::Starting => Ok(ClaimProgress::Decided(ClaimOutcome::Claimed)),
            ClaimStage::Resuming => Ok(ClaimProgress::Decided(ClaimOutcome::Claimed)),
        },
        Err(e) => if lost_the_race(&e) {
            Ok(ClaimProgress::Decided(ClaimOutcome::Lost))
        } else {
            Err(e)
        },
    }
}

/// The state to move a claimed task to when its run never came to be, going by
/// what its row holds now: only a task that is still running has anything to
/// give up.
pub fn release(current: Option<RunState>) -> (r: Option<RunState>)
    ensures
        r == (if current == Some(RunState::Running) {
            Some(RunState::Failed)
        } else {
            None
        }),
{
    match current {
        Some(RunState::Running) => Some(RunState::Failed),
        _ => None,
    }
}

/// Where one claimer of a row stands, as a state of the row and the claimers
/// steps through.
pub open spec fn after_write(row: RunState, claimer: ClaimProgress) -> (RunState, ClaimProgress) {
    match claimer {
        ClaimProgress::Write(stage) => if run_state::legal(row, stage.wanted()) {
            (
                stage.wanted(),
                if stage == ClaimStage::Queueing {
                    ClaimProgress::Write(ClaimStage::Starting)
                } else {
                    ClaimProgress::Decided(ClaimOutcome::Claimed)
                },
            )
        } else {
            (row, ClaimProgress::Decided(ClaimOutcome::Lost))
        },
        decided => (row, decided),
    }
}

/// Two claimers of one row after the writes that `turns` orders: the first
/// claimer's turn where it says `true`, the second's where it says `false`.
pub open spec fn contend(
    row: RunState,
    first: ClaimProgress,
    second: ClaimProgress,
    turns: Seq<bool>,
) -> (RunState, ClaimProgress, ClaimProgress)
    decreases turns.len(),
{
    if turns.len() == 0 {
        (row, first, second)
    } else {
        let rest = turns.subrange(1, turns.len() as int);
        if turns[0] {
            let (moved, next) = after_write(row, first);
            contend(moved, next, second, rest)
        } else {
            let (moved, next) = after_write(row, second);
            contend(moved, first, next, rest)
        }
    }
}

spec fn won(claimer: ClaimProgress) -> bool {
    claimer == ClaimProgress::Decided(ClaimOutcome::Claimed)
}

/// What holds of two claimers in every interleaving: at most one of them has
/// won, and once one has, the row is where it left it.
spec fn exclusive(row: RunState, first: ClaimProgress, second: ClaimProgress) -> bool {
    &&& !(won(first) && won(second))
    &&& (won(first) || won(second)) ==> row == RunState::Running
}

proof fn lemma_contend_exclusive(
    row: RunState,
    first: ClaimProgress,
    second: ClaimProgress,
    turns: Seq<bool>,
)
    requires
        exclusive(row, first, second),
    ensures
        ({
            let (moved, a, b) = contend(row, first, second, turns);
            exclusive(moved, a, b)
        }),
    decreases turns.len(),
{
    if turns.len() > 0 {
        let rest = turns.subrange(1, turns.len() as int);
        if turns[0] {
            let (moved, next) = after_write(row, first);
            lemma_contend_exclusive(moved, next, second, rest);
        } else {
            let (moved, next) = after_write(row, second);
            lemma_contend_exclusive(moved, first, next, rest);
        }
    }
}

/// However the writes of two claimers of one task interleave, and whichever way
/// each of them claims it, they never both own it; and whoever owns it finds the
/// task running.
pub proof fn law_two_claimers_never_both_win(
    row: RunState,
    first: ClaimStage,
    second: ClaimStage,
    turns: Seq<bool>,
)
    ensures
        ({
            let claimed = ClaimProgress::Decided(ClaimOutcome::Claimed);
            let (moved, one, other) = contend(
                row,
                ClaimProgress::Write(first),
                ClaimProgress::Write(second),
                turns,
            );
            &&& !(one == claimed && other == claimed)
            &&& one == claimed || other == claimed ==> moved == RunState::Running
        }),
{
    lemma_contend_exclusive(
        row,
        ClaimProgress::Write(first),
        ClaimProgress::Write(second),
        turns,
    );
}

/// A due retry takes exactly the tasks that wait for one or are queued, in one
/// write, and loses every other without touching it.
pub proof fn law_a_lone_retry_takes_what_may_run(row: RunState)
    ensures
        ({
            let (moved, end) = after_write(row, ClaimProgress::Write(ClaimStage::Resuming));
            if row == RunState::WaitingRetry || row == RunState::Queued {
                end == ClaimProgress::Decided(ClaimOutcome::Claimed) && moved == RunState::Running
            } else {
                end == ClaimProgress::Decided(ClaimOutcome::Lost) && moved == row
            }
        }),
{
}

/// A claim on its own takes exactly the tasks that may enter the queue, and
/// loses every other without touching it.
pub proof fn law_a_lone_claim_takes_what_may_be_queued(row: RunState)
    ensures
        ({
            let (queued, halfway) = after_write(row, ClaimProgress::Write(ClaimStage::Queueing));
            let (moved, end) = after_write(queued, halfway);
            if run_state::legal(row, RunState::Queued) {
                end == ClaimProgress::Decided(ClaimOutcome::Claimed) && moved == RunState::Running
            } else {
                end == ClaimProgress::Decided(ClaimOutcome::Lost) && moved == row
            }
        }),
        run_state::legal(row, RunState::Queued) <==> row == RunState::Idle || row
            == RunState::Failed || row == RunState::Cancelled || row == RunState::Blocked,
{
}

/// A claim is won by its last write and by nothing before it: a fresh start asks
/// for the queue and then for the run, a retry for the run at once, and whoever
/// gets the run has the task. A refusal loses it, whichever write was refused;
/// a store that broke decides nothing.
pub proof fn law_a_claim_is_won_by_its_last_write(
    stage: ClaimStage,
    answer: Result<(), Error>,
    target: RunState,
    r: Result<ClaimProgress, Error>,
)
    requires
        call_ensures(claim_next, (stage, answer), r),
        call_ensures(ClaimStage::target, (stage,), target),
    ensures
        answer is Ok && target == RunState::Running <==> r == Ok::<ClaimProgress, Error>(
            ClaimProgress::Decided(ClaimOutcome::Claimed),
        ),
        answer is Ok && target == RunState::Queued <==> r == Ok::<ClaimProgress, Error>(
            ClaimProgress::Write(ClaimStage::Starting),
        ),
        stage == ClaimStage::Queueing <==> target == RunState::Queued,
        stage == ClaimStage::Starting || stage == ClaimStage::Resuming <==> target
            == RunState::Running,
        answer matches Err(e) ==> (if e.code == ErrorCode::Internal {
            r == Err::<ClaimProgress, Error>(e)
        } else {
            r == Ok::<ClaimProgress, Error>(ClaimProgress::Decided(ClaimOutcome::Lost))
        }),
{
}

/// A fresh start begins with the queue, and a due retry with the run; a claim
/// whose run never came to be fails its task, and only where it still runs.
pub proof fn law_how_a_claim_begins_and_is_given_back(
    fresh: ClaimStage,
    retry: ClaimStage,
    current: Option<RunState>,
    r: Option<RunState>,
)
    requires
        call_ensures(claim, (), fresh),
        call_ensures(claim_retry, (), retry),
        call_ensures(release, (current,), r),
    ensures
        fresh == ClaimStage::Queueing,
        retry == ClaimStage::Resuming,
        r == Some(RunState::Failed) <==> current == Some(RunState::Running),
        r is None <==> current != Some(RunState::Running),
{
}

} // verus!
