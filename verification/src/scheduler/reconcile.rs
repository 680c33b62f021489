//! What a crash left behind, repaired.
//!
//! A run that died with the app is recorded as interrupted, and offered for
//! resume while its budget allows one. Nothing is started by it.

use vstd::prelude::*;
use vstd::string::*;

use crate::db::{ExitClass, RunState, RunStatus};
use crate::error::Error;
use crate::instant::Instant;
use crate::runner::events::TokenUsage;
use crate::runner::outcome::{RunOutcome, SpawnedAs};
use crate::scheduler::attempts;
use crate::scheduler::attempts::{fold, AttemptRow, Ending};
use crate::scheduler::retry;
use crate::scheduler::retry::decide;
use crate::tasks::run_state;

verus! {

/// How an attempt that a crash caught ends.
pub open spec fn crash() -> Ending {
    Ending { exit_class: ExitClass::Interrupted, usage_limit_resets_at: None }
}

/// Everything but the deadline of the outcome of a run that died with the app:
/// nothing is made up about what nobody measured.
pub open spec fn died(outcome: RunOutcome) -> bool {
    &&& outcome.exit_class == ExitClass::Interrupted
    &&& outcome.status == RunStatus::Interrupted
    &&& (outcome.error_message matches Some(message) && message@
        == "Rimaia stopped while this run was in flight; the run did not survive it"@)
    &&& outcome.num_turns is None
    &&& outcome.cost is None
    &&& outcome.duration_ms is None
    &&& outcome.pr_url is None
    &&& outcome.usage_limit_resets_at is None
    &&& outcome.spawned_as == (SpawnedAs { model: None, effort: None, run_environment: None })
    &&& outcome.usage == (TokenUsage {
        input_tokens: None,
        output_tokens: None,
        cache_read_tokens: None,
        cache_creation_tokens: None,
    })
}

/// What the row of a run that died with the app says happened to it.
pub fn interrupted() -> (r: RunOutcome)
    ensures
        died(r),
        r.resume_after is None,
{
    RunOutcome {
        exit_class: ExitClass::Interrupted,
        status: RunStatus::Interrupted,
        error_message: Some(
            "Rimaia stopped while this run was in flight; the run did not survive it".to_owned(),
        ),
        num_turns: None,
        cost: None,
        duration_ms: None,
        pr_url: None,
        usage_limit_resets_at: None,
        resume_after: None,
        spawned_as: SpawnedAs { model: None, effort: None, run_environment: None },
        usage: TokenUsage {
            input_tokens: None,
            output_tokens: None,
            cache_read_tokens: None,
            cache_creation_tokens: None,
        },
    }
}

/// When a run that a crash caught is offered for resume, given the attempts of
/// its task, newest first.
pub open spec fn offered(rows: Seq<AttemptRow>, now: Instant, run_id: Seq<char>) -> Option<Instant> {
    if rows.len() == 0 {
        None
    } else {
        retry::decision(attempts::folded(rows, crash()), now, run_id).deadline()
    }
}

/// The same, with the decision whether this crash is worth resuming from. An
/// attempt history that could not be read offers nothing.
pub fn interrupted_after(rows: Result<Vec<AttemptRow>, Error>, now: Instant, run_id: &str) -> (r:
    RunOutcome)
    requires
        rows matches Ok(found) ==> found@.len() <= u32::MAX && (found@.len() > 0
            ==> retry::decidable(attempts::folded(found@, crash()), now, run_id@)),
    ensures
        died(r),
        r.resume_after == (match rows {
            Ok(found) => offered(found@, now, run_id@),
            Err(_) => None,
        }),
{
    let mut outcome = interrupted();
    let ending = Ending { exit_class: outcome.exit_class, usage_limit_resets_at: None };
    if let Ok(found) = rows {
        if let Some(history) = fold(&found, ending) {
            outcome.resume_after = decide(&history, now, run_id).resume_after();
        }
    }
    outcome
}

/// Whether the newest attempt carries a deadline. `newest` is its deadline, or
/// nothing for a task without attempts.
pub fn has_scheduled_resume(newest: Option<Option<Instant>>) -> (r: bool)
    ensures
        r == (newest matches Some(deadline) && deadline is Some),
{
    match newest {
        Some(deadline) => deadline.is_some(),
        None => false,
    }
}

/// The state a task is moved to once its runs are closed, going by what its row
/// holds.
pub open spec fn settled(state: Option<RunState>, scheduled: bool) -> Option<RunState> {
    match state {
        Some(RunState::Running) => Some(RunState::Failed),
        Some(RunState::WaitingRetry) => if scheduled {
            None
        } else {
            Some(RunState::Failed)
        },
        Some(RunState::Queued) => Some(RunState::Cancelled),
        _ => None,
    }
}

/// The state to move a task to off whatever a crash caught it in, or nothing
/// for a task to leave alone.
pub fn settle(state: Option<RunState>, scheduled: bool) -> (r: Option<RunState>)
    ensures
        r == settled(state, scheduled),
{
    match state {
        Some(RunState::Running) => Some(RunState::Failed),
        Some(RunState::WaitingRetry) => if scheduled {
            None
        } else {
            Some(RunState::Failed)
        },
        Some(RunState::Queued) => Some(RunState::Cancelled),
        _ => None,
    }
}

/// The tasks whose repair landed, in order.
pub open spec fn landed(tasks: Seq<String>, repaired: Seq<bool>) -> Seq<String>
    decreases tasks.len(),
{
    if tasks.len() == 0 {
        seq![]
    } else if repaired[tasks.len() - 1] {
        landed(tasks.drop_last(), repaired).push(tasks.last())
    } else {
        landed(tasks.drop_last(), repaired)
    }
}

/// The tasks that were repaired, in the order they were reported in. One that
/// could not be repaired does not stop the rest.
pub fn reconcile_interrupted(tasks: &Vec<String>, repaired: &Vec<bool>) -> (r: Vec<String>)
    requires
        repaired@.len() == tasks@.len(),
    ensures
        r@ == landed(tasks@, repaired@),
{
    let mut out: Vec<String> = Vec::new();
    let n: usize = tasks.len();
    let mut i: usize = 0;
    assert(tasks@.take(0).len() == 0);
    while i < n
        invariant
            i <= n,
            n == tasks@.len(),
            repaired@.len() == n,
            out@ == landed(tasks@.take(i as int), repaired@),
        decreases n - i,
    {
        proof {
            assert(tasks@.take(i + 1).drop_last() =~= tasks@.take(i as int));
            assert(tasks@.take(i + 1).last() == tasks@[i as int]);
        }
        if repaired[i] {
            out.push(tasks[i].clone());
        }
        i += 1;
    }
    assert(tasks@.take(n as int) =~= tasks@);
    out
}

/// Settling makes only moves the machine allows, and leaves no task running or
/// queued; a task that waits is left waiting only where its resume is
/// scheduled.
pub proof fn law_settling_leaves_nothing_stuck(state: RunState, scheduled: bool)
    ensures
        settled(Some(state), scheduled) matches Some(to) ==> run_state::legal(state, to),
        ({
            let after = match settled(Some(state), scheduled) {
                Some(to) => to,
                None => state,
            };
            &&& after != RunState::Running && after != RunState::Queued
            &&& after == RunState::WaitingRetry ==> scheduled
        }),
{
}

/// Settling a settled task changes nothing.
pub proof fn law_settling_settles(state: RunState, scheduled: bool)
    ensures
        settled(Some(state), scheduled) matches Some(to) ==> settled(Some(to), scheduled) is None,
{
}

/// The first crash of a session is offered for resume at once.
pub proof fn law_a_first_crash_is_offered_at_once(
    rows: Seq<AttemptRow>,
    now: Instant,
    run_id: Seq<char>,
)
    requires
        rows.len() > 0,
        attempts::ended_as(attempts::budget(rows), ExitClass::Interrupted) == 0,
    ensures
        offered(rows, now, run_id) == Some(now),
{
}

/// What a crash caught is moved off where nothing would ever move it again: a
/// run fails, a wait that nobody scheduled fails, what was queued is called off.
/// Every other task is left alone, and so is one that is gone.
pub proof fn law_what_a_crash_caught_is_moved_off(
    state: Option<RunState>,
    scheduled: bool,
    r: Option<RunState>,
)
    requires
        call_ensures(settle, (state, scheduled), r),
    ensures
        r == Some(RunState::Failed) <==> state == Some(RunState::Running) || (state == Some(
            RunState::WaitingRetry,
        ) && !scheduled),
        r == Some(RunState::Cancelled) <==> state == Some(RunState::Queued),
        r matches Some(to) ==> to == RunState::Failed || to == RunState::Cancelled,
{
}

/// A run that died with the app says that it was interrupted and nothing that
/// nobody measured. It is offered for resume at once where it is the first of
/// its session that was, after a growing wait while the budget lasts, and no
/// more once five attempts have been spent; a history that cannot be read, or
/// that is not there, offers nothing.
pub proof fn law_a_crash_is_offered_while_the_budget_lasts(
    rows: Vec<AttemptRow>,
    now: Instant,
    run_id: &str,
    r: RunOutcome,
    n: int,
    interrupted: int,
    transient: int,
)
    requires
        call_ensures(interrupted_after, (Ok::<Vec<AttemptRow>, Error>(rows), now, run_id), r),
        1 <= n <= rows@.len() <= u32::MAX,
        forall|i: int| 0 <= i < n ==> (#[trigger] rows@[i]).session_id@ == rows@[0].session_id@,
        n < rows@.len() ==> rows@[n].session_id@ != rows@[0].session_id@,
        interrupted == rows@.subrange(1, n).filter(
            |row: AttemptRow| row.exit_class == Some(ExitClass::Interrupted),
        ).len(),
        transient == rows@.subrange(1, n).filter(
            |row: AttemptRow| row.exit_class == Some(ExitClass::Transient),
        ).len(),
    ensures
        r.exit_class == ExitClass::Interrupted && r.status == RunStatus::Interrupted,
        r.num_turns is None && r.cost is None && r.duration_ms is None && r.pr_url is None
            && r.usage_limit_resets_at is None,
        interrupted == 0 ==> r.resume_after == Some(now),
        interrupted > 0 && interrupted + transient == 1 ==> r.resume_after == Some(now.after(60)),
        interrupted > 0 && interrupted + transient == 2 ==> r.resume_after == Some(now.after(300)),
        interrupted > 0 && 3 <= interrupted + transient <= 4 ==> r.resume_after == Some(
            now.after(900),
        ),
        interrupted > 0 && interrupted + transient >= 5 ==> r.resume_after is None,
{
    attempts::lemma_budget(rows@, n);
    let older = rows@.subrange(1, n);
    attempts::lemma_ended_as(
        older,
        ExitClass::Interrupted,
        |row: AttemptRow| row.exit_class == Some(ExitClass::Interrupted),
    );
    attempts::lemma_ended_as(
        older,
        ExitClass::Transient,
        |row: AttemptRow| row.exit_class == Some(ExitClass::Transient),
    );
    older.lemma_filter_len(|row: AttemptRow| row.exit_class == Some(ExitClass::Interrupted));
    older.lemma_filter_len(|row: AttemptRow| row.exit_class == Some(ExitClass::Transient));
}

/// A history that cannot be read offers nothing, and neither does an empty one.
pub proof fn law_no_history_offers_nothing(
    rows: Result<Vec<AttemptRow>, Error>,
    now: Instant,
    run_id: &str,
    r: RunOutcome,
)
    requires
        call_ensures(interrupted_after, (rows, now, run_id), r),
        rows matches Ok(found) ==> found@.len() == 0,
    ensures
        r.resume_after is None,
{
}

proof fn lemma_landed(
    tasks: Seq<String>,
    repaired: Seq<bool>,
    places: Seq<int>,
    done: spec_fn(int) -> bool,
)
    requires
        tasks.len() <= repaired.len(),
        places.len() == tasks.len(),
        forall|i: int| 0 <= i < places.len() ==> #[trigger] places[i] == i,
        forall|i: int| #[trigger] done(i) <==> repaired[i],
    ensures
        landed(tasks, repaired) == places.filter(done).map_values(|i: int| tasks[i]),
        forall|k: int|
            0 <= k < places.filter(done).len() ==> 0 <= #[trigger] places.filter(done)[k]
                < tasks.len(),
    decreases tasks.len(),
{
    reveal(Seq::filter);
    if tasks.len() > 0 {
        let fewer = tasks.drop_last();
        let before = places.drop_last();
        lemma_landed(fewer, repaired, before, done);
        assert(before.filter(done).map_values(|i: int| fewer[i]) =~= before.filter(
            done,
        ).map_values(|i: int| tasks[i]));
        if done(places.last()) {
            assert(places.filter(done).map_values(|i: int| tasks[i]) =~= before.filter(
                done,
            ).map_values(|i: int| tasks[i]).push(tasks.last()));
        }
    }
    assert(landed(tasks, repaired) =~= places.filter(done).map_values(|i: int| tasks[i]));
}

/// Every task whose repair landed is reported, once and in order, whatever came
/// of the others.
pub proof fn law_every_repair_that_landed_is_reported(
    tasks: Vec<String>,
    repaired: Vec<bool>,
    r: Vec<String>,
)
    requires
        call_ensures(reconcile_interrupted, (&tasks, &repaired), r),
        tasks@.len() == repaired@.len(),
    ensures
        r@ == Seq::new(tasks@.len(), |i: int| i).filter(|i: int| repaired@[i]).map_values(
            |i: int| tasks@[i],
        ),
{
    let places = Seq::new(tasks@.len(), |i: int| i);
    lemma_landed(tasks@, repaired@, places, |i: int| repaired@[i]);
    assert(places.filter(|i: int| repaired@[i]).map_values(|i: int| tasks@[i]) =~= r@);
}

/// A resume is scheduled exactly where there is an attempt and the newest one
/// carries a deadline.
pub proof fn law_when_a_resume_is_scheduled(newest: Option<Option<Instant>>, r: bool)
    requires
        call_ensures(has_scheduled_resume, (newest,), r),
    ensures
        newest is None || newest == Some(None::<Instant>) ==> !r,
        newest matches Some(Some(_)) ==> r,
{
}

/// Nothing is made up about a run that died with the app, whatever its task's
/// history says: it was interrupted, something says why, and all that nobody
/// measured is left open.
pub proof fn law_nothing_is_made_up_about_a_crash(
    rows: Result<Vec<AttemptRow>, Error>,
    now: Instant,
    run_id: &str,
    plain: RunOutcome,
    r: RunOutcome,
)
    requires
        call_ensures(interrupted, (), plain),
        call_ensures(interrupted_after, (rows, now, run_id), r),
    ensures
        r.exit_class == ExitClass::Interrupted && r.status == RunStatus::Interrupted,
        r.error_message is Some && plain.error_message is Some && r.error_message->0@
            == plain.error_message->0@,
        r.num_turns is None && r.cost is None && r.duration_ms is None && r.pr_url is None,
        r.usage_limit_resets_at is None,
        r.spawned_as.model is None && r.spawned_as.effort is None
            && r.spawned_as.run_environment is None,
        r.usage.input_tokens is None && r.usage.output_tokens is None
            && r.usage.cache_read_tokens is None && r.usage.cache_creation_tokens is None,
        plain.resume_after is None,
        plain.exit_class == r.exit_class && plain.status == r.status && plain.spawned_as
            == r.spawned_as && plain.usage == r.usage,
        plain.num_turns is None && plain.cost is None && plain.duration_ms is None
            && plain.pr_url is None && plain.usage_limit_resets_at is None,
{
}

} // verus!
