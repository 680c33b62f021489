//! The machine's half of a task's state, and which moves it allows.
//!
//! A state naming itself is no move: nothing ever decides to stay put, and
//! letting one pass would hide a caller that is confused about where it is.

use vstd::prelude::*;
use vstd::string::*;

use crate::db::{RunState, Task};
use crate::error;
use crate::error::{missing_task, Error, ErrorCode};
use crate::instant::Instant;
use crate::tasks::service::TaskChange;

verus! {

/// The machine allows moving from `from` to `to`.
pub open spec fn legal(from: RunState, to: RunState) -> bool {
    match from {
        RunState::Idle => to == RunState::Queued,
        RunState::Queued => to == RunState::Running || to == RunState::Blocked || to
            == RunState::Cancelled,
        RunState::Blocked => to == RunState::Queued || to == RunState::Cancelled,
        RunState::Running => to == RunState::Idle || to == RunState::WaitingRetry || to
            == RunState::Failed,
        RunState::WaitingRetry => to == RunState::Running || to == RunState::Failed || to
            == RunState::Cancelled,
        RunState::Failed => to == RunState::Queued,
        RunState::Cancelled => to == RunState::Queued,
    }
}

/// Whether the machine allows moving from `from` to `to`.
pub fn is_legal_run_state_transition(from: RunState, to: RunState) -> (r: bool)
    ensures
        r == legal(from, to),
{
    match (from, to) {
        (RunState::Idle, RunState::Queued) => true,
        (RunState::Queued, RunState::Running) => true,
        (RunState::Queued, RunState::Blocked) => true,
        (RunState::Blocked, RunState::Queued) => true,
        (RunState::Running, RunState::Idle) => true,
        (RunState::Running, RunState::WaitingRetry) => true,
        (RunState::Running, RunState::Failed) => true,
        (RunState::WaitingRetry, RunState::Running) => true,
        (RunState::WaitingRetry, RunState::Failed) => true,
        (RunState::WaitingRetry, RunState::Cancelled) => true,
        (RunState::Queued, RunState::Cancelled) => true,
        (RunState::Blocked, RunState::Cancelled) => true,
        (RunState::Failed, RunState::Queued) => true,
        (RunState::Cancelled, RunState::Queued) => true,
        _ => false,
    }
}

/// The stored spelling of a state.
pub open spec fn spelling(state: RunState) -> Seq<char> {
    match state {
        RunState::Idle => "idle"@,
        RunState::Queued => "queued"@,
        RunState::Running => "running"@,
        RunState::Blocked => "blocked"@,
        RunState::WaitingRetry => "waiting_retry"@,
        RunState::Failed => "failed"@,
        RunState::Cancelled => "cancelled"@,
    }
}

/// The stored spelling of a state, which is also what a reader is shown.
pub fn wire_spelling(state: RunState) -> (r: &'static str)
    ensures
        r@ == spelling(state),
{
    match state {
        RunState::Idle => "idle",
        RunState::Queued => "queued",
        RunState::Running => "running",
        RunState::Blocked => "blocked",
        RunState::WaitingRetry => "waiting_retry",
        RunState::Failed => "failed",
        RunState::Cancelled => "cancelled",
    }
}

/// The refusal of a move the machine does not allow.
pub open spec fn illegal_move(id: Seq<char>, from: RunState, to: RunState) -> Seq<char> {
    "cannot move task "@ + id + " from run state \""@ + spelling(from) + "\" to \""@ + spelling(to)
        + "\": not a legal transition"@
}

/// The row a task has after a move to `to`.
pub open spec fn in_state(task: Task, to: RunState, now: Instant) -> Task {
    Task { run_state: to, updated_at: now, ..task }
}

/// Moves a task to the state `to`: the row to write and the id to announce, or
/// why the move is refused. `row` is the task `id` names, if there is one.
///
/// The row is read and written in one step: the caller writes the result only
/// while `row` is still what the store holds. A refused move writes and
/// announces nothing.
pub fn set_run_state(id: &str, row: Option<Task>, to: RunState, now: Instant) -> (r: Result<
    TaskChange,
    Error,
>)
    ensures
        match row {
            None => r matches Err(e) && e.says(ErrorCode::NotFound, error::no_task(id@)),
            Some(task) => if legal(task.run_state, to) {
                r matches Ok(change) && change.task == in_state(task, to, now)
                    && change.changed@.len() == 1 && change.changed@[0]@ == id@
            } else {
                r matches Err(e) && e.says(
                    ErrorCode::Invalid,
                    illegal_move(id@, task.run_state, to),
                )
            },
        },
{
    let task = match row {
        Some(task) => task,
        None => return Err(missing_task(id)),
    };
    let from = task.run_state;
    if !is_legal_run_state_transition(from, to) {
        let mut message = "cannot move task ".to_owned();
        message.append(id);
        message.append(" from run state \"");
        message.append(wire_spelling(from));
        message.append("\" to \"");
        message.append(wire_spelling(to));
        message.append("\": not a legal transition");
        return Err(Error::invalid(message));
    }
    let mut written = task;
    written.run_state = to;
    written.updated_at = now;
    let mut changed: Vec<String> = Vec::new();
    changed.push(id.to_owned());
    Ok(TaskChange { task: written, changed })
}

/// A move changes a task's state and its time stamp, and nothing else of it.
pub proof fn law_a_move_leaves_the_rest_of_the_row_alone(task: Task, to: RunState, now: Instant)
    ensures
        in_state(task, to, now).run_state == to,
        in_state(task, to, now).updated_at == now,
        (Task {
            run_state: task.run_state,
            updated_at: task.updated_at,
            ..in_state(task, to, now)
        }) == task,
{
}

/// No state is reached from itself.
pub proof fn law_no_state_moves_to_itself(state: RunState)
    ensures
        !legal(state, state),
{
}

/// A run starts only out of the queue, or out of a wait between attempts.
pub proof fn law_the_doors_into_running(from: RunState)
    ensures
        legal(from, RunState::Running) <==> from == RunState::Queued || from
            == RunState::WaitingRetry,
{
}

/// A live run is never called off in place: leaving `Running` never lands on
/// `Cancelled`.
pub proof fn law_a_running_task_is_not_cancelled(to: RunState)
    requires
        legal(RunState::Running, to),
    ensures
        to != RunState::Cancelled,
{
}

/// Every state can be left, so no task is stuck.
pub proof fn law_every_state_has_a_way_on(from: RunState)
    ensures
        exists|to: RunState| legal(from, to),
{
    match from {
        RunState::Queued => assert(legal(from, RunState::Running)),
        RunState::Running => assert(legal(from, RunState::Idle)),
        RunState::WaitingRetry => assert(legal(from, RunState::Running)),
        _ => assert(legal(from, RunState::Queued)),
    }
}

/// What leads into each state, and nothing else does: the queue takes what is
/// idle, blocked, failed or called off; a run starts out of the queue or out of
/// a wait; only a queued task is blocked; only a running one waits or comes to
/// rest; a run or a wait fails; and what has not started may be called off.
pub proof fn law_what_leads_into_each_state(from: RunState, to: RunState, r: bool)
    requires
        call_ensures(is_legal_run_state_transition, (from, to), r),
    ensures
        to == RunState::Queued ==> (r <==> from == RunState::Idle || from == RunState::Blocked
            || from == RunState::Failed || from == RunState::Cancelled),
        to == RunState::Running ==> (r <==> from == RunState::Queued || from
            == RunState::WaitingRetry),
        to == RunState::Blocked ==> (r <==> from == RunState::Queued),
        to == RunState::WaitingRetry ==> (r <==> from == RunState::Running),
        to == RunState::Idle ==> (r <==> from == RunState::Running),
        to == RunState::Failed ==> (r <==> from == RunState::Running || from
            == RunState::WaitingRetry),
        to == RunState::Cancelled ==> (r <==> from == RunState::Queued || from == RunState::Blocked
            || from == RunState::WaitingRetry),
{
}

/// A task moves exactly where the machine allows the move, and then only its
/// state and its time stamp change and it alone is announced; otherwise nothing
/// is written.
pub proof fn law_a_task_moves_only_as_the_machine_allows(
    id: &str,
    row: Option<Task>,
    to: RunState,
    now: Instant,
    r: Result<TaskChange, Error>,
    allowed: bool,
)
    requires
        call_ensures(set_run_state, (id, row, to, now), r),
        row matches Some(task) ==> call_ensures(
            is_legal_run_state_transition,
            (task.run_state, to),
            allowed,
        ),
    ensures
        row matches Some(task) ==> {
            &&& allowed <==> r is Ok
            &&& !allowed ==> (r matches Err(e) && e.code == ErrorCode::Invalid)
            &&& r matches Ok(change) ==> {
                &&& change.task.run_state == to
                &&& change.task.updated_at == now
                &&& task == (Task {
                    run_state: task.run_state,
                    updated_at: task.updated_at,
                    ..change.task
                })
                &&& change.changed@.len() == 1 && change.changed@[0]@ == id@
            }
        },
        row is None ==> (r matches Err(e) && e.code == ErrorCode::NotFound),
{
}

/// A refused move names the task and both states.
pub proof fn law_a_refused_move_names_the_task(
    id: &str,
    task: Task,
    to: RunState,
    now: Instant,
    e: Error,
    from: &'static str,
    wanted: &'static str,
)
    requires
        call_ensures(set_run_state, (id, Some(task), to, now), Err::<TaskChange, Error>(e)),
        call_ensures(wire_spelling, (task.run_state,), from),
        call_ensures(wire_spelling, (to,), wanted),
    ensures
        e.message@ == "cannot move task "@ + id@ + " from run state \""@ + from@ + "\" to \""@
            + wanted@ + "\": not a legal transition"@,
{
}

} // verus!
