//! Creating, editing, moving, deleting and reading tasks.
//!
//! Every rule here is about the row that results. The one the board rests on is
//! that a task in the ready column has a plan, whichever way it got there.

use vstd::prelude::*;
use vstd::string::*;

use crate::db::{
    BoardColumn, ExitClass, MutationSource, Position, Run, RunState, RunStatus, StrategyMode, Task,
    TaskLink,
};
use crate::error;
use crate::error::{missing_task, Error, ErrorCode};
use crate::instant::Instant;
use crate::strategy::resolve;
use crate::strategy::resolve::{effective_strategy, EffectiveStrategy, StrategyOrigin};
use crate::strategy::settings::StrategyDefaults;
use crate::tasks::placing::Placed;
use crate::tasks::types::{NewTask, NewTaskLink, Patch, TaskFilter, TaskPatch};
use crate::text;
use crate::text::{decimal_text, is_blank, join, same};
use crate::textmap::TextMap;

verus! {

/// A task with everything a detail view needs.
#[derive(Debug, Clone, PartialEq, Eq)]
pub struct TaskDetail {
    pub task: Task,
    pub links: Vec<TaskLink>,
    /// What the task depends on.
    pub depends_on: Vec<String>,
    pub last_run: Option<Run>,
    /// What a run would spawn with, and who said so.
    pub effective_model: Option<String>,
    pub effective_effort: Option<String>,
    pub effective_origin: StrategyOrigin,
}

/// One card's worth of a task.
#[derive(Debug, Clone, PartialEq, Eq)]
pub struct TaskSummary {
    pub task: Task,
    pub link_count: i64,
    pub dependency_count: i64,
    /// Some dependency is in a column that still holds the task back.
    pub blocked_by_incomplete: bool,
    /// The first of those dependencies, by title.
    pub blocking_title: Option<String>,
    pub last_run: Option<LastRunSummary>,
    pub effective_model: Option<String>,
    pub effective_effort: Option<String>,
    pub effective_origin: StrategyOrigin,
}

/// What a card shows about a task's most recent attempt.
#[derive(Debug, Clone, Copy, PartialEq, Eq, Structural)]
pub struct LastRunSummary {
    pub status: RunStatus,
    pub exit_class: Option<ExitClass>,
    /// Nothing while the attempt is still in flight.
    pub ended_at: Option<Instant>,
    /// When the attempt was scheduled to be resumed.
    pub resume_after: Option<Instant>,
}

impl LastRunSummary {
    /// The last attempt that a board row's columns name. A row without a status
    /// has no attempt.
    pub fn from_columns(
        status: Option<RunStatus>,
        exit_class: Option<ExitClass>,
        ended_at: Option<Instant>,
        resume_after: Option<Instant>,
    ) -> (r: Option<LastRunSummary>)
        ensures
            r == (match status {
                Some(status) => Some(LastRunSummary { status, exit_class, ended_at, resume_after }),
                None => None,
            }),
    {
        match status {
            Some(status) => Some(LastRunSummary { status, exit_class, ended_at, resume_after }),
            None => None,
        }
    }
}

/// The board's bulk read, up to the filters that are appended to it.
///
/// A dependency holds a task back while it is in neither of the last two
/// columns, and the blocking title is the first of those by column and then by
/// place.
pub const TASK_SUMMARY_SELECT: &'static str = "
SELECT t.*,
       (SELECT count(*) FROM task_links WHERE task_id = t.id) AS link_count,
       (SELECT count(*) FROM task_dependencies WHERE task_id = t.id) AS dependency_count,
       EXISTS (SELECT 1
                 FROM task_dependencies d
                 JOIN tasks dep ON dep.id = d.depends_on_task_id
                WHERE d.task_id = t.id
                  AND dep.board_column NOT IN ('in_review', 'done')) AS blocked_by_incomplete,
       (SELECT dep.title
          FROM task_dependencies d
          JOIN tasks dep ON dep.id = d.depends_on_task_id
         WHERE d.task_id = t.id
           AND dep.board_column NOT IN ('in_review', 'done')
         ORDER BY CASE dep.board_column
                    WHEN 'not_ready' THEN 0
                    WHEN 'ready' THEN 1
                    WHEN 'in_review' THEN 2
                    WHEN 'done' THEN 3
                  END ASC,
                  dep.position ASC, dep.created_at ASC, dep.id ASC
         LIMIT 1) AS blocking_title,
       r.status AS last_run_status,
       r.exit_class AS last_run_exit_class,
       r.ended_at AS last_run_ended_at,
       r.resume_after AS last_run_resume_after
  FROM tasks t
  LEFT JOIN runs r ON r.task_id = t.id
       AND r.attempt = (SELECT max(attempt) FROM runs WHERE task_id = t.id)
 WHERE 1 = 1";

/// A plan is present: it holds something other than white space.
pub open spec fn present(plan: Option<String>) -> bool {
    plan matches Some(text) && !text::blank(text@)
}

/// A task in the ready column has a plan.
pub open spec fn ready_has_a_plan(task: Task) -> bool {
    task.column == BoardColumn::Ready ==> present(task.plan)
}

/// A plan as it is stored: a blank one is no plan.
pub open spec fn normalized(plan: Option<String>) -> Option<String> {
    if present(plan) {
        plan
    } else {
        None
    }
}

/// Refuses a title of nothing but white space.
pub fn validate_title(title: &str) -> (r: Result<(), Error>)
    ensures
        r is Ok <==> !text::blank(title@),
        r matches Err(e) ==> e.says(ErrorCode::Invalid, "a task's title must not be blank"@),
{
    if is_blank(title) {
        Err(Error::invalid("a task's title must not be blank".to_owned()))
    } else {
        Ok(())
    }
}

/// Whether a plan holds something other than white space.
pub fn plan_is_present(plan: &Option<String>) -> (r: bool)
    ensures
        r == present(*plan),
{
    match plan {
        Some(text) => !is_blank(text.as_str()),
        None => false,
    }
}

/// A plan as it is stored.
pub fn normalize_plan(plan: Option<String>) -> (r: Option<String>)
    ensures
        r == normalized(plan),
{
    if plan_is_present(&plan) {
        plan
    } else {
        None
    }
}

/// The refusal of a ready task without a plan.
pub open spec fn not_ready(title: Seq<char>) -> Seq<char> {
    "cannot put \""@ + title + "\" in ready without a plan"@
}

/// Refuses a task in the ready column without a plan.
pub fn ensure_ready_has_a_plan(column: BoardColumn, plan: &Option<String>, title: &str) -> (r:
    Result<(), Error>)
    ensures
        r is Ok <==> (column == BoardColumn::Ready ==> present(*plan)),
        r matches Err(e) ==> e.says(ErrorCode::Invalid, not_ready(title@)),
{
    if column == BoardColumn::Ready && !plan_is_present(plan) {
        let mut message = "cannot put \"".to_owned();
        message.append(title);
        message.append("\" in ready without a plan");
        return Err(Error::invalid(message));
    }
    Ok(())
}

/// The ids of `ids` that are not `id`, in order.
pub open spec fn other_than(ids: Seq<String>, id: Seq<char>) -> Seq<String>
    decreases ids.len(),
{
    if ids.len() == 0 {
        ids
    } else if ids.last()@ == id {
        other_than(ids.drop_last(), id)
    } else {
        other_than(ids.drop_last(), id).push(ids.last())
    }
}

/// What a change to `id` announces: the task itself first, then every task that
/// was renumbered with it.
pub open spec fn announced(changed: Seq<String>, id: Seq<char>, rebalanced: Seq<String>) -> bool {
    &&& changed.len() > 0
    &&& changed[0]@ == id
    &&& changed.subrange(1, changed.len() as int) == other_than(rebalanced, id)
}

fn announce(id: &str, rebalanced: &Vec<String>) -> (r: Vec<String>)
    ensures
        announced(r@, id@, rebalanced@),
{
    let mut changed: Vec<String> = Vec::new();
    changed.push(id.to_owned());
    let n: usize = rebalanced.len();
    let mut i: usize = 0;
    assert(rebalanced@.take(0) =~= Seq::<String>::empty());
    assert(changed@.subrange(1, 1) =~= Seq::<String>::empty());
    while i < n
        invariant
            i <= n,
            n == rebalanced.len(),
            changed@.len() > 0,
            changed@[0]@ == id@,
            changed@.subrange(1, changed@.len() as int) == other_than(
                rebalanced@.take(i as int),
                id@,
            ),
        decreases n - i,
    {
        proof {
            assert(rebalanced@.take(i + 1).drop_last() =~= rebalanced@.take(i as int));
            assert(rebalanced@.take(i + 1).last() == rebalanced@[i as int]);
        }
        if !same(rebalanced[i].as_str(), id) {
            let ghost earlier = changed@;
            changed.push(rebalanced[i].clone());
            assert(changed@.subrange(1, changed@.len() as int) =~= earlier.subrange(
                1,
                earlier.len() as int,
            ).push(rebalanced@[i as int]));
        }
        i += 1;
    }
    assert(rebalanced@.take(n as int) =~= rebalanced@);
    changed
}

/// A task to be created, once its input was accepted.
#[derive(Debug, Clone, PartialEq, Eq)]
pub struct PreparedTask {
    pub repository_id: String,
    pub title: String,
    pub plan: Option<String>,
    pub extra_instructions: Option<String>,
    pub column: BoardColumn,
    pub links: Vec<NewTaskLink>,
}

/// A link to be written, with its place among its task's links.
#[derive(Debug, Clone, PartialEq, Eq)]
pub struct PlacedLink {
    pub id: String,
    pub task_id: String,
    pub label: String,
    pub url: String,
    /// How many links stand before it.
    pub place: usize,
}

/// The rows a creation writes, and the ids it announces.
#[derive(Debug, Clone, PartialEq, Eq)]
pub struct TaskCreation {
    pub task: Task,
    pub links: Vec<PlacedLink>,
    pub changed: Vec<String>,
}

/// The row a change writes, and the ids it announces.
#[derive(Debug, Clone, PartialEq, Eq)]
pub struct TaskChange {
    pub task: Task,
    pub changed: Vec<String>,
}

/// The time stamp that a write beside a task's row leaves on it: the task, which
/// the write announces, and the time of the write.
#[derive(Debug, Clone, PartialEq, Eq)]
pub struct TaskStamp {
    pub task_id: String,
    pub updated_at: Instant,
}

impl TaskStamp {
    /// The stamp is for `task` and says `now`.
    pub open spec fn marks(self, task: Seq<char>, now: Instant) -> bool {
        self.task_id@ == task && self.updated_at == now
    }
}

/// The column a new task starts in.
pub open spec fn starting_column(column: Option<BoardColumn>) -> BoardColumn {
    match column {
        Some(column) => column,
        None => BoardColumn::NotReady,
    }
}

/// Accepts the input of a new task: its title is not blank, and it is not put
/// in the ready column without a plan.
pub fn prepare_task(input: NewTask) -> (r: Result<PreparedTask, Error>)
    ensures
        if text::blank(input.title@) {
            r matches Err(e) && e.says(ErrorCode::Invalid, "a task's title must not be blank"@)
        } else if starting_column(input.column) == BoardColumn::Ready && !present(input.plan) {
            r matches Err(e) && e.says(ErrorCode::Invalid, not_ready(input.title@))
        } else {
            r == Ok::<PreparedTask, Error>(
                PreparedTask {
                    repository_id: input.repository_id,
                    title: input.title,
                    plan: normalized(input.plan),
                    extra_instructions: input.extra_instructions,
                    column: starting_column(input.column),
                    links: input.links,
                },
            )
        },
{
    validate_title(input.title.as_str())?;
    let column = match input.column {
        Some(column) => column,
        None => BoardColumn::NotReady,
    };
    let plan = normalize_plan(input.plan);
    ensure_ready_has_a_plan(column, &plan, input.title.as_str())?;
    Ok(
        PreparedTask {
            repository_id: input.repository_id,
            title: input.title,
            plan,
            extra_instructions: input.extra_instructions,
            column,
            links: input.links,
        },
    )
}

/// The row of a new task.
pub open spec fn created(
    prepared: PreparedTask,
    position: Position,
    id: String,
    now: Instant,
    source: MutationSource,
) -> Task {
    Task {
        id,
        repository_id: prepared.repository_id,
        title: prepared.title,
        plan: prepared.plan,
        extra_instructions: prepared.extra_instructions,
        column: prepared.column,
        position,
        run_state: RunState::Idle,
        branch: None,
        worktree_path: None,
        strategy_mode: StrategyMode::Default,
        model: None,
        effort: None,
        strategy_plan: None,
        strategy_source: None,
        strategy_updated_at: None,
        created_at: now,
        updated_at: now,
        source,
    }
}

/// The rows a new task is written as. `placed` is the bottom of its column,
/// `id` and `link_ids` are fresh.
pub fn create_task(
    prepared: PreparedTask,
    placed: Placed,
    id: String,
    link_ids: Vec<String>,
    now: Instant,
    source: MutationSource,
) -> (r: TaskCreation)
    requires
        link_ids@.len() == prepared.links@.len(),
    ensures
        r.task == created(prepared, placed.position, id, now, source),
        r.links@.len() == prepared.links@.len(),
        forall|i: int|
            0 <= i < r.links@.len() ==> (#[trigger] r.links@[i]) == (PlacedLink {
                id: link_ids@[i],
                task_id: id,
                label: prepared.links@[i].label,
                url: prepared.links@[i].url,
                place: i as usize,
            }),
        announced(r.changed@, id@, placed.rebalanced@),
{
    let changed = announce(id.as_str(), &placed.rebalanced);
    let n: usize = prepared.links.len();
    let mut links: Vec<PlacedLink> = Vec::new();
    let mut i: usize = 0;
    while i < n
        invariant
            i <= n,
            n == prepared.links@.len(),
            link_ids@.len() == n,
            links@.len() == i,
            forall|j: int|
                0 <= j < i ==> (#[trigger] links@[j]) == (PlacedLink {
                    id: link_ids@[j],
                    task_id: id,
                    label: prepared.links@[j].label,
                    url: prepared.links@[j].url,
                    place: j as usize,
                }),
        decreases n - i,
    {
        links.push(
            PlacedLink {
                id: link_ids[i].clone(),
                task_id: id.clone(),
                label: prepared.links[i].label.clone(),
                url: prepared.links[i].url.clone(),
                place: i,
            },
        );
        i += 1;
    }
    let task = Task {
        id,
        repository_id: prepared.repository_id,
        title: prepared.title,
        plan: prepared.plan,
        extra_instructions: prepared.extra_instructions,
        column: prepared.column,
        position: placed.position,
        run_state: RunState::Idle,
        branch: None,
        worktree_path: None,
        strategy_mode: StrategyMode::Default,
        model: None,
        effort: None,
        strategy_plan: None,
        strategy_source: None,
        strategy_updated_at: None,
        created_at: now,
        updated_at: now,
        source,
    };
    TaskCreation { task, links, changed }
}

/// What a task's mode becomes after an edit.
pub open spec fn edited_mode(
    requested: Option<StrategyMode>,
    current: StrategyMode,
    touched: bool,
    both_empty: bool,
) -> StrategyMode {
    if let Some(mode) = requested {
        mode
    } else if !touched {
        current
    } else if !both_empty {
        StrategyMode::Manual
    } else if current == StrategyMode::Manual {
        StrategyMode::Default
    } else {
        current
    }
}

/// What a task's mode becomes after an edit.
///
/// An explicit mode wins. An edit that mentions neither the model nor the
/// effort leaves the mode alone. Naming either means the user decides; clearing
/// both hands a task the user had taken back to the defaults, and leaves a
/// planned one planned.
pub fn resolve_strategy_mode(
    requested: Option<StrategyMode>,
    current: StrategyMode,
    touched_a_field: bool,
    both_now_empty: bool,
) -> (r: StrategyMode)
    ensures
        r == edited_mode(requested, current, touched_a_field, both_now_empty),
{
    if let Some(mode) = requested {
        return mode;
    }
    if !touched_a_field {
        return current;
    }
    if both_now_empty {
        if current == StrategyMode::Manual {
            return StrategyMode::Default;
        }
        return current;
    }
    StrategyMode::Manual
}

/// How specific an origin is.
pub open spec fn specificity(origin: StrategyOrigin) -> int {
    match origin {
        StrategyOrigin::Task => 3,
        StrategyOrigin::Repository => 2,
        StrategyOrigin::Global => 1,
        StrategyOrigin::ClaudeCode => 0,
    }
}

fn specificity_of(origin: StrategyOrigin) -> (r: u8)
    ensures
        r == specificity(origin),
{
    match origin {
        StrategyOrigin::Task => 3,
        StrategyOrigin::Repository => 2,
        StrategyOrigin::Global => 1,
        StrategyOrigin::ClaudeCode => 0,
    }
}

/// The more specific of a strategy's two origins.
pub open spec fn strongest(effective: EffectiveStrategy) -> StrategyOrigin {
    if specificity(effective.model_origin) >= specificity(effective.effort_origin) {
        effective.model_origin
    } else {
        effective.effort_origin
    }
}

/// The more specific of a strategy's two origins, which is the one label a card
/// shows.
pub fn strongest_origin(effective: &EffectiveStrategy) -> (r: StrategyOrigin)
    ensures
        r == strongest(*effective),
{
    if specificity_of(effective.model_origin) >= specificity_of(effective.effort_origin) {
        effective.model_origin
    } else {
        effective.effort_origin
    }
}

/// What the store says of the repository that an edit names.
#[derive(Debug, PartialEq, Eq)]
pub struct Destination {
    /// How many repositories have that id.
    pub repositories: i64,
    /// How many runs the task has.
    pub run_count: i64,
    /// The bottom of the task's column there, or why there is no room.
    pub bottom: Result<Placed, Error>,
}

/// The repository an edit files the task under anew, if it does.
pub open spec fn reassigned(task: Task, requested: Option<String>) -> bool {
    requested matches Some(repository_id) && repository_id@ != task.repository_id@
}

/// Whether an edit files the task under another repository.
pub fn is_reassigned(task: &Task, requested: &Option<String>) -> (r: bool)
    ensures
        r == reassigned(*task, *requested),
{
    match requested {
        Some(repository_id) => !same(repository_id.as_str(), task.repository_id.as_str()),
        None => false,
    }
}

/// The refusal for a repository id that names no repository.
pub open spec fn no_repository(id: Seq<char>) -> Seq<char> {
    "no repository with id "@ + id
}

/// Refuses a repository id that names no repository.
pub fn ensure_repository_exists(repository_id: &str, count: i64) -> (r: Result<(), Error>)
    ensures
        r is Ok <==> count != 0,
        r matches Err(e) ==> e.says(ErrorCode::NotFound, no_repository(repository_id@)),
{
    if count == 0 {
        let mut message = "no repository with id ".to_owned();
        message.append(repository_id);
        return Err(Error::not_found(message));
    }
    Ok(())
}

/// A task may be filed anew: nothing has tied it to its repository yet.
pub open spec fn free_to_move(task: Task, run_count: i64) -> bool {
    task.worktree_path is None && run_count <= 0
}

/// Why a task may not be filed anew: where its worktree is, or else how many
/// runs it has.
pub open spec fn tied_down(task: Task, run_count: i64) -> Seq<char> {
    "cannot move \""@ + task.title@ + "\" to another repository: "@ + match task.worktree_path {
        Some(path) => "it already has a worktree at "@ + path@,
        None => if run_count == 1 {
            "1 run has already been recorded against it"@
        } else {
            text::decimal(run_count as nat) + " runs have already been recorded against it"@
        },
    }
}

/// Refuses to file a task anew once it has a worktree or a run.
pub fn ensure_repository_is_reassignable(task: &Task, run_count: i64) -> (r: Result<(), Error>)
    ensures
        r is Ok <==> free_to_move(*task, run_count),
        r matches Err(e) ==> e.says(ErrorCode::Invalid, tied_down(*task, run_count)),
{
    if task.worktree_path.is_none() && run_count <= 0 {
        return Ok(());
    }
    let mut message = "cannot move \"".to_owned();
    message.append(task.title.as_str());
    message.append("\" to another repository: ");
    let reason = match &task.worktree_path {
        Some(path) => {
            let mut reason = "it already has a worktree at ".to_owned();
            reason.append(path.as_str());
            reason
        },
        None => if run_count == 1 {
            "1 run has already been recorded against it".to_owned()
        } else {
            let mut reason = decimal_text(run_count as u64);
            reason.append(" runs have already been recorded against it");
            reason
        },
    };
    message.append(reason.as_str());
    Err(Error::invalid(message))
}

/// An edit's destination accepts the task: it exists, the task is free to move,
/// and there is room.
pub open spec fn accepts(destination: Destination, task: Task) -> bool {
    destination.repositories != 0 && free_to_move(task, destination.run_count)
        && destination.bottom is Ok
}

/// Why an edit's destination does not accept the task.
pub open spec fn turned_away(
    e: Error,
    destination: Destination,
    task: Task,
    repository: Seq<char>,
) -> bool {
    if destination.repositories == 0 {
        e.says(ErrorCode::NotFound, no_repository(repository))
    } else if !free_to_move(task, destination.run_count) {
        e.says(ErrorCode::Invalid, tied_down(task, destination.run_count))
    } else {
        destination.bottom == Err::<Placed, Error>(e)
    }
}

/// Where a task is filed after an edit: as before, or at the bottom of its
/// column in the repository the edit names.
#[derive(Debug, Clone, PartialEq, Eq)]
pub struct RepositoryPlacement {
    pub repository_id: String,
    pub position: Position,
    pub rebalanced: Vec<String>,
}

/// Where a task is filed after an edit that names `requested`, or why that is
/// refused. Naming no repository, or the one it is in, changes nothing.
pub fn resolve_repository_placement(
    task: &Task,
    requested: &Option<String>,
    destination: Option<Destination>,
) -> (r: Result<RepositoryPlacement, Error>)
    requires
        reassigned(*task, *requested) ==> destination is Some,
    ensures
        if !reassigned(*task, *requested) {
            r matches Ok(placement) && placement.repository_id == task.repository_id
                && placement.position == task.position && placement.rebalanced@.len() == 0
        } else if accepts(destination->0, *task) {
            r == Ok::<RepositoryPlacement, Error>(
                RepositoryPlacement {
                    repository_id: requested->0,
                    position: destination->0.bottom->Ok_0.position,
                    rebalanced: destination->0.bottom->Ok_0.rebalanced,
                },
            )
        } else {
            r matches Err(e) && turned_away(e, destination->0, *task, requested->0@)
        },
{
    if !is_reassigned(task, requested) {
        return Ok(
            RepositoryPlacement {
                repository_id: task.repository_id.clone(),
                position: task.position,
                rebalanced: Vec::new(),
            },
        );
    }
    match (requested, destination) {
        (Some(repository_id), Some(found)) => {
            match ensure_repository_exists(repository_id.as_str(), found.repositories) {
                Ok(_) => {},
                Err(e) => return Err(e),
            }
            match ensure_repository_is_reassignable(task, found.run_count) {
                Ok(_) => {},
                Err(e) => return Err(e),
            }
            match found.bottom {
                Ok(bottom) => Ok(
                    RepositoryPlacement {
                        repository_id: repository_id.clone(),
                        position: bottom.position,
                        rebalanced: bottom.rebalanced,
                    },
                ),
                Err(e) => Err(e),
            }
        },
        _ => {
            assert(false);
            Ok(
                RepositoryPlacement {
                    repository_id: task.repository_id.clone(),
                    position: task.position,
                    rebalanced: Vec::new(),
                },
            )
        },
    }
}

/// The title a task has after an edit.
pub open spec fn edited_title(task: Task, patch: TaskPatch) -> String {
    match patch.title {
        Some(title) => title,
        None => task.title,
    }
}

/// The plan a task has after an edit.
pub open spec fn edited_plan(task: Task, patch: TaskPatch) -> Option<String> {
    normalized(patch.plan.applied(task.plan))
}

/// The row a task has after an edit that files it in `repository_id` at
/// `position`.
pub open spec fn edited(
    task: Task,
    patch: TaskPatch,
    repository_id: String,
    position: Position,
    now: Instant,
) -> Task {
    let model = patch.model.applied(task.model);
    let effort = patch.effort.applied(task.effort);
    Task {
        repository_id,
        title: edited_title(task, patch),
        plan: edited_plan(task, patch),
        extra_instructions: patch.extra_instructions.applied(task.extra_instructions),
        model,
        effort,
        strategy_mode: edited_mode(
            patch.strategy_mode,
            task.strategy_mode,
            !(patch.model is Unset) || !(patch.effort is Unset),
            model is None && effort is None,
        ),
        position,
        updated_at: now,
        ..task
    }
}

/// Edits a task: the row to write, or why the edit is refused.
///
/// `row` is the task `id` names, if there is one. `destination` is what the
/// store says of the repository the patch names, which is read only where the
/// patch files the task anew.
pub fn update_task(
    id: &str,
    row: Option<Task>,
    patch: TaskPatch,
    destination: Option<Destination>,
    now: Instant,
) -> (r: Result<TaskChange, Error>)
    requires
        row matches Some(task) ==> (reassigned(task, patch.repository_id) ==> destination is Some),
    ensures
        match row {
            None => r matches Err(e) && e.says(ErrorCode::NotFound, error::no_task(id@)),
            Some(task) => if reassigned(task, patch.repository_id) && !accepts(
                destination->0,
                task,
            ) {
                r matches Err(e) && turned_away(e, destination->0, task, patch.repository_id->0@)
            } else if text::blank(edited_title(task, patch)@) && patch.title is Some {
                r matches Err(e) && e.says(ErrorCode::Invalid, "a task's title must not be blank"@)
            } else if task.column == BoardColumn::Ready && !present(edited_plan(task, patch)) {
                r matches Err(e) && e.says(
                    ErrorCode::Invalid,
                    not_ready(edited_title(task, patch)@),
                )
            } else {
                r matches Ok(change) && ready_has_a_plan(change.task) && if reassigned(
                    task,
                    patch.repository_id,
                ) {
                    let bottom = destination->0.bottom->Ok_0;
                    &&& change.task == edited(
                        task,
                        patch,
                        patch.repository_id->0,
                        bottom.position,
                        now,
                    )
                    &&& announced(change.changed@, id@, bottom.rebalanced@)
                } else {
                    &&& change.task == edited(
                        task,
                        patch,
                        task.repository_id,
                        task.position,
                        now,
                    )
                    &&& announced(change.changed@, id@, Seq::empty())
                }
            },
        },
{
    let task = match row {
        Some(task) => task,
        None => return Err(missing_task(id)),
    };
    let placement = match resolve_repository_placement(&task, &patch.repository_id, destination) {
        Ok(placement) => placement,
        Err(e) => return Err(e),
    };
    let title = match patch.title {
        Some(title) => {
            match validate_title(title.as_str()) {
                Ok(_) => {},
                Err(e) => return Err(e),
            }
            title
        },
        None => task.title,
    };
    let plan = normalize_plan(patch.plan.apply(task.plan));
    let extra_instructions = patch.extra_instructions.apply(task.extra_instructions);
    let touched_a_field = patch.model.is_set_or_cleared() || patch.effort.is_set_or_cleared();
    let model = patch.model.apply(task.model);
    let effort = patch.effort.apply(task.effort);
    let strategy_mode = resolve_strategy_mode(
        patch.strategy_mode,
        task.strategy_mode,
        touched_a_field,
        model.is_none() && effort.is_none(),
    );
    match ensure_ready_has_a_plan(task.column, &plan, title.as_str()) {
        Ok(_) => {},
        Err(e) => return Err(e),
    }
    proof {
        if !reassigned(row->0, patch.repository_id) {
            assert(placement.rebalanced@ =~= Seq::<String>::empty());
        }
    }
    let changed = announce(id, &placement.rebalanced);
    let written = Task {
        id: task.id,
        repository_id: placement.repository_id,
        title,
        plan,
        extra_instructions,
        column: task.column,
        position: placement.position,
        run_state: task.run_state,
        branch: task.branch,
        worktree_path: task.worktree_path,
        strategy_mode,
        model,
        effort,
        strategy_plan: task.strategy_plan,
        strategy_source: task.strategy_source,
        strategy_updated_at: task.strategy_updated_at,
        created_at: task.created_at,
        updated_at: now,
        source: task.source,
    };
    Ok(TaskChange { task: written, changed })
}

/// The refusal to delete a task that others depend on.
pub open spec fn depended_on(dependents: Seq<String>) -> Seq<char> {
    "cannot delete this"@ + " task: "@ + (if dependents.len() == 1 {
        "1 other task depends on it"@
    } else {
        text::decimal(dependents.len()) + " other tasks depend on it"@
    }) + ": "@ + text::joined(text::views(dependents), ", "@)
        + ". Each of those branches from this one, so clear the dependency on it in their task panels before deleting it."@
}

/// Whether a task may be deleted. `dependents` are the titles of the tasks that
/// depend on it, in the order they are named in.
pub fn delete_task(id: &str, found: bool, dependents: &Vec<String>) -> (r: Result<(), Error>)
    ensures
        r is Ok <==> found && dependents@.len() == 0,
        r matches Err(e) ==> if !found {
            e.says(ErrorCode::NotFound, error::no_task(id@))
        } else {
            e.says(ErrorCode::Invalid, depended_on(dependents@))
        },
{
    if !found {
        return Err(missing_task(id));
    }
    if dependents.len() == 0 {
        return Ok(());
    }
    let mut message = "cannot delete this".to_owned();
    message.append(" task: ");
    let subject = if dependents.len() == 1 {
        "1 other task depends on it".to_owned()
    } else {
        let mut subject = decimal_text(dependents.len() as u64);
        subject.append(" other tasks depend on it");
        subject
    };
    message.append(subject.as_str());
    message.append(": ");
    message.append(join(dependents, ", ").as_str());
    message.append(
        ". Each of those branches from this one, so clear the dependency on it in their task panels before deleting it.",
    );
    Err(Error::invalid(message))
}

/// `neighbour` names `id`.
pub open spec fn names(neighbour: Option<String>, id: Seq<char>) -> bool {
    neighbour matches Some(other) && other@ == id
}

/// Whether a neighbour names an id.
pub fn is_named(neighbour: &Option<String>, id: &str) -> (r: bool)
    ensures
        r == names(*neighbour, id@),
{
    match neighbour {
        Some(other) => same(other.as_str(), id),
        None => false,
    }
}

/// Whether a task may be moved to `column`, before its place there is looked
/// for.
pub fn check_move(
    id: &str,
    row: &Option<Task>,
    column: BoardColumn,
    before_id: &Option<String>,
    after_id: &Option<String>,
) -> (r: Result<(), Error>)
    ensures
        if names(*before_id, id@) || names(*after_id, id@) {
            r matches Err(e) && e.says(
                ErrorCode::Invalid,
                "a task cannot be moved next to itself"@,
            )
        } else {
            match *row {
                None => r matches Err(e) && e.says(ErrorCode::NotFound, error::no_task(id@)),
                Some(task) => if column == BoardColumn::Ready && !present(task.plan) {
                    r matches Err(e) && e.says(ErrorCode::Invalid, not_ready(task.title@))
                } else {
                    r is Ok
                },
            }
        },
{
    if is_named(before_id, id) || is_named(after_id, id) {
        return Err(Error::invalid("a task cannot be moved next to itself".to_owned()));
    }
    match row {
        None => Err(missing_task(id)),
        Some(task) => ensure_ready_has_a_plan(column, &task.plan, task.title.as_str()),
    }
}

/// The row a task has after a move.
pub open spec fn moved(task: Task, column: BoardColumn, position: Position, now: Instant) -> Task {
    Task { column, position, updated_at: now, ..task }
}

/// Moves a task that [`check_move`] lets through: the row to write. `placed` is
/// where it lands between its neighbours.
pub fn move_task(task: Task, column: BoardColumn, placed: Placed, now: Instant) -> (r: TaskChange)
    ensures
        r.task == moved(task, column, placed.position, now),
        announced(r.changed@, task.id@, placed.rebalanced@),
        (column == BoardColumn::Ready ==> present(task.plan)) ==> ready_has_a_plan(r.task),
{
    let changed = announce(task.id.as_str(), &placed.rebalanced);
    let mut written = task;
    written.column = column;
    written.position = placed.position;
    written.updated_at = now;
    TaskChange { task: written, changed }
}

/// The text of the board's read for a filter.
pub open spec fn list_text(filter: TaskFilter) -> Seq<char> {
    TASK_SUMMARY_SELECT@ + (if filter.repository_id is Some {
        " AND t.repository_id = ?"@
    } else {
        ""@
    }) + (if filter.column is Some {
        " AND t.board_column = ?"@
    } else {
        ""@
    }) + (if filter.run_state is Some {
        " AND t.run_state = ?"@
    } else {
        ""@
    })
        + " ORDER BY t.repository_id ASC, t.board_column ASC, t.position ASC, t.created_at ASC, t.id ASC"@
}

/// The board's read for a filter: by repository, then column, then place. Each
/// part of the filter that is present narrows it, in this order.
pub fn list_tasks(filter: &TaskFilter) -> (r: String)
    ensures
        r@ == list_text(*filter),
{
    let mut sql = TASK_SUMMARY_SELECT.to_owned();
    sql.append(if filter.repository_id.is_some() {
        " AND t.repository_id = ?"
    } else {
        ""
    });
    sql.append(if filter.column.is_some() {
        " AND t.board_column = ?"
    } else {
        ""
    });
    sql.append(if filter.run_state.is_some() {
        " AND t.run_state = ?"
    } else {
        ""
    });
    sql.append(
        " ORDER BY t.repository_id ASC, t.board_column ASC, t.position ASC, t.created_at ASC, t.id ASC",
    );
    sql
}

/// A card with its strategy resolved against its own repository's defaults.
pub open spec fn resolved(
    summary: TaskSummary,
    repositories: Map<Seq<char>, StrategyDefaults>,
    global: StrategyDefaults,
) -> TaskSummary {
    let effective = resolve::effective(
        summary.task,
        repositories[summary.task.repository_id@],
        global,
    );
    TaskSummary {
        effective_model: effective.model,
        effective_effort: effective.effort,
        effective_origin: strongest(effective),
        ..summary
    }
}

/// Some id of `ids` is `id`.
pub open spec fn listed(ids: Seq<String>, id: Seq<char>) -> bool {
    exists|i: int| 0 <= i < ids.len() && (#[trigger] ids[i])@ == id
}

fn is_listed(ids: &Vec<String>, id: &str) -> (r: bool)
    ensures
        r == listed(ids@, id@),
{
    let n: usize = ids.len();
    let mut i: usize = 0;
    while i < n
        invariant
            i <= n,
            n == ids.len(),
            forall|j: int| 0 <= j < i ==> (#[trigger] ids@[j])@ != id@,
        decreases n - i,
    {
        if same(ids[i].as_str(), id) {
            return true;
        }
        i += 1;
    }
    false
}

/// No two of `ids` are the same.
pub open spec fn all_different(ids: Seq<String>) -> bool {
    forall|i: int, j: int| 0 <= i < j < ids.len() ==> (#[trigger] ids[i])@ != (#[trigger] ids[j])@
}

/// `ids` name the repository of every one of the first `n` cards.
pub open spec fn name_all(ids: Seq<String>, summaries: Seq<TaskSummary>, n: int) -> bool {
    forall|i: int| 0 <= i < n ==> listed(ids, (#[trigger] summaries[i]).task.repository_id@)
}

/// Some card is in the repository `id`.
pub open spec fn has_card(summaries: Seq<TaskSummary>, id: String) -> bool {
    exists|j: int| 0 <= j < summaries.len() && (#[trigger] summaries[j]).task.repository_id == id
}

/// `ids` name repositories of cards only.
pub open spec fn all_have_cards(ids: Seq<String>, summaries: Seq<TaskSummary>) -> bool {
    forall|i: int| 0 <= i < ids.len() ==> has_card(summaries, #[trigger] ids[i])
}

/// The repositories whose defaults a board read needs: each one once.
pub fn repositories_of(summaries: &Vec<TaskSummary>) -> (r: Vec<String>)
    ensures
        all_different(r@),
        name_all(r@, summaries@, summaries@.len() as int),
        all_have_cards(r@, summaries@),
{
    let n: usize = summaries.len();
    let mut ids: Vec<String> = Vec::new();
    let mut k: usize = 0;
    while k < n
        invariant
            k <= n,
            n == summaries.len(),
            all_different(ids@),
            name_all(ids@, summaries@, k as int),
            all_have_cards(ids@, summaries@),
        decreases n - k,
    {
        let ghost earlier = ids@;
        if !is_listed(&ids, summaries[k].task.repository_id.as_str()) {
            ids.push(summaries[k].task.repository_id.clone());
            proof {
                let id = summaries@[k as int].task.repository_id;
                assert(ids@[earlier.len() as int] == id);
                assert forall|i: int| 0 <= i < k + 1 implies listed(
                    ids@,
                    (#[trigger] summaries@[i]).task.repository_id@,
                ) by {
                    if i < k {
                        let at = choose|at: int|
                            0 <= at < earlier.len() && (#[trigger] earlier[at])@
                                == summaries@[i].task.repository_id@;
                        assert(ids@[at] == earlier[at]);
                    }
                }
                assert forall|i: int| 0 <= i < ids@.len() implies has_card(
                    summaries@,
                    #[trigger] ids@[i],
                ) by {
                    if i < earlier.len() {
                        assert(ids@[i] == earlier[i]);
                    } else {
                        assert(summaries@[k as int].task.repository_id == ids@[i]);
                    }
                }
            }
        }
        k += 1;
    }
    ids
}

/// Fills every card's effective model and effort. `repositories` holds the
/// defaults of each repository on the board.
pub fn apply_effective_strategy(
    summaries: Vec<TaskSummary>,
    repositories: &TextMap<StrategyDefaults>,
    global: &StrategyDefaults,
) -> (r: Vec<TaskSummary>)
    requires
        forall|i: int|
            0 <= i < summaries@.len() ==> repositories@.contains_key(
                (#[trigger] summaries@[i]).task.repository_id@,
            ),
    ensures
        r@.len() == summaries@.len(),
        forall|i: int|
            0 <= i < r@.len() ==> (#[trigger] r@[i]) == resolved(
                summaries@[i],
                repositories@,
                *global,
            ),
{
    let mut out: Vec<TaskSummary> = Vec::new();
    let mut rest = summaries;
    let n: usize = rest.len();
    let mut i: usize = n;
    while i > 0
        invariant
            i <= n,
            n == summaries@.len(),
            rest@ == summaries@.take(i as int),
            out@.len() == n - i,
            forall|j: int|
                0 <= j < n ==> repositories@.contains_key(
                    (#[trigger] summaries@[j]).task.repository_id@,
                ),
            forall|j: int|
                0 <= j < out@.len() ==> (#[trigger] out@[j]) == resolved(
                    summaries@[n - 1 - j],
                    repositories@,
                    *global,
                ),
        decreases i,
    {
        match rest.pop() {
            Some(mut summary) => {
                assert(summary == summaries@[i - 1]);
                let effective = match repositories.get(summary.task.repository_id.as_str()) {
                    Some(defaults) => effective_strategy(&summary.task, defaults, global),
                    None => {
                        assert(false);
                        effective_strategy(&summary.task, global, global)
                    },
                };
                summary.effective_origin = strongest_origin(&effective);
                summary.effective_model = effective.model;
                summary.effective_effort = effective.effort;
                out.push(summary);
            },
            None => {},
        }
        i -= 1;
        assert(rest@ =~= summaries@.take(i as int));
    }
    let mut forward: Vec<TaskSummary> = Vec::new();
    let mut k: usize = 0;
    while k < n
        invariant
            k <= n,
            n == summaries@.len(),
            out@.len() == n - k,
            forward@.len() == k,
            forall|j: int|
                0 <= j < out@.len() ==> (#[trigger] out@[j]) == resolved(
                    summaries@[n - 1 - j],
                    repositories@,
                    *global,
                ),
            forall|j: int|
                0 <= j < k ==> (#[trigger] forward@[j]) == resolved(
                    summaries@[j],
                    repositories@,
                    *global,
                ),
        decreases n - k,
    {
        match out.pop() {
            Some(summary) => forward.push(summary),
            None => {},
        }
        k += 1;
    }
    forward
}

/// The full detail of a task, or why there is none.
pub fn get_task(
    id: &str,
    row: Option<Task>,
    links: Vec<TaskLink>,
    depends_on: Vec<String>,
    last_run: Option<Run>,
    repository_default: &StrategyDefaults,
    global_default: &StrategyDefaults,
) -> (r: Result<TaskDetail, Error>)
    ensures
        match row {
            None => r matches Err(e) && e.says(ErrorCode::NotFound, error::no_task(id@)),
            Some(task) => {
                let effective = resolve::effective(task, *repository_default, *global_default);
                r == Ok::<TaskDetail, Error>(
                    TaskDetail {
                        task,
                        links,
                        depends_on,
                        last_run,
                        effective_model: effective.model,
                        effective_effort: effective.effort,
                        effective_origin: strongest(effective),
                    },
                )
            },
        },
{
    let task = match row {
        Some(task) => task,
        None => return Err(missing_task(id)),
    };
    let effective = effective_strategy(&task, repository_default, global_default);
    let effective_origin = strongest_origin(&effective);
    Ok(
        TaskDetail {
            task,
            links,
            depends_on,
            last_run,
            effective_model: effective.model,
            effective_effort: effective.effort,
            effective_origin,
        },
    )
}

/// Whichever way a task is created, it is in the ready column only with a plan,
/// and no stored plan is blank.
pub proof fn law_a_created_task_keeps_the_ready_rule(
    input: NewTask,
    position: Position,
    id: String,
    now: Instant,
    source: MutationSource,
)
    requires
        starting_column(input.column) == BoardColumn::Ready ==> present(input.plan),
    ensures
        ({
            let prepared = PreparedTask {
                repository_id: input.repository_id,
                title: input.title,
                plan: normalized(input.plan),
                extra_instructions: input.extra_instructions,
                column: starting_column(input.column),
                links: input.links,
            };
            let task = created(prepared, position, id, now, source);
            ready_has_a_plan(task) && (task.plan is Some ==> present(task.plan))
        }),
{
}

/// An edit never moves a card to another column, changes its state or touches
/// what it was created with.
pub proof fn law_an_edit_leaves_the_rest_of_the_row_alone(
    task: Task,
    patch: TaskPatch,
    repository_id: String,
    position: Position,
    now: Instant,
)
    ensures
        ({
            let after = edited(task, patch, repository_id, position, now);
            &&& after.id == task.id
            &&& after.column == task.column
            &&& after.run_state == task.run_state
            &&& after.created_at == task.created_at
            &&& after.source == task.source
            &&& after.strategy_plan == task.strategy_plan
            &&& after.strategy_source == task.strategy_source
        }),
        patch == (TaskPatch {
            repository_id: None,
            title: None,
            plan: Patch::Unset,
            extra_instructions: Patch::Unset,
            model: Patch::Unset,
            effort: Patch::Unset,
            strategy_mode: None,
        }) && normalized(task.plan) == task.plan ==> edited(
            task,
            patch,
            task.repository_id,
            task.position,
            now,
        ) == (Task { updated_at: now, ..task }),
{
}

/// An edit that mentions neither the model nor the effort, nor a mode, leaves
/// the mode exactly as it was.
pub proof fn law_an_unrelated_edit_keeps_the_mode(current: StrategyMode, both_empty: bool)
    ensures
        edited_mode(None, current, false, both_empty) == current,
{
}

/// After an edit that names a model or an effort, the task's own choice is what
/// runs: it is never left in the default mode, where it would be ignored.
pub proof fn law_a_named_model_takes_effect(
    task: Task,
    patch: TaskPatch,
    repository_id: String,
    position: Position,
    now: Instant,
    repository: StrategyDefaults,
    global: StrategyDefaults,
)
    requires
        patch.model is Put,
        patch.strategy_mode is None,
    ensures
        ({
            let after = edited(task, patch, repository_id, position, now);
            let effective = resolve::effective(after, repository, global);
            &&& after.strategy_mode == StrategyMode::Manual
            &&& effective.model == patch.model.applied(None)
            &&& effective.model_origin == StrategyOrigin::Task
        }),
{
}

proof fn lemma_other_than(ids: Seq<String>, id: Seq<char>, other: spec_fn(String) -> bool)
    requires
        forall|one: String| #[trigger] other(one) <==> one@ != id,
    ensures
        other_than(ids, id) == ids.filter(other),
    decreases ids.len(),
{
    reveal(Seq::filter);
    if ids.len() > 0 {
        lemma_other_than(ids.drop_last(), id, other);
    }
}

/// What was handed over is what is stored: a created task has the repository,
/// the title, the instructions and the column that were asked for, the first
/// column where none was, and the plan unless it is blank, in whichever column
/// it starts. Nothing else is decided for it, and its links are kept in order.
pub proof fn law_a_created_task_is_what_was_asked_for(
    input: NewTask,
    prepared: PreparedTask,
    placed: Placed,
    id: String,
    link_ids: Vec<String>,
    now: Instant,
    source: MutationSource,
    creation: TaskCreation,
)
    requires
        call_ensures(prepare_task, (input,), Ok::<PreparedTask, Error>(prepared)),
        call_ensures(create_task, (prepared, placed, id, link_ids, now, source), creation),
    ensures
        creation.task.repository_id == input.repository_id,
        creation.task.title == input.title,
        creation.task.extra_instructions == input.extra_instructions,
        input.column matches Some(column) ==> creation.task.column == column,
        input.column is None ==> creation.task.column == BoardColumn::NotReady,
        input.plan matches Some(plan) && (exists|i: int|
            0 <= i < plan@.len() && !text::white_space(#[trigger] plan@[i])) ==> creation.task.plan
            == input.plan,
        creation.task.plan is None || creation.task.plan == input.plan,
        creation.task.plan matches Some(plan) ==> exists|i: int|
            0 <= i < plan@.len() && !text::white_space(#[trigger] plan@[i]),
        creation.task.id == id,
        creation.task.position == placed.position,
        creation.task.created_at == now && creation.task.updated_at == now,
        creation.task.source == source,
        creation.task.run_state == RunState::Idle,
        creation.task.branch is None && creation.task.worktree_path is None,
        creation.task.strategy_mode == StrategyMode::Default,
        creation.task.model is None && creation.task.effort is None,
        creation.task.strategy_plan is None && creation.task.strategy_source is None
            && creation.task.strategy_updated_at is None,
        creation.links@.len() == input.links@.len(),
        forall|i: int|
            0 <= i < creation.links@.len() ==> {
                let link = #[trigger] creation.links@[i];
                &&& link.id == link_ids@[i]
                &&& link.task_id == id
                &&& link.label == input.links@[i].label
                &&& link.url == input.links@[i].url
                &&& link.place == i as usize
            },
        creation.changed@.len() > 0 && creation.changed@[0]@ == id@,
        creation.changed@.skip(1) == placed.rebalanced@.filter(|other: String| other@ != id@),
{
    lemma_other_than(placed.rebalanced@, id@, |other: String| other@ != id@);
    assert(creation.changed@.skip(1) =~= creation.changed@.subrange(
        1,
        creation.changed@.len() as int,
    ));
    if let Some(plan) = input.plan {
        if exists|i: int| 0 <= i < plan@.len() && !text::white_space(#[trigger] plan@[i]) {
            assert(!text::blank(plan@));
        }
    }
}

/// A task is accepted exactly where its title says something and, should it
/// start in the ready column, its plan does.
pub proof fn law_what_is_accepted_as_a_task(input: NewTask, r: Result<PreparedTask, Error>)
    requires
        call_ensures(prepare_task, (input,), r),
    ensures
        r is Ok <==> {
            &&& exists|i: int|
                0 <= i < input.title@.len() && !text::white_space(#[trigger] input.title@[i])
            &&& input.column == Some(BoardColumn::Ready) ==> (input.plan matches Some(plan)
                && exists|i: int|
                0 <= i < plan@.len() && !text::white_space(#[trigger] plan@[i]))
        },
        r matches Err(e) ==> e.code == ErrorCode::Invalid,
{
    assert(text::blank(input.title@) <==> !exists|i: int|
        0 <= i < input.title@.len() && !text::white_space(#[trigger] input.title@[i]));
    if let Some(plan) = input.plan {
        assert(text::blank(plan@) <==> !exists|i: int|
            0 <= i < plan@.len() && !text::white_space(#[trigger] plan@[i]));
    }
}

/// An edit changes what it names and nothing else: each field it puts has the
/// new value, each it clears has none, each it leaves out keeps its own, and a
/// plan that says nothing is stored as none.
pub proof fn law_an_edit_changes_what_it_names(
    id: &str,
    task: Task,
    patch: TaskPatch,
    destination: Option<Destination>,
    now: Instant,
    change: TaskChange,
)
    requires
        call_ensures(
            update_task,
            (id, Some(task), patch, destination, now),
            Ok::<TaskChange, Error>(change),
        ),
        reassigned(task, patch.repository_id) ==> destination is Some,
    ensures
        patch.title matches Some(title) ==> change.task.title == title,
        patch.title is None ==> change.task.title == task.title,
        patch.plan matches Patch::Put(plan) ==> change.task.plan == (if text::blank(plan@) {
            None
        } else {
            Some(plan)
        }),
        patch.plan is Clear ==> change.task.plan is None,
        patch.plan is Unset && present(task.plan) ==> change.task.plan == task.plan,
        patch.plan is Unset && !present(task.plan) ==> change.task.plan is None,
        patch.extra_instructions matches Patch::Put(value) ==> change.task.extra_instructions
            == Some(value),
        patch.extra_instructions is Clear ==> change.task.extra_instructions is None,
        patch.extra_instructions is Unset ==> change.task.extra_instructions
            == task.extra_instructions,
        patch.model matches Patch::Put(value) ==> change.task.model == Some(value),
        patch.model is Clear ==> change.task.model is None,
        patch.model is Unset ==> change.task.model == task.model,
        patch.effort matches Patch::Put(value) ==> change.task.effort == Some(value),
        patch.effort is Clear ==> change.task.effort is None,
        patch.effort is Unset ==> change.task.effort == task.effort,
        change.task.updated_at == now,
        change.task.id == task.id,
        change.task.column == task.column,
        change.task.run_state == task.run_state,
        change.task.branch == task.branch,
        change.task.worktree_path == task.worktree_path,
        change.task.strategy_plan == task.strategy_plan,
        change.task.strategy_source == task.strategy_source,
        change.task.strategy_updated_at == task.strategy_updated_at,
        change.task.created_at == task.created_at,
        change.task.source == task.source,
        change.changed@.len() > 0 && change.changed@[0]@ == id@,
{
}

/// The mode a task has after an edit: the one the edit names; else the user's
/// own, once the edit names a model or an effort; else the defaults', where an
/// edit takes the last of what the user had decided away; else as it was.
pub proof fn law_an_edit_settles_who_decides(
    id: &str,
    task: Task,
    patch: TaskPatch,
    destination: Option<Destination>,
    now: Instant,
    change: TaskChange,
)
    requires
        call_ensures(
            update_task,
            (id, Some(task), patch, destination, now),
            Ok::<TaskChange, Error>(change),
        ),
        reassigned(task, patch.repository_id) ==> destination is Some,
    ensures
        patch.strategy_mode matches Some(mode) ==> change.task.strategy_mode == mode,
        patch.strategy_mode is None && patch.model is Unset && patch.effort is Unset
            ==> change.task.strategy_mode == task.strategy_mode,
        patch.strategy_mode is None && !(patch.model is Unset && patch.effort is Unset) ==> {
            &&& change.task.model is Some || change.task.effort is Some
                ==> change.task.strategy_mode == StrategyMode::Manual
            &&& change.task.model is None && change.task.effort is None && task.strategy_mode
                == StrategyMode::Manual ==> change.task.strategy_mode == StrategyMode::Default
            &&& change.task.model is None && change.task.effort is None && task.strategy_mode
                != StrategyMode::Manual ==> change.task.strategy_mode == task.strategy_mode
        },
{
}

/// An edit files a task elsewhere exactly where it names another repository: it
/// then stands at the bottom of its column there, and the cards renumbered for
/// it are announced with it. Otherwise it stays where it is, and nothing else
/// is announced.
pub proof fn law_an_edit_files_a_task_where_it_says(
    id: &str,
    task: Task,
    patch: TaskPatch,
    destination: Option<Destination>,
    now: Instant,
    change: TaskChange,
)
    requires
        call_ensures(
            update_task,
            (id, Some(task), patch, destination, now),
            Ok::<TaskChange, Error>(change),
        ),
        reassigned(task, patch.repository_id) ==> destination is Some,
    ensures
        (patch.repository_id matches Some(repository) && repository@ != task.repository_id@) ==> {
            &&& Some(change.task.repository_id) == patch.repository_id
            &&& destination matches Some(there) && there.repositories != 0 && there.run_count <= 0
                && (there.bottom matches Ok(bottom) && change.task.position == bottom.position
                && change.changed@.skip(1) == bottom.rebalanced@.filter(
                |other: String| other@ != id@,
            ))
            &&& task.worktree_path is None
        },
        !(patch.repository_id matches Some(repository) && repository@ != task.repository_id@) ==> {
            &&& change.task.repository_id == task.repository_id
            &&& change.task.position == task.position
            &&& change.changed@.len() == 1
        },
{
    assert(change.changed@.skip(1) =~= change.changed@.subrange(1, change.changed@.len() as int));
    if reassigned(task, patch.repository_id) {
        lemma_other_than(
            destination->0.bottom->Ok_0.rebalanced@,
            id@,
            |other: String| other@ != id@,
        );
    } else {
        assert(other_than(Seq::empty(), id@).len() == 0);
    }
}

/// When an edit is let through: the task is there, a title it names says
/// something, a card in the ready column keeps a plan that says something, and
/// a repository it is filed under anew exists, has room, and takes a task that
/// nothing ties down yet.
pub proof fn law_when_an_edit_is_let_through(
    id: &str,
    row: Option<Task>,
    patch: TaskPatch,
    destination: Option<Destination>,
    now: Instant,
    r: Result<TaskChange, Error>,
)
    requires
        call_ensures(update_task, (id, row, patch, destination, now), r),
        row matches Some(task) ==> (reassigned(task, patch.repository_id) ==> destination is Some),
    ensures
        r is Ok <==> (row matches Some(task) && {
            &&& patch.title matches Some(title) ==> !text::blank(title@)
            &&& task.column == BoardColumn::Ready ==> match patch.plan {
                Patch::Put(plan) => !text::blank(plan@),
                Patch::Clear => false,
                Patch::Unset => task.plan matches Some(plan) && !text::blank(plan@),
            }
            &&& (patch.repository_id matches Some(repository) && repository@
                != task.repository_id@) ==> {
                &&& destination->0.repositories != 0
                &&& task.worktree_path is None
                &&& destination->0.run_count <= 0
                &&& destination->0.bottom is Ok
            }
        }),
        row is None ==> (r matches Err(e) && e.code == ErrorCode::NotFound),
{
}

/// A move changes a card's column, its place and its time stamp, and nothing
/// else of it; the card is announced first, and then every other card that was
/// renumbered for it.
pub proof fn law_a_move_changes_only_the_place(
    task: Task,
    column: BoardColumn,
    placed: Placed,
    now: Instant,
    r: TaskChange,
)
    requires
        call_ensures(move_task, (task, column, placed, now), r),
    ensures
        r.task.column == column,
        r.task.position == placed.position,
        r.task.updated_at == now,
        task == (Task {
            column: task.column,
            position: task.position,
            updated_at: task.updated_at,
            ..r.task
        }),
        r.changed@.len() > 0 && r.changed@[0]@ == task.id@,
        r.changed@.skip(1) == placed.rebalanced@.filter(|other: String| other@ != task.id@),
{
    lemma_other_than(placed.rebalanced@, task.id@, |other: String| other@ != task.id@);
    assert(r.changed@.skip(1) =~= r.changed@.subrange(1, r.changed@.len() as int));
}

/// A card may be moved exactly where it is there, is not its own neighbour, and
/// has a plan that says something should it be moved to the ready column.
pub proof fn law_when_a_card_may_be_moved(
    id: &str,
    row: Option<Task>,
    column: BoardColumn,
    before_id: Option<String>,
    after_id: Option<String>,
    r: Result<(), Error>,
)
    requires
        call_ensures(check_move, (id, &row, column, &before_id, &after_id), r),
    ensures
        r is Ok <==> {
            &&& before_id matches Some(other) ==> other@ != id@
            &&& after_id matches Some(other) ==> other@ != id@
            &&& row matches Some(task) && (column == BoardColumn::Ready ==> (
            task.plan matches Some(plan) && !text::blank(plan@)))
        },
{
}

/// The origin a card shows is one of its two values' own, and the other is never
/// nearer to the task: the task comes first, then its repository, then the
/// settings, and the agent's own choice last.
pub proof fn law_a_card_shows_the_nearest_origin(effective: EffectiveStrategy, r: StrategyOrigin)
    requires
        call_ensures(strongest_origin, (&effective,), r),
    ensures
        r == effective.model_origin || r == effective.effort_origin,
        effective.model_origin == StrategyOrigin::Task || effective.effort_origin
            == StrategyOrigin::Task ==> r == StrategyOrigin::Task,
        r == StrategyOrigin::Global ==> effective.model_origin != StrategyOrigin::Repository
            && effective.effort_origin != StrategyOrigin::Repository,
        r == StrategyOrigin::ClaudeCode ==> effective.model_origin == StrategyOrigin::ClaudeCode
            && effective.effort_origin == StrategyOrigin::ClaudeCode,
{
}

/// Resolving a board's strategies touches no card but for what it spawns with:
/// each is resolved against the defaults of its own repository.
pub proof fn law_each_card_is_resolved_by_its_own_repository(
    summaries: Vec<TaskSummary>,
    repositories: TextMap<StrategyDefaults>,
    global: StrategyDefaults,
    r: Vec<TaskSummary>,
    i: int,
    effective: EffectiveStrategy,
)
    requires
        call_ensures(apply_effective_strategy, (summaries, &repositories, &global), r),
        0 <= i < summaries@.len(),
        call_ensures(
            effective_strategy,
            (
                &summaries@[i].task,
                &repositories@[summaries@[i].task.repository_id@],
                &global,
            ),
            effective,
        ),
    ensures
        r@.len() == summaries@.len(),
        r@[i].effective_model == effective.model,
        r@[i].effective_effort == effective.effort,
        summaries@[i] == (TaskSummary {
            effective_model: summaries@[i].effective_model,
            effective_effort: summaries@[i].effective_effort,
            effective_origin: summaries@[i].effective_origin,
            ..r@[i]
        }),
        r@[i].effective_origin == effective.model_origin || r@[i].effective_origin
            == effective.effort_origin,
        effective.model_origin == StrategyOrigin::Task || effective.effort_origin
            == StrategyOrigin::Task ==> r@[i].effective_origin == StrategyOrigin::Task,
{
    assert(r@[i] == resolved(summaries@[i], repositories@, global));
}

/// A task is deleted exactly where it is there and nothing depends on it; a
/// refusal that counts who does names every one of them.
pub proof fn law_a_task_is_deleted_only_when_nothing_depends_on_it(
    id: &str,
    found: bool,
    dependents: Vec<String>,
    r: Result<(), Error>,
    names: String,
)
    requires
        call_ensures(delete_task, (id, found, &dependents), r),
        call_ensures(join, (&dependents, ", "), names),
    ensures
        r is Ok <==> found && dependents@.len() == 0,
        r matches Err(e) ==> (e.code == ErrorCode::NotFound <==> !found),
        r matches Err(e) ==> (e.code == ErrorCode::Invalid <==> found),
        found && r is Err ==> exists|i: int| #[trigger]
            text::occurs_at(r->Err_0.message@, names@, i),
{
    if found && r is Err {
        let left = "cannot delete this"@ + " task: "@ + (if dependents@.len() == 1 {
            "1 other task depends on it"@
        } else {
            text::decimal(dependents@.len()) + " other tasks depend on it"@
        }) + ": "@;
        text::lemma_stands_between(
            left,
            names@,
            ". Each of those branches from this one, so clear the dependency on it in their task panels before deleting it."@,
        );
        assert(text::occurs_at(r->Err_0.message@, names@, left.len() as int));
    }
}

/// A title is accepted exactly where it says something, and a card in the ready
/// column exactly where its plan does; the refusal names the card.
pub proof fn law_a_card_says_something(
    title: &str,
    named: Result<(), Error>,
    column: BoardColumn,
    plan: Option<String>,
    r: Result<(), Error>,
)
    requires
        call_ensures(validate_title, (title,), named),
        call_ensures(ensure_ready_has_a_plan, (column, &plan, title), r),
    ensures
        named is Ok <==> !text::blank(title@),
        r is Ok <==> column != BoardColumn::Ready || (plan matches Some(said) && !text::blank(
            said@,
        )),
        r matches Err(e) ==> exists|i: int| #[trigger] text::occurs_at(e.message@, title@, i),
{
    if let Err(e) = r {
        text::lemma_stands_between(
            "cannot put \""@,
            title@,
            "\" in ready without a plan"@,
        );
        assert(text::occurs_at(e.message@, title@, "cannot put \""@.len() as int));
    }
}

/// A task may be filed elsewhere until something ties it down: a worktree, or a
/// run. The refusal names it and, where there is one, its worktree.
pub proof fn law_what_ties_a_task_down(task: Task, run_count: i64, r: Result<(), Error>)
    requires
        call_ensures(ensure_repository_is_reassignable, (&task, run_count), r),
    ensures
        r is Ok <==> task.worktree_path is None && run_count <= 0,
        r matches Err(e) ==> {
            &&& exists|i: int| #[trigger] text::occurs_at(e.message@, task.title@, i)
            &&& task.worktree_path matches Some(path) ==> exists|i: int| #[trigger]
                text::occurs_at(e.message@, path@, i)
        },
{
    if let Err(e) = r {
        let head = "cannot move \""@;
        let middle = "\" to another repository: "@;
        let tail = match task.worktree_path {
            Some(path) => "it already has a worktree at "@ + path@,
            None => if run_count == 1 {
                "1 run has already been recorded against it"@
            } else {
                text::decimal(run_count as nat) + " runs have already been recorded against it"@
            },
        };
        assert(e.message@ =~= head + task.title@ + (middle + tail));
        text::lemma_stands_between(head, task.title@, middle + tail);
        assert(text::occurs_at(e.message@, task.title@, head.len() as int));
        if let Some(path) = task.worktree_path {
            let left = head + task.title@ + middle + "it already has a worktree at "@;
            assert(e.message@ =~= left + path@ + seq![]);
            text::lemma_stands_between(left, path@, seq![]);
            assert(text::occurs_at(e.message@, path@, left.len() as int));
        }
    }
}

/// The full detail of a task is the task with all that was read for it, and what
/// it would spawn with; it is there exactly where the task is.
pub proof fn law_a_detail_is_the_task_with_all_that_was_read(
    id: &str,
    row: Option<Task>,
    links: Vec<TaskLink>,
    depends_on: Vec<String>,
    last_run: Option<Run>,
    repository: StrategyDefaults,
    global: StrategyDefaults,
    r: Result<TaskDetail, Error>,
    effective: EffectiveStrategy,
)
    requires
        call_ensures(
            get_task,
            (id, row, links, depends_on, last_run, &repository, &global),
            r,
        ),
        row matches Some(task) ==> call_ensures(
            effective_strategy,
            (&task, &repository, &global),
            effective,
        ),
    ensures
        r is Ok <==> row is Some,
        r matches Err(e) ==> e.code == ErrorCode::NotFound,
        r matches Ok(detail) ==> {
            &&& Some(detail.task) == row
            &&& detail.links == links
            &&& detail.depends_on == depends_on
            &&& detail.last_run == last_run
            &&& detail.effective_model == effective.model
            &&& detail.effective_effort == effective.effort
            &&& detail.effective_origin == effective.model_origin || detail.effective_origin
                == effective.effort_origin
        },
{
}

/// A board read is narrowed by each part of the filter that is there, and by no
/// other: taking a part away takes its condition away and leaves the rest.
pub proof fn law_each_part_of_a_filter_narrows_on_its_own(
    filter: TaskFilter,
    wider: TaskFilter,
    narrow: String,
    wide: String,
)
    requires
        call_ensures(list_tasks, (&filter,), narrow),
        call_ensures(list_tasks, (&wider,), wide),
        filter.column is Some,
        wider == (TaskFilter { column: None, ..filter }),
    ensures
        exists|left: Seq<char>, right: Seq<char>|
            narrow@ == #[trigger] (left + " AND t.board_column = ?"@ + right) && wide@ == left
                + right,
{
    let left = TASK_SUMMARY_SELECT@ + (if filter.repository_id is Some {
        " AND t.repository_id = ?"@
    } else {
        ""@
    });
    let right = (if filter.run_state is Some {
        " AND t.run_state = ?"@
    } else {
        ""@
    })
        + " ORDER BY t.repository_id ASC, t.board_column ASC, t.position ASC, t.created_at ASC, t.id ASC"@;
    reveal_strlit("");
    assert(narrow@ =~= left + " AND t.board_column = ?"@ + right);
    assert(wide@ =~= left + right);
}

/// The mode after an edit, as it is decided on its own.
pub proof fn law_who_decides_after_an_edit(
    requested: Option<StrategyMode>,
    current: StrategyMode,
    touched: bool,
    both_empty: bool,
    r: StrategyMode,
)
    requires
        call_ensures(resolve_strategy_mode, (requested, current, touched, both_empty), r),
    ensures
        requested matches Some(mode) ==> r == mode,
        requested is None && !touched ==> r == current,
        requested is None && touched && !both_empty ==> r == StrategyMode::Manual,
        requested is None && touched && both_empty ==> (if current == StrategyMode::Manual {
            r == StrategyMode::Default
        } else {
            r == current
        }),
{
}

/// An edit that files a task where it cannot go says why: there is no such
/// repository, or something ties the task down, or there is no room for it.
pub proof fn law_why_an_edit_turns_a_task_away(
    id: &str,
    task: Task,
    patch: TaskPatch,
    destination: Destination,
    now: Instant,
    e: Error,
    repository: String,
)
    requires
        call_ensures(
            update_task,
            (id, Some(task), patch, Some(destination), now),
            Err::<TaskChange, Error>(e),
        ),
        patch.repository_id == Some(repository),
        repository@ != task.repository_id@,
    ensures
        destination.repositories == 0 ==> e.code == ErrorCode::NotFound && exists|i: int| #[trigger]
            text::occurs_at(e.message@, repository@, i),
        destination.repositories != 0 && (task.worktree_path is Some || destination.run_count > 0)
            ==> e.code == ErrorCode::Invalid && exists|i: int| #[trigger]
            text::occurs_at(e.message@, task.title@, i),
        destination.repositories != 0 && task.worktree_path is None && destination.run_count <= 0
            ==> (destination.bottom matches Err(full) ==> e == full),
{
    if destination.repositories == 0 {
        let head = "no repository with id "@;
        assert(e.message@ =~= head + repository@ + seq![]);
        text::lemma_stands_between(head, repository@, seq![]);
        assert(text::occurs_at(e.message@, repository@, head.len() as int));
    } else if task.worktree_path is Some || destination.run_count > 0 {
        let head = "cannot move \""@;
        let tail = "\" to another repository: "@ + match task.worktree_path {
            Some(path) => "it already has a worktree at "@ + path@,
            None => if destination.run_count == 1 {
                "1 run has already been recorded against it"@
            } else {
                text::decimal(destination.run_count as nat)
                    + " runs have already been recorded against it"@
            },
        };
        assert(e.message@ =~= head + task.title@ + tail);
        text::lemma_stands_between(head, task.title@, tail);
        assert(text::occurs_at(e.message@, task.title@, head.len() as int));
    }
}

/// Where a task is filed is told apart from the edit itself in the same way: a
/// task that stays keeps its place, and one that goes gets the bottom of its new
/// column with all that was renumbered for it.
pub proof fn law_a_task_that_stays_keeps_its_place(
    task: Task,
    requested: Option<String>,
    destination: Option<Destination>,
    r: Result<RepositoryPlacement, Error>,
)
    requires
        call_ensures(resolve_repository_placement, (&task, &requested, destination), r),
    ensures
        requested is None || requested->0@ == task.repository_id@ ==> (r matches Ok(placement)
            && placement.repository_id == task.repository_id && placement.position == task.position
            && placement.rebalanced@.len() == 0),
        (requested matches Some(repository) && repository@ != task.repository_id@) ==> (
        r matches Ok(placement) ==> {
            &&& placement.repository_id == requested->0
            &&& placement.position == destination->0.bottom->Ok_0.position
            &&& placement.rebalanced == destination->0.bottom->Ok_0.rebalanced
            &&& destination->0.bottom is Ok
            &&& destination->0.repositories != 0
            &&& task.worktree_path is None
            &&& destination->0.run_count <= 0
        }),
{
}

/// A board read needs the defaults of each repository that has a card, of no
/// other, and of each once.
pub proof fn law_each_repository_with_a_card_is_read_once(
    summaries: Vec<TaskSummary>,
    r: Vec<String>,
    i: int,
    j: int,
)
    requires
        call_ensures(repositories_of, (&summaries,), r),
    ensures
        0 <= i < summaries@.len() ==> exists|k: int|
            0 <= k < r@.len() && (#[trigger] r@[k])@ == summaries@[i].task.repository_id@,
        0 <= i < r@.len() ==> exists|k: int|
            0 <= k < summaries@.len() && (#[trigger] summaries@[k]).task.repository_id == r@[i],
        0 <= i < j < r@.len() ==> r@[i]@ != r@[j]@,
{
    if 0 <= i < summaries@.len() {
        assert(listed(r@, summaries@[i].task.repository_id@));
    }
    if 0 <= i < r@.len() {
        assert(has_card(summaries@, r@[i]));
    }
}

/// A plan is there exactly where it says something; one that says nothing is
/// stored as none, and one that does as it is.
pub proof fn law_a_plan_that_says_nothing_is_none(
    plan: Option<String>,
    stored: Option<String>,
    there: bool,
)
    requires
        call_ensures(normalize_plan, (plan,), stored),
        call_ensures(plan_is_present, (&plan,), there),
    ensures
        there <==> (plan matches Some(said) && exists|i: int|
            0 <= i < said@.len() && !text::white_space(#[trigger] said@[i])),
        stored is Some <==> there,
        stored is Some ==> stored == plan,
{
    if let Some(said) = plan {
        if there {
            assert(!text::blank(said@));
        }
    }
}

/// A task's last run is what its columns say, where there is one.
pub proof fn law_a_last_run_is_what_its_columns_say(
    status: Option<RunStatus>,
    exit_class: Option<ExitClass>,
    ended_at: Option<Instant>,
    resume_after: Option<Instant>,
    r: Option<LastRunSummary>,
)
    requires
        call_ensures(LastRunSummary::from_columns, (status, exit_class, ended_at, resume_after), r),
    ensures
        r is Some <==> status is Some,
        r matches Some(run) ==> Some(run.status) == status && run.exit_class == exit_class
            && run.ended_at == ended_at && run.resume_after == resume_after,
{
}

/// A repository that is named must be there, and the refusal names it.
pub proof fn law_a_repository_that_is_named_must_be_there(
    repository_id: &str,
    count: i64,
    r: Result<(), Error>,
)
    requires
        call_ensures(ensure_repository_exists, (repository_id, count), r),
    ensures
        r is Err <==> count == 0,
        r matches Err(e) ==> e.code == ErrorCode::NotFound && exists|i: int| #[trigger]
            text::occurs_at(e.message@, repository_id@, i),
{
    if let Err(e) = r {
        let head = "no repository with id "@;
        assert(e.message@ =~= head + repository_id@ + seq![]);
        text::lemma_stands_between(head, repository_id@, seq![]);
        assert(text::occurs_at(e.message@, repository_id@, head.len() as int));
    }
}

} // verus!
