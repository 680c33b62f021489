//! The rows the rules read and write, as plain values.

use vstd::prelude::*;

use crate::instant::Instant;

verus! {

/// Where a task stands in the machine's process.
#[derive(Debug, Clone, Copy, PartialEq, Eq, Hash, Structural)]
pub enum RunState {
    Idle,
    Queued,
    Running,
    Blocked,
    WaitingRetry,
    Failed,
    Cancelled,
}

/// Where a card stands on the board.
#[derive(Debug, Clone, Copy, PartialEq, Eq, Hash, Structural)]
pub enum BoardColumn {
    NotReady,
    Ready,
    InReview,
    Done,
}

/// How an attempt ended.
#[derive(Debug, Clone, Copy, PartialEq, Eq, Hash, Structural)]
pub enum ExitClass {
    Success,
    UsageLimit,
    Transient,
    Interrupted,
    Fatal,
    Cancelled,
}

/// What a run's row says of it.
#[derive(Debug, Clone, Copy, PartialEq, Eq, Hash, Structural)]
pub enum RunStatus {
    Running,
    Succeeded,
    Failed,
    Interrupted,
    Cancelled,
}

/// Whether the queue runs one task at a time or several.
#[derive(Debug, Clone, Copy, PartialEq, Eq, Hash, Structural)]
pub enum ScheduleMode {
    Sequential,
    Parallel,
}

/// Who decides what a task runs with.
#[derive(Debug, Clone, Copy, PartialEq, Eq, Hash, Structural)]
pub enum StrategyMode {
    /// Whatever the defaults say.
    Default,
    /// What the user chose on the task.
    Manual,
    /// What a planner proposes.
    Planned,
}

/// Who wrote a recorded strategy.
#[derive(Debug, Clone, Copy, PartialEq, Eq, Hash, Structural)]
pub enum StrategySource {
    Planner,
    User,
}

/// Who a write is attributed to.
#[derive(Debug, Clone, Copy, PartialEq, Eq, Hash, Structural)]
pub enum MutationSource {
    Ui,
    Mcp,
    System,
}

/// A stored board position, carried and never computed with: the bits of the
/// number in the row.
#[derive(Debug, Clone, Copy, PartialEq, Eq, Hash, Structural)]
pub struct Position {
    pub bits: u64,
}

/// One task's row.
#[derive(Debug, Clone, PartialEq, Eq)]
pub struct Task {
    pub id: String,
    pub repository_id: String,
    pub title: String,
    pub plan: Option<String>,
    pub extra_instructions: Option<String>,
    pub column: BoardColumn,
    pub position: Position,
    pub run_state: RunState,
    pub branch: Option<String>,
    pub worktree_path: Option<String>,
    pub strategy_mode: StrategyMode,
    pub model: Option<String>,
    pub effort: Option<String>,
    pub strategy_plan: Option<String>,
    pub strategy_source: Option<StrategySource>,
    pub strategy_updated_at: Option<Instant>,
    pub created_at: Instant,
    pub updated_at: Instant,
    pub source: MutationSource,
}

/// One link of a task.
#[derive(Debug, Clone, PartialEq, Eq)]
pub struct TaskLink {
    pub id: String,
    pub task_id: String,
    pub label: String,
    pub url: String,
    pub position: Position,
}

/// A sum of money, carried and never computed with: the bits of the number in
/// the row.
#[derive(Debug, Clone, Copy, PartialEq, Eq, Hash, Structural)]
pub struct Cost {
    pub bits: u64,
}

/// One attempt's row.
#[derive(Debug, Clone, PartialEq, Eq)]
pub struct Run {
    pub id: String,
    pub task_id: String,
    pub attempt: i64,
    pub status: RunStatus,
    pub session_id: String,
    pub prompt: String,
    pub started_at: Instant,
    pub ended_at: Option<Instant>,
    pub exit_class: Option<ExitClass>,
    pub error_message: Option<String>,
    pub num_turns: Option<i64>,
    pub cost: Option<Cost>,
    pub log_path: String,
    pub pr_url: Option<String>,
    pub resume_after: Option<Instant>,
    pub base_ref: Option<String>,
    pub model: Option<String>,
    pub effort: Option<String>,
    pub run_environment: Option<String>,
    pub input_tokens: Option<i64>,
    pub output_tokens: Option<i64>,
    pub cache_read_tokens: Option<i64>,
    pub cache_creation_tokens: Option<i64>,
}

impl BoardColumn {
    /// The stored spelling.
    pub fn as_sql(self) -> (r: &'static str)
        ensures
            r@ == (match self {
                BoardColumn::NotReady => "not_ready"@,
                BoardColumn::Ready => "ready"@,
                BoardColumn::InReview => "in_review"@,
                BoardColumn::Done => "done"@,
            }),
    {
        match self {
            BoardColumn::NotReady => "not_ready",
            BoardColumn::Ready => "ready",
            BoardColumn::InReview => "in_review",
            BoardColumn::Done => "done",
        }
    }

    /// How far along the board a column is.
    pub open spec fn rank(self) -> i64 {
        match self {
            BoardColumn::NotReady => 0,
            BoardColumn::Ready => 1,
            BoardColumn::InReview => 2,
            BoardColumn::Done => 3,
        }
    }

    /// How far along the board this column is.
    pub fn board_rank(self) -> (r: i64)
        ensures
            r == self.rank(),
    {
        match self {
            BoardColumn::NotReady => 0,
            BoardColumn::Ready => 1,
            BoardColumn::InReview => 2,
            BoardColumn::Done => 3,
        }
    }

    /// A dependency in this column no longer holds anything back.
    pub open spec fn satisfies(self) -> bool {
        self == BoardColumn::InReview || self == BoardColumn::Done
    }

    /// Whether a dependency in this column no longer holds anything back.
    pub fn satisfies_a_dependency(self) -> (r: bool)
        ensures
            r == self.satisfies(),
    {
        match self {
            BoardColumn::InReview => true,
            BoardColumn::Done => true,
            BoardColumn::NotReady => false,
            BoardColumn::Ready => false,
        }
    }
}

impl ScheduleMode {
    /// The stored spelling.
    pub open spec fn spelling(self) -> Seq<char> {
        match self {
            ScheduleMode::Sequential => "sequential"@,
            ScheduleMode::Parallel => "parallel"@,
        }
    }

    /// The stored spelling.
    pub fn as_str(self) -> (r: &'static str)
        ensures
            r@ == self.spelling(),
    {
        match self {
            ScheduleMode::Sequential => "sequential",
            ScheduleMode::Parallel => "parallel",
        }
    }
}

impl Default for ScheduleMode {
    /// One task at a time.
    fn default() -> (r: ScheduleMode)
        ensures
            r == ScheduleMode::Sequential,
    {
        ScheduleMode::Sequential
    }
}

/// A copy of an optional text.
pub fn clone_text(text: &Option<String>) -> (r: Option<String>)
    ensures
        r == *text,
{
    match text {
        Some(t) => Some(t.clone()),
        None => None,
    }
}

/// The columns stand in the order a task goes through them, and a dependency is
/// met once its task has been through the first two.
pub proof fn law_the_columns_stand_in_order(
    column: BoardColumn,
    rank: i64,
    met: bool,
    ready: i64,
)
    requires
        call_ensures(BoardColumn::board_rank, (column,), rank),
        call_ensures(BoardColumn::satisfies_a_dependency, (column,), met),
        call_ensures(BoardColumn::board_rank, (BoardColumn::Ready,), ready),
    ensures
        column == BoardColumn::NotReady <==> rank == 0,
        column == BoardColumn::Ready <==> rank == 1,
        column == BoardColumn::InReview <==> rank == 2,
        column == BoardColumn::Done <==> rank == 3,
        met <==> rank > ready,
{
}

} // verus!
