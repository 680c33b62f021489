//! What the task rules take as input.

use vstd::prelude::*;

use crate::db::{BoardColumn, RunState, StrategyMode};

verus! {

/// What creating a task takes.
#[derive(Debug, Clone, PartialEq, Eq)]
pub struct NewTask {
    pub repository_id: String,
    pub title: String,
    pub plan: Option<String>,
    pub extra_instructions: Option<String>,
    /// A task that names no column starts in the first.
    pub column: Option<BoardColumn>,
    /// Kept in the order given.
    pub links: Vec<NewTaskLink>,
}

/// A link to be stored.
#[derive(Debug, Clone, PartialEq, Eq)]
pub struct NewTaskLink {
    pub label: String,
    pub url: String,
}

/// A change to a value that may be absent: leave it, take it away, or replace
/// it.
#[derive(Debug, Clone, PartialEq, Eq)]
pub enum Patch<T> {
    Unset,
    Clear,
    Put(T),
}

impl<T> Default for Patch<T> {
    /// A patch that is not mentioned changes nothing.
    fn default() -> (r: Patch<T>)
        ensures
            r == Patch::<T>::Unset,
    {
        Patch::Unset
    }
}

impl<T> Patch<T> {
    /// What the value is after this change.
    pub open spec fn applied(self, current: Option<T>) -> Option<T> {
        match self {
            Patch::Unset => current,
            Patch::Clear => None,
            Patch::Put(value) => Some(value),
        }
    }

    /// Applies this change on top of `current`.
    pub fn apply(self, current: Option<T>) -> (r: Option<T>)
        ensures
            r == self.applied(current),
    {
        match self {
            Patch::Unset => current,
            Patch::Clear => None,
            Patch::Put(value) => Some(value),
        }
    }

    /// Whether this change mentions the value at all.
    pub fn is_set_or_cleared(&self) -> (r: bool)
        ensures
            r == !(*self is Unset),
    {
        match self {
            Patch::Unset => false,
            Patch::Clear => true,
            Patch::Put(_) => true,
        }
    }
}

/// What editing a task takes. A field that is not mentioned keeps its value.
#[derive(Debug, Clone, PartialEq, Eq)]
pub struct TaskPatch {
    pub repository_id: Option<String>,
    pub title: Option<String>,
    pub plan: Patch<String>,
    pub extra_instructions: Patch<String>,
    pub model: Patch<String>,
    pub effort: Patch<String>,
    pub strategy_mode: Option<StrategyMode>,
}

impl Default for TaskPatch {
    /// A patch that mentions nothing.
    fn default() -> (r: TaskPatch)
        ensures
            r == (TaskPatch {
                repository_id: None,
                title: None,
                plan: Patch::Unset,
                extra_instructions: Patch::Unset,
                model: Patch::Unset,
                effort: Patch::Unset,
                strategy_mode: None,
            }),
    {
        TaskPatch {
            repository_id: None,
            title: None,
            plan: Patch::Unset,
            extra_instructions: Patch::Unset,
            model: Patch::Unset,
            effort: Patch::Unset,
            strategy_mode: None,
        }
    }
}

/// What a list of tasks is narrowed to. A field that is absent matches
/// everything.
#[derive(Debug, Clone, PartialEq, Eq)]
pub struct TaskFilter {
    pub repository_id: Option<String>,
    pub column: Option<BoardColumn>,
    pub run_state: Option<RunState>,
}

impl Default for TaskFilter {
    /// Everything.
    fn default() -> (r: TaskFilter)
        ensures
            r == (TaskFilter { repository_id: None, column: None, run_state: None }),
    {
        TaskFilter { repository_id: None, column: None, run_state: None }
    }
}

/// What editing a link takes.
#[derive(Debug, Clone, PartialEq, Eq)]
pub struct TaskLinkPatch {
    pub label: Option<String>,
    pub url: Option<String>,
}

impl Default for TaskLinkPatch {
    /// A patch that mentions nothing.
    fn default() -> (r: TaskLinkPatch)
        ensures
            r == (TaskLinkPatch { label: None, url: None }),
    {
        TaskLinkPatch { label: None, url: None }
    }
}

/// Applying a change twice is applying it once.
pub proof fn law_a_patch_settles(patch: Patch<String>, current: Option<String>)
    ensures
        patch.applied(patch.applied(current)) == patch.applied(current),
{
}

/// A change says what a value is afterwards: the new one where it puts one, none
/// where it takes it away, and what it was where it says nothing.
pub proof fn law_a_patch_says_what_a_value_becomes(
    patch: Patch<String>,
    current: Option<String>,
    r: Option<String>,
    mentions: bool,
)
    requires
        call_ensures(Patch::<String>::apply, (patch, current), r),
        call_ensures(Patch::<String>::is_set_or_cleared, (&patch,), mentions),
    ensures
        patch matches Patch::Put(value) ==> r == Some(value) && mentions,
        patch is Clear ==> r is None && mentions,
        patch is Unset ==> r == current && !mentions,
{
}

} // verus!
