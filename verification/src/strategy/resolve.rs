//! The chain that decides a task's strategy: the task, then its repository,
//! then the global default.
//!
//! A task in the default mode has no preference, so its mode falls through.

use vstd::prelude::*;

use crate::db::{clone_text, StrategyMode, Task};
use crate::strategy::settings;
use crate::strategy::settings::StrategyDefaults;

verus! {

/// Who decided a value.
#[derive(Debug, Clone, Copy, PartialEq, Eq, Hash, Structural)]
pub enum StrategyOrigin {
    Task,
    Repository,
    Global,
    /// Nobody: the flag is left out and the CLI's own default applies.
    ClaudeCode,
}

/// What a run will spawn with, and where each half came from.
#[derive(Debug, Clone, PartialEq, Eq)]
pub struct EffectiveStrategy {
    pub mode: StrategyMode,
    pub model: Option<String>,
    pub effort: Option<String>,
    pub model_origin: StrategyOrigin,
    pub effort_origin: StrategyOrigin,
}

/// The first of three modes that states one.
pub open spec fn stated_mode(
    task: StrategyMode,
    repository: StrategyMode,
    global: StrategyMode,
) -> StrategyMode {
    if task != StrategyMode::Default {
        task
    } else if repository != StrategyMode::Default {
        repository
    } else {
        global
    }
}

/// The first of three levels that states a value, and which one it was.
pub open spec fn stated(
    task: Option<String>,
    repository: Option<String>,
    global: Option<String>,
) -> (Option<String>, StrategyOrigin) {
    if task is Some {
        (task, StrategyOrigin::Task)
    } else if repository is Some {
        (repository, StrategyOrigin::Repository)
    } else if global is Some {
        (global, StrategyOrigin::Global)
    } else {
        (None, StrategyOrigin::ClaudeCode)
    }
}

/// What the task itself says of a value: nothing, in the resolved default mode.
pub open spec fn own(mode: StrategyMode, value: Option<String>) -> Option<String> {
    if mode == StrategyMode::Default {
        None
    } else {
        value
    }
}

/// What a run of `task` will spawn with.
pub open spec fn effective(
    task: Task,
    repository: StrategyDefaults,
    global: StrategyDefaults,
) -> EffectiveStrategy {
    let mode = stated_mode(task.strategy_mode, repository.mode, global.mode);
    let model = stated(own(mode, task.model), repository.model, global.model);
    let effort = stated(own(mode, task.effort), repository.effort, global.effort);
    EffectiveStrategy {
        mode,
        model: model.0,
        effort: effort.0,
        model_origin: model.1,
        effort_origin: effort.1,
    }
}

/// Resolves one task's strategy against its repository's default and the global
/// one.
///
/// The mode falls through. Model and effort fall through independently. A task
/// in the resolved default mode ignores its own model and effort.
pub fn effective_strategy(
    task: &Task,
    repository_default: &StrategyDefaults,
    global_default: &StrategyDefaults,
) -> (r: EffectiveStrategy)
    ensures
        r == effective(*task, *repository_default, *global_default),
{
    let mode = first_stated_mode(
        task.strategy_mode,
        repository_default.mode,
        global_default.mode,
    );
    let task_model = if mode == StrategyMode::Default {
        None
    } else {
        clone_text(&task.model)
    };
    let task_effort = if mode == StrategyMode::Default {
        None
    } else {
        clone_text(&task.effort)
    };
    let (model, model_origin) = first_stated(
        task_model,
        &repository_default.model,
        &global_default.model,
    );
    let (effort, effort_origin) = first_stated(
        task_effort,
        &repository_default.effort,
        &global_default.effort,
    );
    EffectiveStrategy { mode, model, effort, model_origin, effort_origin }
}

/// The first level that states a mode, or the default one when none does.
pub fn first_stated_mode(
    task: StrategyMode,
    repository: StrategyMode,
    global: StrategyMode,
) -> (r: StrategyMode)
    ensures
        r == stated_mode(task, repository, global),
{
    if task != StrategyMode::Default {
        task
    } else if repository != StrategyMode::Default {
        repository
    } else {
        global
    }
}

/// The first level that states a value, with the origin to explain it.
pub fn first_stated(
    task: Option<String>,
    repository: &Option<String>,
    global: &Option<String>,
) -> (r: (Option<String>, StrategyOrigin))
    ensures
        r == stated(task, *repository, *global),
{
    if task.is_some() {
        (task, StrategyOrigin::Task)
    } else if repository.is_some() {
        (clone_text(repository), StrategyOrigin::Repository)
    } else if global.is_some() {
        (clone_text(global), StrategyOrigin::Global)
    } else {
        (None, StrategyOrigin::ClaudeCode)
    }
}

/// A value is passed on exactly when somebody decided it.
pub proof fn law_an_undecided_value_is_left_out(
    task: Task,
    repository: StrategyDefaults,
    global: StrategyDefaults,
)
    ensures
        ({
            let e = effective(task, repository, global);
            &&& e.model is None <==> e.model_origin == StrategyOrigin::ClaudeCode
            &&& e.effort is None <==> e.effort_origin == StrategyOrigin::ClaudeCode
        }),
{
}

/// Model and effort do not influence each other: changing one at any level
/// leaves the other's answer as it was.
pub proof fn law_model_and_effort_are_independent(
    task: Task,
    other_task: Task,
    repository: StrategyDefaults,
    other_repository: StrategyDefaults,
    global: StrategyDefaults,
    other_global: StrategyDefaults,
)
    requires
        task.strategy_mode == other_task.strategy_mode && task.model == other_task.model,
        repository.mode == other_repository.mode && repository.model == other_repository.model,
        global.mode == other_global.mode && global.model == other_global.model,
    ensures
        ({
            let e = effective(task, repository, global);
            let f = effective(other_task, other_repository, other_global);
            e.mode == f.mode && e.model == f.model && e.model_origin == f.model_origin
        }),
{
}

/// A task in the default mode follows its repository's mode, and a task that
/// states a mode keeps it, whatever the defaults say.
pub proof fn law_only_an_untouched_task_follows_the_defaults(
    task: Task,
    repository: StrategyDefaults,
    global: StrategyDefaults,
)
    ensures
        task.strategy_mode != StrategyMode::Default ==> effective(task, repository, global).mode
            == task.strategy_mode,
        task.strategy_mode == StrategyMode::Default && repository.mode != StrategyMode::Default
            ==> effective(task, repository, global).mode == repository.mode,
{
}

/// With nothing configured anywhere, nothing is passed on and nobody is named.
pub proof fn law_nothing_configured_passes_nothing(task: Task)
    requires
        task.model is None && task.effort is None,
    ensures
        effective(task, settings::no_opinion(), settings::no_opinion()) == (EffectiveStrategy {
            mode: task.strategy_mode,
            model: None,
            effort: None,
            model_origin: StrategyOrigin::ClaudeCode,
            effort_origin: StrategyOrigin::ClaudeCode,
        }),
{
}

/// Who decides what a run spawns with. The mode is the task's, then its
/// repository's, then the settings'. A model or an effort is the task's own only
/// where the resolved mode is not the default one, then the repository's, then
/// the settings'; and where nobody says, nothing is passed on. The origin names
/// who said it.
pub proof fn law_the_nearest_to_say_it_decides(
    task: Task,
    repository: StrategyDefaults,
    global: StrategyDefaults,
    r: EffectiveStrategy,
)
    requires
        call_ensures(effective_strategy, (&task, &repository, &global), r),
    ensures
        task.strategy_mode != StrategyMode::Default ==> r.mode == task.strategy_mode,
        task.strategy_mode == StrategyMode::Default && repository.mode != StrategyMode::Default
            ==> r.mode == repository.mode,
        task.strategy_mode == StrategyMode::Default && repository.mode == StrategyMode::Default
            ==> r.mode == global.mode,
        ({
            let says = r.mode != StrategyMode::Default;
            &&& says && task.model is Some ==> r.model == task.model && r.model_origin
                == StrategyOrigin::Task
            &&& !(says && task.model is Some) && repository.model is Some ==> r.model
                == repository.model && r.model_origin == StrategyOrigin::Repository
            &&& !(says && task.model is Some) && repository.model is None && global.model is Some
                ==> r.model == global.model && r.model_origin == StrategyOrigin::Global
            &&& !(says && task.model is Some) && repository.model is None && global.model is None
                ==> r.model is None && r.model_origin == StrategyOrigin::ClaudeCode
            &&& says && task.effort is Some ==> r.effort == task.effort && r.effort_origin
                == StrategyOrigin::Task
            &&& !(says && task.effort is Some) && repository.effort is Some ==> r.effort
                == repository.effort && r.effort_origin == StrategyOrigin::Repository
            &&& !(says && task.effort is Some) && repository.effort is None && global.effort
                is Some ==> r.effort == global.effort && r.effort_origin == StrategyOrigin::Global
            &&& !(says && task.effort is Some) && repository.effort is None && global.effort
                is None ==> r.effort is None && r.effort_origin == StrategyOrigin::ClaudeCode
        }),
{
}

} // verus!
