//! Which level of defaults a task runs with.

use rimaia_core::db::{BoardColumn, MutationSource, Position, RunState, StrategyMode, Task};
use rimaia_core::instant::Instant;
use rimaia_core::strategy::resolve::{effective_strategy, StrategyOrigin};
use rimaia_core::strategy::settings::StrategyDefaults;

fn epoch() -> Instant {
    Instant { seconds: 1_787_227_200, nanos: 0 }
}

#[test]
fn a_task_that_names_a_model_outranks_the_repository_default() {
    let task = task(StrategyMode::Manual, Some("opus"), Some("max"));

    let effective = effective_strategy(
        &task,
        &defaults(StrategyMode::Default, Some("haiku"), Some("low")),
        &defaults(StrategyMode::Default, Some("sonnet"), Some("medium")),
    );

    assert_eq!(effective.model.as_deref(), Some("opus"));
    assert_eq!(effective.effort.as_deref(), Some("max"));
    assert_eq!(effective.model_origin, StrategyOrigin::Task);
    assert_eq!(effective.effort_origin, StrategyOrigin::Task);
    assert_eq!(effective.mode, StrategyMode::Manual);
}

#[test]
fn a_task_in_default_mode_ignores_a_stale_model_and_takes_the_repository_default() {
    let task = task(StrategyMode::Default, Some("opus"), Some("max"));

    let effective = effective_strategy(
        &task,
        &defaults(StrategyMode::Default, Some("haiku"), Some("low")),
        &defaults(StrategyMode::Default, None, None),
    );

    assert_eq!(effective.model.as_deref(), Some("haiku"));
    assert_eq!(effective.effort.as_deref(), Some("low"));
    assert_eq!(effective.model_origin, StrategyOrigin::Repository);
    assert_eq!(effective.effort_origin, StrategyOrigin::Repository);
}

#[test]
fn an_absent_repository_default_falls_through_to_the_global_one() {
    let task = task(StrategyMode::Default, None, None);

    let effective = effective_strategy(
        &task,
        &StrategyDefaults::default(),
        &defaults(StrategyMode::Manual, Some("sonnet"), Some("medium")),
    );

    assert_eq!(effective.mode, StrategyMode::Manual);
    assert_eq!(effective.model.as_deref(), Some("sonnet"));
    assert_eq!(effective.effort.as_deref(), Some("medium"));
    assert_eq!(effective.model_origin, StrategyOrigin::Global);
    assert_eq!(effective.effort_origin, StrategyOrigin::Global);
}

#[test]
fn model_and_effort_fall_through_independently_of_each_other() {
    let task = task(StrategyMode::Manual, Some("opus"), None);

    let effective = effective_strategy(
        &task,
        &defaults(StrategyMode::Default, None, Some("high")),
        &defaults(StrategyMode::Default, Some("sonnet"), Some("low")),
    );

    assert_eq!(effective.model.as_deref(), Some("opus"));
    assert_eq!(effective.model_origin, StrategyOrigin::Task);
    assert_eq!(effective.effort.as_deref(), Some("high"));
    assert_eq!(effective.effort_origin, StrategyOrigin::Repository);
}

#[test]
fn a_repository_default_of_planned_makes_an_untouched_task_planned() {
    let task = task(StrategyMode::Default, None, None);

    let effective = effective_strategy(
        &task,
        &defaults(StrategyMode::Planned, None, None),
        &defaults(StrategyMode::Manual, Some("sonnet"), None),
    );

    assert_eq!(
        effective.mode,
        StrategyMode::Planned,
        "the nearer level wins the mode, exactly as it wins the model"
    );
    assert_eq!(effective.model.as_deref(), Some("sonnet"));
    assert_eq!(effective.model_origin, StrategyOrigin::Global);
}

#[test]
fn nothing_configured_anywhere_leaves_both_flags_off_so_the_cli_chooses() {
    let task = task(StrategyMode::Default, None, None);

    let effective = effective_strategy(
        &task,
        &StrategyDefaults::default(),
        &StrategyDefaults::default(),
    );

    assert_eq!(effective.mode, StrategyMode::Default);
    assert_eq!(effective.model, None);
    assert_eq!(effective.effort, None);
    assert_eq!(effective.model_origin, StrategyOrigin::ClaudeCode);
    assert_eq!(effective.effort_origin, StrategyOrigin::ClaudeCode);
}

#[test]
fn a_planned_task_still_carries_the_model_its_planner_wrote() {
    let task = task(StrategyMode::Planned, Some("sonnet"), Some("high"));

    let effective = effective_strategy(
        &task,
        &defaults(StrategyMode::Default, Some("haiku"), Some("low")),
        &StrategyDefaults::default(),
    );

    assert_eq!(effective.mode, StrategyMode::Planned);
    assert_eq!(effective.model.as_deref(), Some("sonnet"));
    assert_eq!(effective.effort.as_deref(), Some("high"));
    assert_eq!(effective.model_origin, StrategyOrigin::Task);
}

fn defaults(mode: StrategyMode, model: Option<&str>, effort: Option<&str>) -> StrategyDefaults {
    StrategyDefaults {
        mode,
        model: model.map(str::to_string),
        effort: effort.map(str::to_string),
    }
}

fn task(mode: StrategyMode, model: Option<&str>, effort: Option<&str>) -> Task {
    Task {
        id: "3f2b1c00-0000-4000-8000-000000000001".to_string(),
        repository_id: "3f2b1c00-0000-4000-8000-000000000002".to_string(),
        title: "Wire the board to the store".to_string(),
        plan: None,
        extra_instructions: None,
        column: BoardColumn::Ready,
        position: Position { bits: 1.0f64.to_bits() },
        run_state: RunState::Idle,
        branch: None,
        worktree_path: None,
        strategy_mode: mode,
        model: model.map(str::to_string),
        effort: effort.map(str::to_string),
        strategy_plan: None,
        strategy_source: None,
        strategy_updated_at: None,
        created_at: epoch(),
        updated_at: epoch(),
        source: MutationSource::Ui,
    }
}
