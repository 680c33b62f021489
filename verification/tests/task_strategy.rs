//! A planner's proposal, and whether one is still wanted.

use rimaia_core::db::{
    BoardColumn, MutationSource, Position, RunState, StrategyMode, StrategySource, Task,
};
use rimaia_core::error::{Error, ErrorCode};
use rimaia_core::instant::Instant;
use rimaia_core::strategy::settings::StrategyDefaults;
use rimaia_core::tasks::strategy::{
    accept_task_strategy, clear_task_strategy, needs_planning, set_task_strategy, StrategyPhase,
    StrategyPlan, StrategyPlanStatus, StrategyWorkflow,
};

const MALFORMED_RATIONALE: &str = "Sonnet is sufficient for the full-stack work. \
The plan explicitly identifies four independent parts, enabling efficient parallel \
execution.</anionale>\n<parameter name=\"workflow\">multi_agent";

fn proposal_with_phases(workflow: Option<StrategyWorkflow>) -> StrategyPlan {
    StrategyPlan {
        workflow,
        phases: vec![StrategyPhase {
            name: "Transcript viewer".to_string(),
            model: None,
            effort: None,
            agents: 1,
            summary: "Virtualized JSONL rendering".to_string(),
        }],
        ..StrategyPlan::proposed(Some("sonnet".to_string()), Some("high".to_string()))
    }
}

#[test]
fn phases_with_no_workflow_are_read_as_a_fan_out() {
    let repaired = proposal_with_phases(None).repaired();

    assert_eq!(repaired.workflow, Some(StrategyWorkflow::MultiAgent));
}

#[test]
fn an_explicit_single_agent_keeps_its_phases_without_becoming_a_fan_out() {
    let repaired = proposal_with_phases(Some(StrategyWorkflow::SingleAgent)).repaired();

    assert_eq!(repaired.workflow, Some(StrategyWorkflow::SingleAgent));
    assert_eq!(repaired.phases.len(), 1);
}

#[test]
fn a_proposal_with_no_phases_is_left_alone() {
    let repaired = StrategyPlan::proposed(Some("haiku".to_string()), None).repaired();

    assert_eq!(repaired.workflow, None);
}

#[test]
fn tool_call_debris_is_cut_off_the_end_of_a_rationale() {
    let repaired = StrategyPlan {
        rationale: Some(MALFORMED_RATIONALE.to_string()),
        ..proposal_with_phases(None)
    }
    .repaired();

    assert_eq!(
        repaired.rationale.as_deref(),
        Some(
            "Sonnet is sufficient for the full-stack work. The plan explicitly identifies \
four independent parts, enabling efficient parallel execution."
        ),
        "the sentence survives; the half-parsed tool call does not",
    );
}

#[test]
fn a_clean_rationale_is_returned_unchanged() {
    let clean = "Straightforward metadata edits in one file; no architectural decisions.";
    let repaired = StrategyPlan {
        rationale: Some(clean.to_string()),
        ..StrategyPlan::proposed(None, None)
    }
    .repaired();

    assert_eq!(repaired.rationale.as_deref(), Some(clean));
}

#[test]
fn a_failure_names_no_model_so_the_task_falls_back_to_the_default_chain() {
    let plan = StrategyPlan::failed(
        "stopped at max_turns without calling set_task_strategy".to_string(),
    );

    assert_eq!(plan.status, StrategyPlanStatus::Failed);
    assert_eq!(plan.model, None);
    assert_eq!(plan.effort, None);
    assert_eq!(
        plan.run.expect("a failure records its own reason").error,
        Some("stopped at max_turns without calling set_task_strategy".to_string()),
    );
}

#[test]
fn a_planned_task_with_nothing_recorded_is_planned() {
    assert!(needs_planning(&task(None), StrategyMode::Planned));
}

#[test]
fn a_recorded_proposal_stops_the_task_being_planned_again() {
    assert!(!needs_planning(
        &task(Some(
            r#"{"version":1,"status":"proposed","model":"sonnet"}"#
        )),
        StrategyMode::Planned,
    ));
}

#[test]
fn a_recorded_failure_also_stops_the_task_being_planned_again() {
    assert!(!needs_planning(
        &task(Some(r#"{"version":1,"status":"failed"}"#)),
        StrategyMode::Planned,
    ));
}

#[test]
fn an_unreadable_envelope_still_stops_the_task_being_planned_again() {
    assert!(!needs_planning(
        &task(Some("{ not json")),
        StrategyMode::Planned
    ));
}

#[test]
fn a_task_that_is_not_planned_is_never_planned_however_empty_its_columns_are() {
    assert!(!needs_planning(&task(None), StrategyMode::Default));
    assert!(!needs_planning(&task(None), StrategyMode::Manual));
}

#[test]
fn the_stored_version_is_this_builds_and_never_the_callers() {
    let mut plan = StrategyPlan::proposed(Some("opus".to_string()), None);
    plan.version = 99;

    assert_eq!(plan.clone().stamped().version, 1);
    assert_eq!(plan.for_storage().version, 1);
}

fn epoch() -> Instant {
    Instant { seconds: 1_787_227_200, nanos: 0 }
}

fn task(strategy_plan: Option<&str>) -> Task {
    Task {
        id: "3f2b1c00-0000-4000-8000-000000000001".to_string(),
        repository_id: "3f2b1c00-0000-4000-8000-000000000002".to_string(),
        title: "Wire the board to the store".to_string(),
        plan: None,
        extra_instructions: None,
        column: BoardColumn::Ready,
        position: Position { bits: 1.0f64.to_bits() },
        run_state: RunState::Idle,
        branch: None,
        worktree_path: None,
        strategy_mode: StrategyMode::Planned,
        model: None,
        effort: None,
        strategy_plan: strategy_plan.map(str::to_string),
        strategy_source: None,
        strategy_updated_at: None,
        created_at: epoch(),
        updated_at: epoch(),
        source: MutationSource::Ui,
    }
}

fn record(row: Option<Task>, source: StrategySource) -> Result<Task, Error> {
    set_task_strategy(
        "t",
        row,
        &StrategyDefaults::default(),
        &StrategyDefaults::default(),
        StrategyPlan::proposed(Some("opus".to_string()), Some("high".to_string())),
        "{}".to_string(),
        source,
        epoch().plus_seconds(1),
    )
}

#[test]
fn a_recorded_proposal_is_on_the_card_and_ends_the_planning() {
    let row = record(Some(task(None)), StrategySource::Planner).expect("a planned task");

    assert_eq!(row.strategy_plan, Some("{}".to_string()));
    assert_eq!(row.strategy_source, Some(StrategySource::Planner));
    assert_eq!(row.model, Some("opus".to_string()));
    assert_eq!(row.effort, Some("high".to_string()));
    assert!(!needs_planning(&row, StrategyMode::Planned));

    let cleared =
        clear_task_strategy("t", Some(row), epoch().plus_seconds(2)).expect("a task to clear");
    assert_eq!(cleared.strategy_plan, None);
    assert!(needs_planning(&cleared, StrategyMode::Planned), "clearing lifts the guard");
}

#[test]
fn a_planner_may_not_overrule_a_user() {
    let mut manual = task(None);
    manual.strategy_mode = StrategyMode::Manual;

    let refused = record(Some(manual.clone()), StrategySource::Planner)
        .expect_err("the strategy is the user's");
    assert_eq!(refused.code(), ErrorCode::Invalid);
    assert!(refused.message.contains("it is in manual mode"), "{}", refused.message);
    assert!(record(Some(manual), StrategySource::User).is_ok());
    assert_eq!(
        record(None, StrategySource::User).expect_err("no such task").code(),
        ErrorCode::NotFound,
    );
}

#[test]
fn only_a_proposal_that_is_there_can_be_accepted() {
    assert!(accept_task_strategy("t", Some(task(Some("{}"))), epoch()).is_ok());
    assert_eq!(
        accept_task_strategy("t", Some(task(None)), epoch()).expect_err("nothing to accept").code(),
        ErrorCode::Invalid,
    );
    assert_eq!(
        accept_task_strategy("t", None, epoch()).expect_err("no such task").code(),
        ErrorCode::NotFound,
    );
}

#[test]
fn a_rationale_that_was_repaired_needs_no_second_repair() {
    let once = StrategyPlan {
        rationale: Some(MALFORMED_RATIONALE.to_string()),
        ..proposal_with_phases(None)
    }
    .repaired();
    assert_eq!(once.clone().repaired(), once);
}

#[test]
fn what_is_stored_is_repaired_and_carries_this_builds_version() {
    let plan = StrategyPlan {
        version: 99,
        rationale: Some("Sonnet will do.</rationale>".to_string()),
        ..proposal_with_phases(None)
    };
    let document = plan.clone().for_storage();
    assert_eq!(document.version, 1);
    assert_eq!(document.workflow, Some(StrategyWorkflow::MultiAgent));
    assert_eq!(document.rationale.as_deref(), Some("Sonnet will do."));
    assert_eq!(document, plan.repaired().stamped());
}
