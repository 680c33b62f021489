//! What creating, editing and reading a task does.

use rimaia_core::db::{
    BoardColumn, MutationSource, Position, RunState, StrategyMode, Task,
};
use rimaia_core::error::{Error, ErrorCode};
use rimaia_core::instant::Instant;
use rimaia_core::strategy::resolve::{EffectiveStrategy, StrategyOrigin};
use rimaia_core::strategy::settings::StrategyDefaults;
use rimaia_core::tasks::placing::Placed;
use rimaia_core::tasks::service::{
    apply_effective_strategy, check_move, create_task, delete_task, get_task, list_tasks,
    move_task, prepare_task, repositories_of, resolve_strategy_mode, strongest_origin, update_task,
    Destination, TaskSummary, TASK_SUMMARY_SELECT,
};
use rimaia_core::tasks::types::{NewTask, NewTaskLink, Patch, TaskFilter, TaskPatch};
use rimaia_core::textmap::TextMap;

const ALL: [BoardColumn; 4] =
    [BoardColumn::NotReady, BoardColumn::Ready, BoardColumn::InReview, BoardColumn::Done];

fn epoch() -> Instant {
    Instant { seconds: 1_787_227_200, nanos: 0 }
}

fn place(at: f64) -> Position {
    Position { bits: at.to_bits() }
}

fn resolved(model_origin: StrategyOrigin, effort_origin: StrategyOrigin) -> EffectiveStrategy {
    EffectiveStrategy {
        mode: StrategyMode::Default,
        model: None,
        effort: None,
        model_origin,
        effort_origin,
    }
}

fn task(id: &str, repository_id: &str) -> Task {
    Task {
        id: id.to_string(),
        repository_id: repository_id.to_string(),
        title: "A card".to_string(),
        plan: None,
        extra_instructions: None,
        column: BoardColumn::Ready,
        position: place(1.0),
        run_state: RunState::Idle,
        branch: None,
        worktree_path: None,
        strategy_mode: StrategyMode::Default,
        model: None,
        effort: None,
        strategy_plan: None,
        strategy_source: None,
        strategy_updated_at: None,
        created_at: epoch(),
        updated_at: epoch(),
        source: MutationSource::Ui,
    }
}

fn card(repository_id: &str, mode: StrategyMode, model: Option<&str>) -> TaskSummary {
    let mut row = task("a-card", repository_id);
    row.strategy_mode = mode;
    row.model = model.map(str::to_string);
    TaskSummary {
        task: row,
        link_count: 0,
        dependency_count: 0,
        blocked_by_incomplete: false,
        blocking_title: None,
        last_run: None,
        effective_model: None,
        effective_effort: None,
        effective_origin: StrategyOrigin::ClaudeCode,
    }
}

#[test]
fn choosing_a_model_takes_the_task_over_and_makes_it_manual() {
    assert_eq!(
        resolve_strategy_mode(None, StrategyMode::Default, true, false),
        StrategyMode::Manual,
    );
}

#[test]
fn clearing_both_of_them_hands_a_manual_task_back_to_the_default() {
    assert_eq!(
        resolve_strategy_mode(None, StrategyMode::Manual, true, true),
        StrategyMode::Default,
    );
}

#[test]
fn an_explicit_mode_wins_over_what_the_fields_imply() {
    assert_eq!(
        resolve_strategy_mode(
            Some(StrategyMode::Planned),
            StrategyMode::Default,
            true,
            false
        ),
        StrategyMode::Planned,
    );
    assert_eq!(
        resolve_strategy_mode(Some(StrategyMode::Manual), StrategyMode::Manual, true, true),
        StrategyMode::Manual,
        "asking for manual while clearing both is still asking for manual",
    );
}

#[test]
fn clearing_both_of_them_does_not_drag_a_planned_task_back_to_the_default() {
    assert_eq!(
        resolve_strategy_mode(None, StrategyMode::Planned, true, true),
        StrategyMode::Planned,
    );
    assert_eq!(
        resolve_strategy_mode(None, StrategyMode::Planned, false, true),
        StrategyMode::Planned,
        "an edit that touched neither field is not an edit to the mode",
    );
}

#[test]
fn an_edit_that_names_neither_field_leaves_the_mode_exactly_as_it_was() {
    for mode in [
        StrategyMode::Default,
        StrategyMode::Manual,
        StrategyMode::Planned,
    ] {
        assert_eq!(resolve_strategy_mode(None, mode, false, false), mode);
    }
}


#[test]
fn a_card_that_names_its_own_model_does_not_claim_to_be_showing_a_default() {
    assert_eq!(
        strongest_origin(&resolved(StrategyOrigin::Task, StrategyOrigin::Repository)),
        StrategyOrigin::Task,
    );
    assert_eq!(
        strongest_origin(&resolved(StrategyOrigin::Repository, StrategyOrigin::Task)),
        StrategyOrigin::Task,
        "the more specific one wins whichever half it is",
    );
}

#[test]
fn the_origins_rank_task_then_repository_then_global_then_the_cli_itself() {
    let ranked = [
        StrategyOrigin::Task,
        StrategyOrigin::Repository,
        StrategyOrigin::Global,
        StrategyOrigin::ClaudeCode,
    ];
    for (at, stronger) in ranked.iter().enumerate() {
        for weaker in &ranked[at + 1..] {
            assert_eq!(
                strongest_origin(&resolved(*stronger, *weaker)),
                *stronger,
                "{stronger:?} beside {weaker:?}",
            );
            assert_eq!(strongest_origin(&resolved(*weaker, *stronger)), *stronger);
        }
    }
}

#[test]
fn two_halves_from_the_same_level_report_that_level() {
    assert_eq!(
        strongest_origin(&resolved(StrategyOrigin::Global, StrategyOrigin::Global)),
        StrategyOrigin::Global,
    );
}


#[test]
fn the_summary_query_ranks_columns_the_way_board_rank_does() {
    for column in ALL {
        assert!(
            TASK_SUMMARY_SELECT.contains(&format!(
                "WHEN '{}' THEN {}",
                column.as_sql(),
                column.board_rank(),
            )),
            "{column:?} is ranked differently in the query than in board_rank",
        );
    }
}

#[test]
fn the_summary_query_calls_exactly_in_review_and_done_satisfying() {
    let satisfying: Vec<&str> = ALL
        .into_iter()
        .filter(|column| column.satisfies_a_dependency())
        .map(BoardColumn::as_sql)
        .collect();

    assert_eq!(satisfying, vec!["in_review", "done"]);
    assert_eq!(
        TASK_SUMMARY_SELECT
            .matches("board_column NOT IN ('in_review', 'done')")
            .count(),
        2,
        "both dependency expressions must use the same satisfaction test",
    );
}

#[test]
fn every_card_resolves_against_its_own_repositorys_defaults_however_they_interleave() {
    let board = vec![
        card("first", StrategyMode::Default, None),
        card("second", StrategyMode::Default, None),
        card("first", StrategyMode::Manual, Some("sonnet")),
        card("second", StrategyMode::Default, None),
    ];
    assert_eq!(repositories_of(&board), vec!["first", "second"]);

    let mut repositories = TextMap::new();
    repositories.insert(
        "first".to_string(),
        StrategyDefaults {
            mode: StrategyMode::Default,
            model: Some("opus".to_string()),
            effort: Some("high".to_string()),
        },
    );
    repositories.insert("second".to_string(), StrategyDefaults::default());
    let global = StrategyDefaults {
        mode: StrategyMode::Default,
        model: Some("haiku".to_string()),
        effort: None,
    };

    let board = apply_effective_strategy(board, &repositories, &global);

    assert_eq!(
        board
            .iter()
            .map(|summary| (
                summary.effective_model.as_deref(),
                summary.effective_effort.as_deref(),
                summary.effective_origin,
            ))
            .collect::<Vec<_>>(),
        vec![
            (Some("opus"), Some("high"), StrategyOrigin::Repository),
            (Some("haiku"), None, StrategyOrigin::Global),
            (Some("sonnet"), Some("high"), StrategyOrigin::Task),
            (Some("haiku"), None, StrategyOrigin::Global),
        ],
    );
}

#[test]
fn an_empty_board_reads_no_defaults_at_all() {
    assert!(repositories_of(&Vec::new()).is_empty());
    let board =
        apply_effective_strategy(Vec::new(), &TextMap::new(), &StrategyDefaults::default());
    assert!(board.is_empty());
}

fn input(title: &str, plan: Option<&str>, column: Option<BoardColumn>) -> NewTask {
    NewTask {
        repository_id: "repository".to_string(),
        title: title.to_string(),
        plan: plan.map(str::to_string),
        extra_instructions: None,
        column,
        links: vec![NewTaskLink { label: "spec".to_string(), url: "https://x".to_string() }],
    }
}

#[test]
fn a_new_task_starts_idle_and_unready_with_its_links_in_order() {
    let prepared = prepare_task(input("Add slugs", Some("  \n"), None)).expect("a valid task");
    assert_eq!(prepared.column, BoardColumn::NotReady);
    assert_eq!(prepared.plan, None, "a blank plan is no plan");

    let created = create_task(
        prepared,
        Placed { position: place(2.0), rebalanced: Vec::new() },
        "new".to_string(),
        vec!["link".to_string()],
        epoch(),
        MutationSource::Mcp,
    );

    assert_eq!(created.task.id, "new");
    assert_eq!(created.task.run_state, RunState::Idle);
    assert_eq!(created.task.position, place(2.0));
    assert_eq!(created.task.source, MutationSource::Mcp);
    assert_eq!(created.links.len(), 1);
    assert_eq!(created.links[0].task_id, "new");
    assert_eq!(created.links[0].place, 0);
    assert_eq!(created.changed, vec!["new"]);
}

#[test]
fn a_blank_title_and_a_ready_task_without_a_plan_are_refused() {
    let blank = prepare_task(input(" \t", Some("a plan"), None)).expect_err("no title");
    assert_eq!(blank, Error::invalid("a task's title must not be blank".to_string()));

    let unplanned = prepare_task(input("Add slugs", Some(" "), Some(BoardColumn::Ready)))
        .expect_err("no plan");
    assert_eq!(
        unplanned,
        Error::invalid("cannot put \"Add slugs\" in ready without a plan".to_string()),
    );
    assert!(prepare_task(input("Add slugs", Some("a plan"), Some(BoardColumn::Ready))).is_ok());
}

fn patch() -> TaskPatch {
    TaskPatch {
        repository_id: None,
        title: None,
        plan: Patch::Unset,
        extra_instructions: Patch::Unset,
        model: Patch::Unset,
        effort: Patch::Unset,
        strategy_mode: None,
    }
}

fn planned(id: &str) -> Task {
    let mut row = task(id, "here");
    row.plan = Some("1. do it".to_string());
    row
}

#[test]
fn an_edit_changes_what_it_names_and_stamps_the_row() {
    let later = epoch().plus_seconds(5);
    let change = update_task(
        "t",
        Some(planned("t")),
        TaskPatch {
            title: Some("New".to_string()),
            model: Patch::Put("opus".to_string()),
            ..patch()
        },
        None,
        later,
    )
    .expect("a valid edit");

    assert_eq!(change.task.title, "New");
    assert_eq!(change.task.model, Some("opus".to_string()));
    assert_eq!(change.task.strategy_mode, StrategyMode::Manual);
    assert_eq!(change.task.plan, Some("1. do it".to_string()));
    assert_eq!(change.task.updated_at, later);
    assert_eq!(change.task.created_at, epoch());
    assert_eq!(change.changed, vec!["t"]);
}

#[test]
fn an_edit_that_takes_a_ready_tasks_plan_away_is_refused() {
    let error = update_task(
        "t",
        Some(planned("t")),
        TaskPatch { plan: Patch::Clear, ..patch() },
        None,
        epoch(),
    )
    .expect_err("a ready task needs a plan");
    assert_eq!(error.code(), ErrorCode::Invalid);

    let missing = update_task("t", None, patch(), None, epoch()).expect_err("no such task");
    assert_eq!(missing.code(), ErrorCode::NotFound);
}

#[test]
fn a_task_moves_to_another_repository_only_before_anything_ran() {
    let to_there = || TaskPatch { repository_id: Some("there".to_string()), ..patch() };
    let destination = |repositories: i64, run_count: i64| {
        Some(Destination {
            repositories,
            run_count,
            bottom: Ok(Placed { position: place(9.0), rebalanced: vec!["u".to_string()] }),
        })
    };

    let moved = update_task("t", Some(planned("t")), to_there(), destination(1, 0), epoch())
        .expect("nothing ran yet");
    assert_eq!(moved.task.repository_id, "there");
    assert_eq!(moved.task.position, place(9.0));
    assert_eq!(moved.changed, vec!["t", "u"]);

    let unknown = update_task("t", Some(planned("t")), to_there(), destination(0, 0), epoch())
        .expect_err("no such repository");
    assert_eq!(unknown, Error::not_found("no repository with id there".to_string()));

    let ran = update_task("t", Some(planned("t")), to_there(), destination(1, 2), epoch())
        .expect_err("two runs are recorded");
    assert!(ran.message.contains("2 runs have already been recorded"), "{}", ran.message);
}

#[test]
fn a_task_that_others_depend_on_is_not_deleted() {
    assert!(delete_task("t", true, &Vec::new()).is_ok());
    assert_eq!(
        delete_task("t", false, &Vec::new()).expect_err("no such task").code(),
        ErrorCode::NotFound,
    );
    let one = delete_task("t", true, &vec!["B".to_string()]).expect_err("one depends on it");
    assert!(one.message.contains("1 other task depends on it: B."), "{}", one.message);
    let two = delete_task("t", true, &vec!["B".to_string(), "C".to_string()])
        .expect_err("two depend on it");
    assert!(two.message.contains("2 other tasks depend on it: B, C."), "{}", two.message);
}

#[test]
fn a_move_needs_a_row_a_plan_and_other_neighbours() {
    let row = Some(task("t", "here"));
    let id = Some("t".to_string());
    assert_eq!(
        check_move("t", &row, BoardColumn::Done, &id, &None),
        Err(Error::invalid("a task cannot be moved next to itself".to_string())),
    );
    assert!(check_move("t", &row, BoardColumn::Ready, &None, &None).is_err());
    assert!(check_move("t", &row, BoardColumn::Done, &None, &None).is_ok());
    assert!(check_move("t", &None, BoardColumn::Done, &None, &None).is_err());

    let change = move_task(
        planned("t"),
        BoardColumn::Done,
        Placed { position: place(3.0), rebalanced: Vec::new() },
        epoch().plus_seconds(1),
    );
    assert_eq!(change.task.column, BoardColumn::Done);
    assert_eq!(change.task.position, place(3.0));
    assert_eq!(change.task.updated_at, epoch().plus_seconds(1));
}

#[test]
fn a_filter_adds_one_condition_per_field_it_names() {
    let all = list_tasks(&TaskFilter { repository_id: None, column: None, run_state: None });
    assert!(all.starts_with(TASK_SUMMARY_SELECT));
    assert!(!all.contains("AND t.run_state = ?"));

    let narrow = list_tasks(&TaskFilter {
        repository_id: Some("r".to_string()),
        column: Some(BoardColumn::Ready),
        run_state: Some(RunState::Idle),
    });
    let conditions = " AND t.repository_id = ? AND t.board_column = ? AND t.run_state = ? ORDER BY";
    assert!(narrow.contains(conditions), "{narrow}");
}

#[test]
fn reading_a_task_resolves_its_strategy() {
    let detail = get_task(
        "t",
        Some(planned("t")),
        Vec::new(),
        vec!["a".to_string()],
        None,
        &StrategyDefaults::default(),
        &StrategyDefaults {
            mode: StrategyMode::Default,
            model: Some("haiku".to_string()),
            effort: None,
        },
    )
    .expect("a task");
    assert_eq!(detail.effective_model, Some("haiku".to_string()));
    assert_eq!(detail.effective_origin, StrategyOrigin::Global);
    assert_eq!(detail.depends_on, vec!["a"]);
}
