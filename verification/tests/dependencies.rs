//! What may depend on what.

use rimaia_core::db::{
    BoardColumn, MutationSource, Position, RunState, StrategyMode, Task,
};
use rimaia_core::error::ErrorCode;
use rimaia_core::instant::Instant;
use rimaia_core::tasks::service::TaskStamp;
use rimaia_core::tasks::dependencies::{
    dedupe, find_path, set_task_dependencies, symmetric_difference, Edge,
};
use rimaia_core::textmap::TextMap;

fn edges(pairs: &[(&str, &str)]) -> Vec<Edge> {
    pairs
        .iter()
        .map(|(task, depends_on)| Edge {
            task_id: (*task).to_string(),
            depends_on: (*depends_on).to_string(),
        })
        .collect()
}

fn now() -> Instant {
    Instant { seconds: 1_787_230_800, nanos: 0 }
}

#[test]
fn find_path_reports_the_chain_it_walked() {
    let graph = edges(&[("b", "c"), ("c", "a")]);

    assert_eq!(
        find_path(&graph, "b", "a"),
        Some(vec!["b".to_string(), "c".to_string(), "a".to_string()])
    );
}

#[test]
fn find_path_returns_none_when_the_graph_is_a_forest() {
    let graph = edges(&[("d", "b"), ("d", "c"), ("b", "a"), ("c", "a")]);

    assert_eq!(find_path(&graph, "b", "d"), None);
    assert_eq!(find_path(&graph, "a", "d"), None);
}

#[test]
fn find_path_terminates_against_a_cycle_that_is_already_in_the_graph() {
    let graph = edges(&[("b", "c"), ("c", "b")]);

    assert_eq!(find_path(&graph, "b", "d"), None);
}

#[test]
fn find_path_finds_nothing_from_an_id_with_no_edges() {
    let graph = edges(&[("b", "c")]);

    assert_eq!(find_path(&graph, "lonely", "c"), None);
}

#[test]
fn find_path_finds_the_zero_length_path_to_itself() {
    let graph = edges(&[]);

    assert_eq!(find_path(&graph, "a", "a"), Some(vec!["a".to_string()]));
}

#[test]
fn dedupe_keeps_the_first_occurrence() {
    assert_eq!(
        dedupe(&vec!["b".to_string(), "a".to_string(), "b".to_string()]),
        vec!["b".to_string(), "a".to_string()]
    );
}

#[test]
fn the_symmetric_difference_names_every_task_that_gained_or_lost_an_edge() {
    let mut changed = symmetric_difference(
        &vec!["a".to_string(), "b".to_string()],
        &vec!["b".to_string(), "c".to_string()],
    );
    changed.sort();

    assert_eq!(changed, vec!["a".to_string(), "c".to_string()]);
}

fn task(id: &str, repository_id: &str) -> Task {
    let epoch = Instant { seconds: 1_787_227_200, nanos: 0 };
    Task {
        id: id.to_string(),
        repository_id: repository_id.to_string(),
        title: id.to_uppercase(),
        plan: None,
        extra_instructions: None,
        column: BoardColumn::Ready,
        position: Position { bits: 1.0f64.to_bits() },
        run_state: RunState::Idle,
        branch: None,
        worktree_path: None,
        strategy_mode: StrategyMode::Default,
        model: None,
        effort: None,
        strategy_plan: None,
        strategy_source: None,
        strategy_updated_at: None,
        created_at: epoch,
        updated_at: epoch,
        source: MutationSource::Ui,
    }
}

fn board(pairs: &[(&str, &str)]) -> (TextMap<Task>, TextMap<String>) {
    let mut rows = TextMap::new();
    let mut titles = TextMap::new();
    for (id, repository) in pairs {
        let row = task(id, repository);
        titles.insert((*id).to_string(), row.title.clone());
        rows.insert((*id).to_string(), row);
    }
    (rows, titles)
}

fn texts(ids: &[&str]) -> Vec<String> {
    ids.iter().map(|id| (*id).to_string()).collect()
}

#[test]
fn dependencies_that_close_no_cycle_are_stored_and_announced() {
    let (rows, titles) = board(&[("a", "r"), ("b", "r"), ("c", "r")]);
    let change = set_task_dependencies(
        "a",
        &Some(task("a", "r")),
        &texts(&["c", "b", "c"]),
        &rows,
        &edges(&[("a", "b")]),
        &texts(&["b"]),
        &titles,
        now(),
    )
    .expect("no cycle");

    assert_eq!(change.stamp, TaskStamp { task_id: "a".to_string(), updated_at: now() });

    assert_eq!(change.stored, vec!["c", "b"]);
    assert_eq!(change.sorted, vec!["b", "c"]);
    assert_eq!(change.changed, vec!["a", "c"]);
}

#[test]
fn dependencies_that_close_a_cycle_are_refused_with_the_chain() {
    let (rows, titles) = board(&[("a", "r"), ("b", "r"), ("c", "r")]);
    let error = set_task_dependencies(
        "a",
        &Some(task("a", "r")),
        &texts(&["b"]),
        &rows,
        &edges(&[("b", "c"), ("c", "a")]),
        &Vec::new(),
        &titles,
        now(),
    )
    .expect_err("a, b, c and a again");

    assert_eq!(error.code(), ErrorCode::Invalid);
    assert!(
        error.message.ends_with("\"A\" depends on \"B\" depends on \"C\" depends on \"A\""),
        "{}",
        error.message
    );
}

#[test]
fn every_other_objection_has_its_own_answer() {
    let (rows, titles) = board(&[("a", "r"), ("far", "elsewhere")]);
    let ask = |row: &Option<Task>, wanted: &[&str]| {
        set_task_dependencies(
            "a",
            row,
            &texts(wanted),
            &rows,
            &Vec::new(),
            &Vec::new(),
            &titles,
            now(),
        )
    };
    let row = Some(task("a", "r"));

    assert_eq!(ask(&None, &[]).expect_err("no task").code(), ErrorCode::NotFound);
    assert_eq!(
        ask(&row, &["a"]).expect_err("itself").message,
        "a task cannot depend on itself",
    );
    assert_eq!(ask(&row, &["gone"]).expect_err("no such task").message, "no task with id gone");
    let foreign = ask(&row, &["far"]).expect_err("another repository");
    assert!(foreign.message.contains("different repositories"), "{}", foreign.message);
    assert!(ask(&row, &[]).is_ok());
}
