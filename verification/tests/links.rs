//! Links and places.

use rimaia_core::db::{Position, TaskLink};
use rimaia_core::error::{Error, ErrorCode};
use rimaia_core::instant::Instant;
use rimaia_core::tasks::links::{
    add_task_link, check_reorder, ensure_task_exists, get_task_link, remove_task_link,
    reorder_task_link, update_task_link, LinkChange,
};
use rimaia_core::tasks::placing::{
    alone, append, between, placed, Neighbour, Noun, Placed, Placement, PlacingStep,
};
use rimaia_core::tasks::service::TaskStamp;
use rimaia_core::tasks::types::{NewTaskLink, TaskLinkPatch};

fn place(at: f64) -> Position {
    Position { bits: at.to_bits() }
}

fn now() -> Instant {
    Instant { seconds: 1_787_230_800, nanos: 0 }
}

fn stamp() -> TaskStamp {
    TaskStamp { task_id: "t".to_string(), updated_at: now() }
}

fn link(id: &str) -> TaskLink {
    TaskLink {
        id: id.to_string(),
        task_id: "t".to_string(),
        label: "spec".to_string(),
        url: "https://x".to_string(),
        position: place(1.0),
    }
}

#[test]
fn a_link_needs_a_label_and_a_url() {
    let new = |label: &str, url: &str| NewTaskLink { label: label.to_string(), url: url.to_string() };
    let added = add_task_link("t", new("spec", "https://x"), place(1.0), "l".to_string(), now());
    assert_eq!(added, Ok(LinkChange { link: link("l"), stamp: stamp() }));
    assert_eq!(
        add_task_link("t", new(" ", "https://x"), place(1.0), "l".to_string(), now()),
        Err(Error::invalid("a task link needs a non-blank label".to_string())),
    );
    assert_eq!(
        add_task_link("t", new("spec", ""), place(1.0), "l".to_string(), now()),
        Err(Error::invalid("a task link needs a non-blank url".to_string())),
    );
}

#[test]
fn an_edit_of_a_link_changes_what_it_names() {
    let patch = TaskLinkPatch { label: Some("docs".to_string()), url: None };
    let edited = update_task_link("l", Some(link("l")), patch, now()).expect("a link");
    assert_eq!(edited.link.label, "docs");
    assert_eq!(edited.link.url, "https://x");
    assert_eq!(edited.stamp, stamp());

    let missing = get_task_link("l", None).expect_err("no such link");
    assert_eq!(missing.code(), ErrorCode::NotFound);
    assert_eq!(missing.message, "no task link with id l");
    assert_eq!(remove_task_link("l", Some(link("l")), now()), Ok(stamp()));
    assert!(ensure_task_exists("t", 1).is_ok());
    assert!(ensure_task_exists("t", 0).is_err());
}

#[test]
fn a_link_is_not_put_next_to_itself() {
    let row = Some(link("l"));
    let itself = Some("l".to_string());
    assert_eq!(
        check_reorder("l", &row, &itself, &None),
        Err(Error::invalid("a link cannot be reordered next to itself".to_string())),
    );
    assert!(check_reorder("l", &row, &None, &None).is_ok());
    let moved = reorder_task_link(link("l"), place(4.0), now());
    assert_eq!(moved.link, TaskLink { position: place(4.0), ..link("l") });
    assert_eq!(moved.stamp, stamp());
}

#[test]
fn a_place_is_computed_between_neighbours_that_are_there() {
    let there = |id: &str, at: f64| Some(Neighbour { id: id.to_string(), found: Some(place(at)) });
    assert_eq!(
        between(Noun::Task, &there("a", 1.0), &there("b", 2.0)),
        PlacingStep::Compute { above: Some(place(1.0)), below: Some(place(2.0)) },
    );
    assert_eq!(between(Noun::Task, &None, &None), PlacingStep::CheckOthers);
    assert_eq!(
        append(Some(place(3.0))),
        PlacingStep::Compute { above: Some(place(3.0)), below: None },
    );

    let gone = Some(Neighbour { id: "a".to_string(), found: None });
    match between(Noun::Task, &gone, &None) {
        PlacingStep::Refuse(error) => {
            assert_eq!(error.code(), ErrorCode::Invalid);
            assert!(error.message.starts_with("task a is not in the destination column"));
        }
        other => panic!("a neighbour elsewhere is refused: {other:?}"),
    }
}

#[test]
fn no_neighbours_is_only_for_an_empty_column() {
    assert!(alone(Noun::Task, false).is_ok());
    assert_eq!(alone(Noun::Link, true).expect_err("others are there").code(), ErrorCode::Invalid);
}

#[test]
fn a_place_without_room_is_tried_once_more_after_a_rebalance() {
    assert_eq!(
        placed(Noun::Task, false, Placement::At(place(1.5)), None),
        PlacingStep::Done(Placed { position: place(1.5), rebalanced: Vec::new() }),
    );
    assert_eq!(
        placed(Noun::Task, false, Placement::NeedsRebalance, None),
        PlacingStep::Rebalance,
    );
    match placed(Noun::Task, false, Placement::NeedsRebalance, Some(Vec::new())) {
        PlacingStep::Refuse(error) => assert_eq!(error.code(), ErrorCode::Internal),
        other => panic!("there is no third try: {other:?}"),
    }
}
