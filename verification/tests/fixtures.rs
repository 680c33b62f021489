//! The recorded streams.

use std::path::Path;

use rimaia_core::runner::provider::ProviderId;
use rimaia_core::testing::fixtures::{
    all_fixtures, all_for, dir_for, fixture_lines, fixture_path, fixtures_dir, has, lines_for,
    path_for, read_lines, scenario_names, Corpora, RecordedFile,
};

const ROOT: &str = "/work/rimaia/crates/core";

fn file(name: &str, contents: &str) -> RecordedFile {
    RecordedFile { name: name.to_string(), contents: contents.to_string() }
}

fn corpora() -> Corpora {
    Corpora {
        claude: Some(vec![
            file("success.jsonl", "{\"type\":\"system\"}\n{\"type\":\"result\"}\n"),
            file("interrupted-sigterm.jsonl", "{\"type\":\"system\"}\n"),
            file("README.md", "# recordings\n"),
        ]),
        ledger: Some(vec![
            file("finished.jsonl", "{\"kind\":\"finished\"}\n"),
            file("window-closed.jsonl", "{\"kind\":\"window\"}\n"),
        ]),
    }
}

#[test]
fn fixture_paths_resolve_against_the_crate_not_the_working_directory() {
    let path = fixture_path(ROOT, "success");

    assert!(Path::new(&path).is_absolute());
    assert!(
        Path::new(&path).ends_with("tests/fixtures/cli/success.jsonl"),
        "unexpected fixture layout: {path}",
    );
}

#[test]
fn each_provider_reads_its_own_corpus_and_only_its_own() {
    let corpora = corpora();
    let claude = all_for(&corpora, ProviderId::ClaudeCode);
    let ledger = all_for(&corpora, ProviderId::Ledger);

    assert!(!claude.is_empty());
    assert!(!ledger.is_empty());
    assert!(
        claude.iter().all(|name| !ledger.contains(name)),
        "the two corpora share a scenario name, so one of them is being read twice",
    );
    assert_eq!(fixtures_dir(ROOT), dir_for(ROOT, ProviderId::ClaudeCode));
    assert!(has(&corpora, ProviderId::Ledger, "finished"));
    assert!(path_for(ROOT, ProviderId::Ledger, "finished")
        .ends_with("/tests/fixtures/ledger/finished.jsonl"));
}

#[test]
fn blank_lines_are_skipped_but_whitespace_inside_a_line_is_kept() {
    assert_eq!(
        read_lines("{\"type\": \"system\"}\n\n   \n{\"type\": \"result\"}\n\n"),
        vec!["{\"type\": \"system\"}", "{\"type\": \"result\"}"]
    );
}

#[test]
fn every_discovered_name_reads_back_through_fixture_lines() {
    let corpora = corpora();
    let names = all_fixtures(&corpora);
    assert!(!names.is_empty(), "no recorded scenarios under {}", fixtures_dir(ROOT));

    for name in names {
        assert!(
            has(&corpora, ProviderId::ClaudeCode, &name),
            "{name} was discovered but does not resolve"
        );
        assert!(
            fixture_lines(&corpora, &name).len() > 0,
            "{name} is empty; a scenario needs at least one event"
        );
    }
}

#[test]
fn the_list_without_an_agent_is_the_first_agents_list() {
    let corpora = corpora();
    assert_eq!(all_fixtures(&corpora), all_for(&corpora, ProviderId::ClaudeCode));
    assert_ne!(all_fixtures(&corpora), all_for(&corpora, ProviderId::Ledger));

    let ledger = all_for(&corpora, ProviderId::Ledger);
    let alone = Corpora { claude: None, ledger: corpora.ledger };
    assert!(all_fixtures(&alone).is_empty());
    assert_eq!(all_for(&alone, ProviderId::Ledger), ledger);
}

#[test]
fn the_list_does_not_depend_on_the_order_of_the_directory() {
    let one = Some(vec![file("b.jsonl", ""), file("a.jsonl", ""), file("b-2.jsonl", "")]);
    let other = Some(vec![file("b-2.jsonl", ""), file("b.jsonl", ""), file("a.jsonl", "")]);
    assert_eq!(scenario_names(&one), ["a", "b", "b-2"]);
    assert_eq!(scenario_names(&one), scenario_names(&other));
}

#[test]
fn discovery_globs_jsonl_and_ignores_everything_else() {
    let listing = Some(vec![
        file("resume-success.jsonl", "{}\n"),
        file("max-turns.jsonl", "{}\n"),
        file("README.md", "{}\n"),
        file("nested", ""),
        file(".jsonl", ""),
        file("jsonl", ""),
    ]);

    assert_eq!(scenario_names(&listing), ["max-turns", "resume-success"]);
}

#[test]
fn a_missing_fixtures_directory_is_empty_rather_than_fatal() {
    assert!(scenario_names(&None).is_empty());
    let none = Corpora { claude: None, ledger: None };
    assert!(all_for(&none, ProviderId::Ledger).is_empty());
    assert!(!has(&none, ProviderId::Ledger, "finished"));
}

#[test]
fn a_scenario_is_read_from_its_own_agents_directory() {
    assert_eq!(
        lines_for(&corpora(), ProviderId::Ledger, "finished"),
        vec!["{\"kind\":\"finished\"}"],
    );
    assert_eq!(dir_for("/r/", ProviderId::Ledger), "/r/tests/fixtures/ledger");
    assert_eq!(path_for("", ProviderId::ClaudeCode, "x"), "tests/fixtures/cli/x.jsonl");
}
