//! The stored defaults, the approval, and the catalogue.

use rimaia_core::db::StrategyMode;
use rimaia_core::error::Error;
use rimaia_core::strategy::catalogue::{
    catalogue, set_catalogue, Catalogue, CatalogueEntry, PlannerBudget, RawCatalogue,
    StoredCatalogue, DEFAULT_PLANNER_MAX_TURNS,
};
use rimaia_core::strategy::settings::{
    approval, defaults_at, repository_default_key, StoredDefaults, StrategyApproval,
    StrategyDefaults, STRATEGY_APPROVAL, STRATEGY_DEFAULT,
};
use rimaia_core::testing::provider::Ledger;

fn nothing_written() -> RawCatalogue {
    RawCatalogue { models: None, efforts: None, planner: None }
}

/// The model list of a stored text, as a document that leaves the rest out.
fn written(text: &str) -> RawCatalogue {
    let document: serde_json::Value = serde_json::from_str(text).expect("a document");
    let word = |entry: &serde_json::Value, key: &str| {
        entry.get(key).and_then(|value| value.as_str()).expect("a text").to_string()
    };
    let models = document.get("models").and_then(|models| models.as_array()).map(|models| {
        models
            .iter()
            .map(|entry| CatalogueEntry { id: word(entry, "id"), label: word(entry, "label") })
            .collect()
    });
    RawCatalogue { models, ..nothing_written() }
}

#[test]
fn a_repository_default_has_a_key_that_names_the_repository() {
    assert_eq!(
        repository_default_key("3f2b1c00-0000-4000-8000-000000000002"),
        "strategy_default.3f2b1c00-0000-4000-8000-000000000002",
    );
}

#[test]
fn defaults_that_are_absent_or_unreadable_are_no_opinion() {
    let stored = StrategyDefaults {
        mode: StrategyMode::Manual,
        model: Some("haiku".to_string()),
        effort: Some("low".to_string()),
    };
    assert_eq!(defaults_at(StoredDefaults::Read(stored.clone())), stored);
    assert_eq!(defaults_at(StoredDefaults::Absent), StrategyDefaults::default());
    assert_eq!(defaults_at(StoredDefaults::Unreadable), StrategyDefaults::default());
}

#[test]
fn only_the_exact_word_makes_a_proposal_wait() {
    assert_eq!(approval(&None), StrategyApproval::Automatic);
    assert_eq!(approval(&Some("manual".to_string())), StrategyApproval::Manual);
    assert_eq!(approval(&Some("Manual".to_string())), StrategyApproval::Automatic);
    for value in [StrategyApproval::Automatic, StrategyApproval::Manual] {
        assert_eq!(StrategyApproval::from_stored(value.as_str()), value);
    }
}

#[test]
fn an_unconfigured_catalogue_is_the_providers_own_default() {
    assert_eq!(
        catalogue(StoredCatalogue::Absent, Ledger.default_catalogue()),
        Ledger.default_catalogue(),
    );
    assert_eq!(
        catalogue(StoredCatalogue::Unreadable, Ledger.default_catalogue()),
        Ledger.default_catalogue(),
    );
}

#[test]
fn an_explicitly_empty_model_list_means_no_choices_not_the_default_list() {
    let raw = RawCatalogue { models: Some(Vec::new()), ..nothing_written() };
    let stored = catalogue(StoredCatalogue::Read(raw), Ledger.default_catalogue());

    assert_eq!(stored.models, Vec::new());
    assert_eq!(stored.efforts, Ledger.default_catalogue().efforts);
    assert_eq!(stored.planner, Ledger.default_catalogue().planner);
}

#[test]
fn an_unedited_catalogue_and_planner_budget_carry_no_providers_opinion() {
    assert_eq!(Catalogue::default().models, Vec::<CatalogueEntry>::new());
    assert_eq!(Catalogue::default().efforts, Vec::<CatalogueEntry>::new());
    assert_eq!(PlannerBudget::default().model, None);
    assert_eq!(PlannerBudget::default().effort, None);
    assert_eq!(PlannerBudget::default().max_turns, DEFAULT_PLANNER_MAX_TURNS);
}

#[test]
fn an_edited_catalogue_round_trips_as_the_text_that_was_typed() {
    let edited = r#"{"models": [{ "id": "opus-5", "label": "Opus 5" }]}"#;
    let stored = set_catalogue(&format!("  {edited}\n"), Ok(written(edited)))
        .expect("store an edited catalogue");

    assert_eq!(
        stored, edited,
        "the user's own formatting is what Settings shows them next time"
    );
    assert_eq!(
        catalogue(StoredCatalogue::Read(written(&stored)), Ledger.default_catalogue()).models,
        vec![CatalogueEntry { id: "opus-5".to_string(), label: "Opus 5".to_string() }],
        "a model id nobody compiled is offered without a code change"
    );
}

#[test]
fn writing_an_unparseable_catalogue_is_refused_with_the_parser_s_own_message() {
    assert_eq!(
        set_catalogue(
            "{ models: [] }",
            Err("key must be a string at line 1 column 3".to_string()),
        ),
        Err(Error::invalid(
            "the catalogue is not valid JSON: key must be a string at line 1 column 3".to_string()
        )),
    );
}

#[test]
fn an_absent_approval_setting_is_automatic() {
    assert_eq!(STRATEGY_APPROVAL, "strategy_approval");
    assert_eq!(approval(&None), StrategyApproval::Automatic);
    assert_eq!(StrategyApproval::default(), StrategyApproval::Automatic);
}

#[test]
fn a_stored_approval_round_trips_through_its_spelling() {
    let stored = StrategyApproval::Manual.as_str().to_string();
    assert_eq!(stored, "manual");
    assert_eq!(approval(&Some(stored)), StrategyApproval::Manual);
}

#[test]
fn a_hand_edited_approval_falls_back_to_automatic_instead_of_failing() {
    assert_eq!(approval(&Some("ask me".to_string())), StrategyApproval::Automatic);
}

#[test]
fn an_absent_default_is_no_opinion_at_either_level() {
    assert_eq!(defaults_at(StoredDefaults::Absent), StrategyDefaults::default());
    assert_eq!(StrategyDefaults::default().mode, StrategyMode::Default);
    assert_ne!(
        repository_default_key("3f2b1c00-0000-4000-8000-000000000002"),
        STRATEGY_DEFAULT,
        "the two levels are two keys"
    );
}

#[test]
fn a_planner_with_no_model_passes_no_model_flag_at_all() {
    let raw = RawCatalogue { planner: Some(PlannerBudget::default()), ..nothing_written() };
    let planner = catalogue(StoredCatalogue::Read(raw), Ledger.default_catalogue()).planner;

    assert_eq!(planner.model, None);
    assert_eq!(planner.effort, None);
    assert_eq!(
        planner.max_turns, DEFAULT_PLANNER_MAX_TURNS,
        "the turn budget is a safety bound, so it fills in even here"
    );
}
