//! How many runs, and how many per repository.

use rimaia_core::db::ScheduleMode;
use rimaia_core::error::ErrorCode;
use rimaia_core::scheduler::capacity::{
    configured, max_concurrency, mode_from_stored, resolve, schedule_mode, set_max_concurrency,
    usable_repository_concurrency, RepositoryLimit, Resolved, DEFAULT_MAX_CONCURRENCY,
    DEFAULT_PER_REPOSITORY,
};
use rimaia_core::scheduler::inflight::CONCURRENCY_CEILING;
use rimaia_core::textmap::TextMap;

fn stored(value: &str) -> Option<String> {
    Some(value.to_string())
}

#[test]
fn a_queue_nobody_has_configured_is_sequential_and_holds_one_run() {
    assert_eq!(schedule_mode(&None), ScheduleMode::Sequential);
    assert_eq!(resolve(&None, &None, &Vec::new()).global, 1);
}

#[test]
fn sequential_mode_resolves_to_one_slot_whatever_max_concurrency_says() {
    let limit = Some(set_max_concurrency(4).expect("store a global limit"));
    let sequential = stored(ScheduleMode::Sequential.as_str());
    let parallel = stored(ScheduleMode::Parallel.as_str());

    assert_eq!(resolve(&sequential, &limit, &Vec::new()).global, 1);
    assert_eq!(max_concurrency(&limit), 4, "the number the user chose is remembered");
    assert_eq!(resolve(&parallel, &limit, &Vec::new()).global, 4);
}

#[test]
fn a_hand_edited_max_concurrency_is_clamped_to_the_ceiling() {
    assert_eq!(max_concurrency(&stored("40")), CONCURRENCY_CEILING);
}

#[test]
fn a_hand_edited_max_concurrency_that_is_not_a_number_falls_back_rather_than_failing() {
    assert_eq!(max_concurrency(&None), DEFAULT_MAX_CONCURRENCY);
    for nonsense in ["two", "", "0", "-1", "2.5"] {
        assert_eq!(max_concurrency(&stored(nonsense)), DEFAULT_MAX_CONCURRENCY, "{nonsense:?}");
    }
}

#[test]
fn a_hand_edited_mode_falls_back_to_sequential_rather_than_to_parallel() {
    assert_eq!(schedule_mode(&stored("Parallel")), ScheduleMode::Sequential);
}

#[test]
fn a_limit_outside_the_range_is_refused_and_stores_nothing() {
    for refused in [0, CONCURRENCY_CEILING + 1] {
        let error = set_max_concurrency(refused).expect_err("a form must not be able to send this");
        assert_eq!(error.code(), ErrorCode::Invalid);
        assert!(
            error.message.contains("pause the queue"),
            "the refusal has to name the thing the user actually wants: {}",
            error.message
        );
    }
}

#[test]
fn the_mode_round_trips_through_the_spelling_it_stores() {
    for mode in [ScheduleMode::Sequential, ScheduleMode::Parallel] {
        assert_eq!(mode_from_stored(mode.as_str()), mode);
    }
}

#[test]
fn a_repository_that_has_not_opted_out_is_capped_at_one() {
    assert_eq!(usable_repository_concurrency("rimaia", 1), 1);
    assert_eq!(usable_repository_concurrency("rimaia", 3), 3);
}

#[test]
fn a_hand_edited_repository_cap_is_clamped_at_both_ends() {
    for stored in [0, -1, i64::MIN] {
        assert_eq!(
            usable_repository_concurrency("rimaia", stored),
            DEFAULT_PER_REPOSITORY,
            "{stored}",
        );
    }
    for stored in [CONCURRENCY_CEILING as i64 + 1, i64::MAX] {
        assert_eq!(
            usable_repository_concurrency("rimaia", stored),
            CONCURRENCY_CEILING,
            "{stored}",
        );
    }
}

#[test]
fn a_repository_the_map_does_not_name_still_has_a_limit() {
    let resolved = Resolved { global: 4, per_repository: TextMap::new() };

    assert_eq!(resolved.for_repository("gone"), DEFAULT_PER_REPOSITORY);
}

#[test]
fn every_stored_limit_reads_back() {
    for value in 1..=CONCURRENCY_CEILING {
        let text = set_max_concurrency(value).expect("a limit in the range");
        assert_eq!(text, value.to_string());
        assert_eq!(max_concurrency(&Some(text)), value);
    }
}

#[test]
fn each_repository_brings_its_own_cap() {
    let limit = |id: &str, max_concurrency: i64| RepositoryLimit {
        id: id.to_string(),
        name: id.to_string(),
        max_concurrency,
    };
    let resolved = resolve(&None, &None, &vec![limit("a", 3), limit("b", 0), limit("c", 99)]);

    assert_eq!(resolved.for_repository("a"), 3);
    assert_eq!(resolved.for_repository("b"), DEFAULT_PER_REPOSITORY);
    assert_eq!(resolved.for_repository("c"), CONCURRENCY_CEILING);
}

#[test]
fn the_configuration_shows_what_is_stored_and_the_ceiling() {
    let shown = configured(&stored("parallel"), &stored(" 5 "));
    assert_eq!(shown.mode, ScheduleMode::Parallel);
    assert_eq!(shown.max_concurrency, 5);
    assert_eq!(shown.ceiling, CONCURRENCY_CEILING);
}
