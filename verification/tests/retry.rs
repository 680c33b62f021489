//! Whether and when a run is tried again.

use rimaia_core::db::ExitClass;
use rimaia_core::instant::{parse_instant, Instant};
use rimaia_core::scheduler::retry::{
    decide, jitter, AttemptHistory, GiveUpReason, RetryDecision, RetryKind,
    MAX_TRANSIENT_ATTEMPTS, USAGE_LIMIT_FALLBACK_POLL, USAGE_LIMIT_MAX_JITTER,
};

fn at(rfc3339: &str) -> Instant {
    parse_instant(rfc3339).expect("a literal timestamp must parse")
}

fn first(exit_class: ExitClass) -> AttemptHistory {
    AttemptHistory {
        exit_class,
        session_id: "0b6d3e2e-0000-4000-8000-00000000c0de".to_string(),
        attempts_in_session: 1,
        transient_attempts: u32::from(exit_class == ExitClass::Transient),
        interrupted_attempts: u32::from(exit_class == ExitClass::Interrupted),
        usage_limit_resets_at: None,
    }
}

const NOW: &str = "2026-08-20T02:00:00Z";
const SEED: &str = "3f2b1c00-0000-4000-8000-000000000001";

#[test]
fn a_reported_reset_is_waited_for_plus_a_jitter_that_does_not_move_it_far() {
    let mut history = first(ExitClass::UsageLimit);
    history.usage_limit_resets_at = Some(at("2026-08-20T06:00:00Z"));

    let decision = decide(&history, at(NOW), SEED);

    let RetryDecision::ResumeAt { at: resume, kind } = decision else {
        panic!("a usage limit is always retried: {decision:?}");
    };
    assert_eq!(kind, RetryKind::UsageLimit);
    assert!(
        resume >= at("2026-08-20T06:00:00Z")
            && resume <= at("2026-08-20T06:00:00Z").plus_seconds(USAGE_LIMIT_MAX_JITTER),
        "{resume:?} is not the reported reset plus at most a minute",
    );
}

#[test]
fn usage_limit_without_reset_time_falls_back_to_fixed_poll() {
    let decision = decide(&first(ExitClass::UsageLimit), at(NOW), SEED);

    let RetryDecision::ResumeAt { at: resume, .. } = decision else {
        panic!("a usage limit is always retried: {decision:?}");
    };
    let poll = at(NOW).plus_seconds(USAGE_LIMIT_FALLBACK_POLL);
    assert!(
        resume >= poll && resume <= poll.plus_seconds(USAGE_LIMIT_MAX_JITTER),
        "{resume:?} is not fifteen minutes out",
    );
}

#[test]
fn a_usage_limit_is_retried_however_many_walls_the_session_has_already_hit() {
    let history = AttemptHistory { attempts_in_session: 40, ..first(ExitClass::UsageLimit) };

    assert!(matches!(
        decide(&history, at(NOW), SEED),
        RetryDecision::ResumeAt { kind: RetryKind::UsageLimit, .. }
    ));
}

#[test]
fn a_reset_time_already_in_the_past_resumes_now_rather_than_then() {
    let mut history = first(ExitClass::UsageLimit);
    history.usage_limit_resets_at = Some(at("2026-08-20T01:00:00Z"));

    let RetryDecision::ResumeAt { at: resume, .. } = decide(&history, at(NOW), SEED) else {
        panic!("a usage limit is always retried");
    };

    assert!(resume >= at(NOW), "{resume:?} is before the clock");
}

#[test]
fn transient_failures_back_off_one_five_then_fifteen_minutes_and_stay_there() {
    for (attempt, seconds) in [(1, 60), (2, 300), (3, 900), (4, 900)] {
        let history = AttemptHistory {
            attempts_in_session: attempt,
            transient_attempts: attempt,
            ..first(ExitClass::Transient)
        };

        assert_eq!(
            decide(&history, at(NOW), SEED),
            RetryDecision::ResumeAt {
                at: at(NOW).plus_seconds(seconds),
                kind: RetryKind::Transient,
            },
            "attempt {attempt}",
        );
    }
}

#[test]
fn a_fifteen_minute_backoff_is_decided_without_the_clock_moving() {
    let history = AttemptHistory {
        attempts_in_session: 3,
        transient_attempts: 3,
        ..first(ExitClass::Transient)
    };

    let decided_at = at(NOW);
    assert_eq!(
        decide(&history, decided_at, SEED),
        RetryDecision::ResumeAt {
            at: decided_at.plus_seconds(15 * 60),
            kind: RetryKind::Transient,
        },
    );
}

#[test]
fn transient_retries_stop_at_the_cap() {
    let history = AttemptHistory {
        attempts_in_session: MAX_TRANSIENT_ATTEMPTS,
        transient_attempts: MAX_TRANSIENT_ATTEMPTS,
        ..first(ExitClass::Transient)
    };

    assert_eq!(
        decide(&history, at(NOW), SEED),
        RetryDecision::GiveUp {
            reason: GiveUpReason::AttemptsExhausted { attempts: MAX_TRANSIENT_ATTEMPTS },
        },
    );
}

#[test]
fn an_interrupted_run_resumes_once_immediately_and_then_backs_off_like_a_transient_one() {
    assert_eq!(
        decide(&first(ExitClass::Interrupted), at(NOW), SEED),
        RetryDecision::ResumeAt { at: at(NOW), kind: RetryKind::Interrupted },
    );

    let twice = AttemptHistory {
        attempts_in_session: 2,
        interrupted_attempts: 2,
        ..first(ExitClass::Interrupted)
    };
    assert_eq!(
        decide(&twice, at(NOW), SEED),
        RetryDecision::ResumeAt { at: at(NOW).plus_seconds(60), kind: RetryKind::Transient },
    );
}

#[test]
fn interruptions_after_the_first_spend_the_same_budget_transient_failures_do() {
    let history = AttemptHistory {
        attempts_in_session: 7,
        transient_attempts: 2,
        interrupted_attempts: 5,
        ..first(ExitClass::Interrupted)
    };

    assert_eq!(
        decide(&history, at(NOW), SEED),
        RetryDecision::GiveUp { reason: GiveUpReason::AttemptsExhausted { attempts: 6 } },
    );
}

#[test]
fn a_fatal_run_is_not_retried() {
    for class in [ExitClass::Fatal, ExitClass::Cancelled, ExitClass::Success] {
        assert_eq!(
            decide(&first(class), at(NOW), SEED),
            RetryDecision::GiveUp { reason: GiveUpReason::NotRetryable(class) },
            "{class:?}",
        );
    }
}

#[test]
fn a_decision_not_to_retry_stores_no_deadline() {
    assert_eq!(decide(&first(ExitClass::Fatal), at(NOW), SEED).resume_after(), None);
    assert!(decide(&first(ExitClass::UsageLimit), at(NOW), SEED).resume_after().is_some());
}

#[test]
fn the_same_run_always_jitters_by_the_same_amount() {
    assert_eq!(jitter(SEED, USAGE_LIMIT_MAX_JITTER), jitter(SEED, USAGE_LIMIT_MAX_JITTER));
}

#[test]
fn two_tasks_hitting_one_wall_do_not_resume_in_the_same_instant() {
    let offsets: std::collections::HashSet<i64> = (0..64)
        .map(|index| jitter(&format!("run-{index}"), USAGE_LIMIT_MAX_JITTER))
        .collect();

    assert!(
        offsets.len() > 16,
        "64 run ids landed on only {} distinct offsets",
        offsets.len(),
    );
}

#[test]
fn a_jittered_offset_never_leaves_the_span_it_was_given() {
    for index in 0..256 {
        let offset = jitter(&format!("run-{index}"), USAGE_LIMIT_MAX_JITTER);
        assert!(
            offset >= 0 && offset <= USAGE_LIMIT_MAX_JITTER,
            "run-{index} jittered by {offset}",
        );
    }
    assert_eq!(jitter(SEED, 0), 0);
    assert_eq!(jitter(SEED, -5), 0);
}

#[test]
fn the_jitter_is_the_hash_of_the_seed_within_the_span() {
    fn fnv(seed: &str) -> u64 {
        seed.bytes().fold(0xcbf2_9ce4_8422_2325, |hash: u64, byte| {
            (hash ^ u64::from(byte)).wrapping_mul(0x0000_0100_0000_01b3)
        })
    }
    for seed in ["", "a", SEED, "\u{e9}\u{1f980}"] {
        assert_eq!(jitter(seed, 60), (fnv(seed) % 61) as i64, "{seed:?}");
    }
}

#[test]
fn both_ends_of_every_span_are_reached() {
    assert_eq!(jitter("", 60), 60);
    for seed in ["!0IC=VloaY", "77kepQFQ8Kl"] {
        for span in [1, 59, 60, 900, i64::MAX] {
            assert_eq!(jitter(seed, span), 0, "{seed:?} in {span}");
        }
    }
    let reached: std::collections::BTreeSet<i64> =
        (0..2000).map(|index| jitter(&format!("run-{index}"), 60)).collect();
    assert_eq!(reached.into_iter().collect::<Vec<_>>(), (0..=60).collect::<Vec<_>>());
}
