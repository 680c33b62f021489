//! What the queue would do next.

use rimaia_core::db::{
    BoardColumn, ExitClass, MutationSource, Position, RunState, RunStatus, StrategyMode, Task,
};
use rimaia_core::instant::{parse_instant, Instant};
use rimaia_core::scheduler::inflight::Counts;
use rimaia_core::scheduler::selection::{
    next_batch, next_deadline, next_to_start, plan, scheduled_resume, skip_reason, QueueEntry,
    SkipReason,
};
use rimaia_core::strategy::resolve::StrategyOrigin;
use rimaia_core::tasks::service::{LastRunSummary, TaskSummary};
use rimaia_core::textmap::TextMap;

/// The instant every test below judges a deadline against.
const NOW: &str = "2026-08-20T02:00:00Z";

fn now() -> Instant {
    at(NOW)
}

/// A `ready`, idle, never-run task — the one shape the queue claims.
fn summary(run_state: RunState) -> TaskSummary {
    TaskSummary {
        task: Task {
            id: "3f2b1c00-0000-4000-8000-000000000001".to_string(),
            repository_id: "3f2b1c00-0000-4000-8000-000000000002".to_string(),
            title: "Add truncate_slug".to_string(),
            plan: Some("1. Add the function".to_string()),
            extra_instructions: None,
            column: BoardColumn::Ready,
            position: Position { bits: 1.0f64.to_bits() },
            run_state,
            branch: None,
            worktree_path: None,
            strategy_mode: StrategyMode::Default,
            model: None,
            effort: None,
            strategy_plan: None,
            strategy_source: None,
            strategy_updated_at: None,
            created_at: at("2026-08-20T12:00:00Z"),
            updated_at: at("2026-08-20T12:00:00Z"),
            source: MutationSource::Ui,
        },
        link_count: 0,
        dependency_count: 0,
        blocked_by_incomplete: false,
        blocking_title: None,
        last_run: None,
        effective_model: None,
        effective_effort: None,
        effective_origin: StrategyOrigin::ClaudeCode,
    }
}

fn at(rfc3339: &str) -> Instant {
    parse_instant(rfc3339).expect("a literal timestamp must parse")
}

/// A `waiting_retry` task whose policy decision is `resume_after`.
fn waiting(resume_after: Option<Instant>) -> TaskSummary {
    TaskSummary {
        last_run: Some(LastRunSummary {
            status: RunStatus::Failed,
            exit_class: Some(ExitClass::UsageLimit),
            ended_at: Some(at("2026-08-20T01:59:00Z")),
            resume_after,
        }),
        ..summary(RunState::WaitingRetry)
    }
}

#[test]
fn an_idle_task_in_an_opted_in_repository_is_the_only_thing_the_queue_claims() {
    assert_eq!(skip_reason(&summary(RunState::Idle), true, now()), None);
}

#[test]
fn the_repository_opt_in_outranks_every_other_reason() {
    for run_state in [RunState::Idle, RunState::Running, RunState::Failed] {
        assert_eq!(
            skip_reason(&summary(run_state), false, now()),
            Some(SkipReason::UnattendedRunsNotAllowed),
            "{run_state:?} in an un-opted repository"
        );
    }
}

#[test]
fn a_task_something_else_already_started_is_not_started_again() {
    for run_state in [RunState::Queued, RunState::Running] {
        assert_eq!(
            skip_reason(&summary(run_state), true, now()),
            Some(SkipReason::AlreadyInFlight),
            "{run_state:?}"
        );
    }
}

#[test]
fn a_waiting_task_is_passed_over_until_its_deadline_and_claimed_once_it_arrives() {
    assert_eq!(
        skip_reason(&waiting(Some(at("2026-08-20T06:00:00Z"))), true, now()),
        Some(SkipReason::WaitingForRetry),
    );
    assert_eq!(
        skip_reason(&waiting(Some(at("2026-08-20T02:00:00Z"))), true, now()),
        None,
        "a deadline exactly now is due, not still waiting",
    );
    assert_eq!(
        skip_reason(&waiting(Some(at("2026-08-20T01:00:00Z"))), true, now()),
        None,
    );
}

#[test]
fn a_task_waiting_on_nothing_is_not_the_queues_to_resume() {
    assert_eq!(
        skip_reason(&waiting(None), true, now()),
        Some(SkipReason::AlreadyInFlight),
    );
    assert_eq!(
        skip_reason(&summary(RunState::WaitingRetry), true, now()),
        Some(SkipReason::AlreadyInFlight),
        "and neither is one with no run at all",
    );
}

#[test]
fn a_task_whose_last_run_failed_waits_for_the_user_rather_than_being_retried() {
    for run_state in [RunState::Failed, RunState::Cancelled] {
        assert_eq!(
            skip_reason(&summary(run_state), true, now()),
            Some(SkipReason::NeedsAttention),
            "{run_state:?}"
        );
    }
}

#[test]
fn a_blocked_dependency_is_one_reason_whichever_of_its_two_spellings_says_so() {
    assert_eq!(
        skip_reason(&summary(RunState::Blocked), true, now()),
        Some(SkipReason::DependencyNotSatisfied)
    );

    let mut blocked = summary(RunState::Idle);
    blocked.blocked_by_incomplete = true;
    assert_eq!(
        skip_reason(&blocked, true, now()),
        Some(SkipReason::DependencyNotSatisfied)
    );
}

#[test]
fn only_a_task_that_is_waiting_carries_a_deadline_into_the_plan() {
    let due = at("2026-08-20T06:00:00Z");
    assert_eq!(scheduled_resume(&waiting(Some(due))), Some(due));

    let restarted = TaskSummary {
        last_run: waiting(Some(due)).last_run,
        ..summary(RunState::Idle)
    };
    assert_eq!(scheduled_resume(&restarted), None);
}

#[test]
fn the_loop_wakes_for_the_earliest_deadline_and_for_nothing_else() {
    let plan = vec![
        waiting_entry("late", at("2026-08-20T06:00:00Z")),
        waiting_entry("early", at("2026-08-20T03:00:00Z")),
        entry("blocked", Some(SkipReason::DependencyNotSatisfied), None),
        entry("runnable", None, Some(1)),
    ];

    assert_eq!(next_deadline(&plan), Some(at("2026-08-20T03:00:00Z")));
    assert_eq!(
        next_deadline(&plan[2..].to_vec()),
        None,
        "a blocked task is not waiting for a clock",
    );
    assert_eq!(next_deadline(&Vec::new()), None);
}

fn waiting_entry(task_id: &str, resume_after: Instant) -> QueueEntry {
    QueueEntry {
        resume_after: Some(resume_after),
        ..entry(task_id, Some(SkipReason::WaitingForRetry), None)
    }
}

#[test]
fn next_to_start_takes_the_first_claimable_entry_and_never_a_skipped_one() {
    let plan = vec![
        entry("skipped", Some(SkipReason::UnattendedRunsNotAllowed), None),
        entry("first", None, Some(1)),
        entry("second", None, Some(2)),
    ];

    assert_eq!(
        next_to_start(&plan).map(|entry| entry.task_id.as_str()),
        Some("first")
    );
    assert_eq!(next_to_start(&plan[..1].to_vec()), None);
    assert_eq!(next_to_start(&Vec::new()), None);
}

fn entry(task_id: &str, skip: Option<SkipReason>, queue_position: Option<i64>) -> QueueEntry {
    QueueEntry {
        task_id: task_id.to_string(),
        title: task_id.to_string(),
        repository_id: "repository".to_string(),
        queue_position,
        skip,
        resume_after: None,
    }
}


fn in_repository(task_id: &str, repository_id: &str) -> QueueEntry {
    QueueEntry {
        repository_id: repository_id.to_string(),
        ..entry(task_id, None, Some(1))
    }
}

fn caps(pairs: &[(&str, usize)]) -> TextMap<usize> {
    let mut caps = TextMap::new();
    for (id, cap) in pairs {
        caps.insert((*id).to_string(), *cap);
    }
    caps
}

fn ids(batch: Vec<&QueueEntry>) -> Vec<&str> {
    batch.iter().map(|entry| entry.task_id.as_str()).collect()
}

#[test]
fn a_batch_is_taken_in_board_order_up_to_the_global_limit() {
    let plan = vec![
        in_repository("first", "a"),
        in_repository("second", "b"),
        in_repository("third", "c"),
    ];

    assert_eq!(
        ids(next_batch(&plan, &Counts::none(), 2, &caps(&[]))),
        vec!["first", "second"],
    );
}

#[test]
fn a_repository_at_its_cap_is_stepped_over_rather_than_stopping_the_batch() {
    let plan = vec![
        in_repository("a1", "a"),
        in_repository("a2", "a"),
        in_repository("b1", "b"),
    ];

    assert_eq!(
        ids(next_batch(&plan, &Counts::none(), 3, &caps(&[]))),
        vec!["a1", "b1"],
        "the default cap of one lets `a` contribute exactly one",
    );
    assert_eq!(
        ids(next_batch(&plan, &Counts::none(), 3, &caps(&[("a", 2)]))),
        vec!["a1", "a2", "b1"],
        "and its own opt-out lets it contribute two",
    );
}

#[test]
fn what_is_already_in_flight_is_counted_against_both_limits() {
    let plan = vec![in_repository("a2", "a"), in_repository("b1", "b")];
    let running = Counts {
        total: 1,
        per_repository: caps(&[("a", 1)]),
        task_ids: vec!["a1".to_string()],
    };

    assert_eq!(
        ids(next_batch(&plan, &running, 3, &caps(&[]))),
        vec!["b1"],
        "`a` is full because of a run this pass did not start",
    );
    assert_eq!(
        next_batch(&plan, &running, 1, &caps(&[("a", 2)])),
        Vec::<&QueueEntry>::new(),
        "and the global limit binds even where a repository has room",
    );
}

#[test]
fn a_task_something_already_holds_a_lease_on_never_takes_a_slot() {
    let plan = vec![in_repository("held", "a"), in_repository("free", "b")];
    let running = Counts {
        total: 1,
        per_repository: caps(&[("a", 1)]),
        task_ids: vec!["held".to_string()],
    };

    assert_eq!(
        ids(next_batch(&plan, &running, 4, &caps(&[("a", 4)]))),
        vec!["free"]
    );
}

#[test]
fn a_repository_the_caps_do_not_name_is_still_capped() {
    let plan = vec![in_repository("g1", "gone"), in_repository("g2", "gone")];

    assert_eq!(
        ids(next_batch(&plan, &Counts::none(), 4, &caps(&[("a", 4)]))),
        vec!["g1"],
    );
}

#[test]
fn a_skipped_task_is_passed_over_without_spending_a_slot() {
    let plan = vec![
        entry("skipped", Some(SkipReason::UnattendedRunsNotAllowed), None),
        in_repository("first", "a"),
        in_repository("second", "b"),
    ];

    assert_eq!(
        ids(next_batch(&plan, &Counts::none(), 2, &caps(&[]))),
        vec!["first", "second"],
    );
}

#[test]
fn a_full_queue_takes_nothing_rather_than_wrapping_around() {
    let plan = vec![in_repository("first", "a")];
    let over = Counts {
        total: 5,
        per_repository: caps(&[("z", 5)]),
        task_ids: Vec::new(),
    };

    assert_eq!(
        next_batch(&plan, &over, 2, &caps(&[])),
        Vec::<&QueueEntry>::new()
    );
}

#[test]
fn next_to_start_is_the_first_entry_of_a_single_slot_batch() {
    let plan = vec![
        entry("skipped", Some(SkipReason::NeedsAttention), None),
        in_repository("first", "a"),
        in_repository("second", "a"),
    ];

    assert_eq!(
        next_to_start(&plan).map(|entry| entry.task_id.as_str()),
        ids(next_batch(&plan, &Counts::none(), 1, &TextMap::new()))
            .first()
            .copied(),
    );
}

#[test]
fn the_plan_numbers_what_will_start_and_gives_every_other_card_its_reason() {
    let mut second = summary(RunState::Idle);
    second.task.id = "second".to_string();
    let mut foreign = summary(RunState::Idle);
    foreign.task.repository_id = "not-opted-in".to_string();
    let ready = vec![
        summary(RunState::Failed),
        summary(RunState::Idle),
        foreign,
        waiting(Some(at("2026-08-20T06:00:00Z"))),
        second,
    ];
    let opted_in = vec!["3f2b1c00-0000-4000-8000-000000000002".to_string()];

    let entries = plan(&ready, &opted_in, now());

    let shown: Vec<(Option<i64>, Option<SkipReason>)> =
        entries.iter().map(|entry| (entry.queue_position, entry.skip)).collect();
    assert_eq!(
        shown,
        vec![
            (None, Some(SkipReason::NeedsAttention)),
            (Some(1), None),
            (None, Some(SkipReason::UnattendedRunsNotAllowed)),
            (None, Some(SkipReason::WaitingForRetry)),
            (Some(2), None),
        ],
    );
    assert_eq!(entries[3].resume_after, Some(at("2026-08-20T06:00:00Z")));
    assert_eq!(entries[1].resume_after, None);
    assert_eq!(entries[4].task_id, "second");
}

#[test]
fn every_reason_to_pass_a_task_over_has_its_own_words() {
    let reasons = [
        SkipReason::UnattendedRunsNotAllowed,
        SkipReason::AlreadyInFlight,
        SkipReason::WaitingForRetry,
        SkipReason::NeedsAttention,
        SkipReason::DependencyNotSatisfied,
    ];
    let words: std::collections::HashSet<&str> =
        reasons.iter().map(|reason| reason.explanation()).collect();
    assert_eq!(words.len(), reasons.len());
}
