//! The queue's controls, its loop, its schedules and one pass over the board.

use rimaia_core::db::ScheduleMode;
use rimaia_core::error::{Error, ErrorCode};
use rimaia_core::instant::{parse_instant, Instant, MAX_SECONDS};
use rimaia_core::scheduler::capacity::Resolved;
use rimaia_core::scheduler::claim::ClaimOutcome;
use rimaia_core::scheduler::inflight::{InFlight, LeaseOwner};
use rimaia_core::scheduler::pass::{Pass, PassAction, PassEvent};
use rimaia_core::scheduler::queue::{
    interrupted_since, LoopAction, LoopEvent, QueueHandle, QueueTask, Woken,
};
use rimaia_core::scheduler::selection::{QueueEntry, SkipReason};
use rimaia_core::scheduler::state::QueueState;
use rimaia_core::scheduler::window::{
    close_window, open_window, try_tick_schedules, Due, Effect, Reading, RunWindow, Schedule, Step,
    Tick,
};
use rimaia_core::textmap::TextMap;

fn at(rfc3339: &str) -> Instant {
    parse_instant(rfc3339).expect("a literal timestamp must parse")
}

fn now() -> Instant {
    at("2026-08-20T02:00:00Z")
}

#[test]
fn the_control_verbs_write_the_switch_the_next_launch_reads() {
    let mut handle = QueueHandle::new();
    assert_eq!(
        handle.start(Ok(None)).expect("start the queue"),
        vec![Effect::SetQueueState(QueueState::Running), Effect::Wake],
    );
    assert_eq!(
        handle.pause(),
        vec![
            Effect::SetQueueState(QueueState::Paused),
            Effect::Wake,
            Effect::CloseWindow,
        ],
    );
    assert_eq!(
        handle.resume(Ok(None)).expect("resume the queue"),
        vec![Effect::SetQueueState(QueueState::Running), Effect::Wake],
    );
    assert_eq!(
        handle.stop(),
        vec![
            Effect::SetQueueState(QueueState::Paused),
            Effect::Wake,
            Effect::CloseWindow,
            Effect::CancelOwnedBy(LeaseOwner::Queue),
        ],
        "stop is pause plus a cancellation, not a third state"
    );
}

#[test]
fn stopping_a_queue_with_nothing_in_flight_is_not_an_error() {
    let handle = QueueHandle::new();
    let mut registry = InFlight::new();

    assert!(!registry.cancel_owned_by(LeaseOwner::Queue));

    assert!(handle.in_flight_task_ids(&registry).is_empty());
    assert!(!handle.holds(&registry, "t"));
}

#[test]
fn a_control_call_wakes_a_loop_that_is_already_awake() {
    let mut handle = QueueHandle::new();
    let seen = handle.signal;

    handle.wake();

    assert_ne!(handle.signal, seen);
}

#[test]
fn shutdown_is_visible_to_the_loop_without_awaiting_anything() {
    let mut handle = QueueHandle::new();
    assert!(!handle.is_shutting_down());

    handle.shutdown();

    assert!(handle.is_shutting_down());
}

#[test]
fn a_preflight_that_refuses_the_start_leaves_everything_alone() {
    let mut handle = QueueHandle::new();
    handle.record_schedule_error("last night".to_string());

    let refused = handle.start(Ok(Some("no agent".to_string()))).expect_err("refused");
    assert_eq!(refused.code(), ErrorCode::Invalid);
    assert_eq!(refused.message, "no agent");
    assert_eq!(handle.last_step_error(), Some("last night".to_string()));

    let broken = Error::internal("locked".to_string());
    assert_eq!(handle.start(Err(broken.clone())), Err(broken));

    handle.start(Ok(None)).expect("nothing blocks it");
    assert_eq!(handle.last_step_error(), None, "a human has acted");
}

#[test]
fn a_pass_clears_what_it_disproves_and_only_that() {
    let mut handle = QueueHandle::new();

    assert_eq!(handle.step(Err(Error::internal("locked".to_string()))), Step::Idle);
    assert_eq!(handle.last_step_error(), Some("locked".to_string()));
    assert_eq!(handle.tick_schedules(Ok(Step::Idle)), Step::Idle);
    assert_eq!(handle.last_step_error(), Some("locked".to_string()));
    assert_eq!(handle.step(Ok(Step::Worked)), Step::Worked);
    assert_eq!(handle.last_step_error(), None);

    handle.record_schedule_error("refused".to_string());
    assert_eq!(handle.step(Ok(Step::Idle)), Step::Idle);
    assert_eq!(handle.last_step_error(), Some("refused".to_string()));
    handle.clear_schedule_error();
    assert_eq!(handle.last_step_error(), None);

    assert_eq!(handle.tick_schedules(Err(Error::internal("cron".to_string()))), Step::Idle);
    assert_eq!(handle.last_step_error(), Some("cron".to_string()));
}

#[test]
fn any_kind_of_stop_interrupts() {
    assert!(!interrupted_since(false, false, QueueState::Running));
    assert!(interrupted_since(true, false, QueueState::Running));
    assert!(interrupted_since(false, true, QueueState::Running));
    assert!(interrupted_since(false, false, QueueState::Paused));
}

#[test]
fn the_loop_looks_ticks_steps_and_sleeps_in_that_order() {
    let mut task = QueueTask::new();
    assert_eq!(
        task.run(LoopEvent::Looked { shutting_down: false }),
        LoopAction::DrainAndTick,
    );
    assert_eq!(
        task.run(LoopEvent::Ticked(Step::IdleUntil(now().plus_seconds(30)))),
        LoopAction::TakeStep,
    );
    assert_eq!(
        task.run(LoopEvent::Stepped {
            step: Step::IdleUntil(now().plus_seconds(10)),
            now: now(),
        }),
        LoopAction::Sleep(Some(now().plus_seconds(10))),
    );
    assert_eq!(task.run(LoopEvent::Woken(Woken::DeadlinePassed)), LoopAction::Look);
    assert_eq!(
        task.run(LoopEvent::Looked { shutting_down: true }),
        LoopAction::AwaitRuns,
    );
}

#[test]
fn a_tick_or_a_step_that_worked_starts_the_next_turn_at_once() {
    let mut task = QueueTask::new();
    task.run(LoopEvent::Looked { shutting_down: false });
    assert_eq!(task.run(LoopEvent::Ticked(Step::Worked)), LoopAction::Look);
    task.run(LoopEvent::Looked { shutting_down: false });
    task.run(LoopEvent::Ticked(Step::Idle));
    assert_eq!(
        task.run(LoopEvent::Stepped { step: Step::Worked, now: now() }),
        LoopAction::Look,
    );
}

#[test]
fn a_sleep_is_capped_at_a_minute_and_without_a_deadline_has_no_alarm() {
    for (step, alarm) in [
        (Step::Idle, None),
        (Step::IdleUntil(at("2026-08-20T06:00:00Z")), Some(at("2026-08-20T02:01:00Z"))),
    ] {
        let mut task = QueueTask::new();
        task.run(LoopEvent::Looked { shutting_down: false });
        task.run(LoopEvent::Ticked(Step::Idle));
        assert_eq!(task.run(LoopEvent::Stepped { step, now: now() }), LoopAction::Sleep(alarm));
        assert_eq!(
            task.run(LoopEvent::Woken(Woken::ChangesClosed)),
            LoopAction::AwaitRuns,
        );
    }
}

#[test]
fn a_loop_that_waits_for_nothing_asks_nothing_of_the_calendar() {
    let last = Instant { seconds: MAX_SECONDS, nanos: 0 };
    for (tick, step, action) in [
        (Step::Idle, Step::Idle, LoopAction::Sleep(None)),
        (Step::Idle, Step::Worked, LoopAction::Look),
        (Step::IdleUntil(last), Step::Worked, LoopAction::Look),
    ] {
        let mut task = QueueTask::new();
        task.run(LoopEvent::Looked { shutting_down: false });
        task.run(LoopEvent::Ticked(tick));
        assert_eq!(task.run(LoopEvent::Stepped { step, now: last }), action);
    }
}

fn schedule() -> Schedule {
    Schedule {
        id: "s".to_string(),
        name: "Nightly".to_string(),
        mode: ScheduleMode::Parallel,
        max_concurrency: 3,
    }
}

fn window(closes_at: Option<Instant>) -> RunWindow {
    RunWindow::opened_by(&schedule(), at("2026-08-19T22:00:00Z"), closes_at)
}

fn reading(due: Due, next_wake: Option<Instant>) -> Reading {
    Reading { due: Ok(due), next_wake: Ok(next_wake) }
}

fn fire() -> Due {
    Due::Fire { occurrence: now(), closes_at: Some(at("2026-08-20T06:00:00Z")) }
}

#[test]
fn a_window_that_is_over_closes_before_anything_fires() {
    let over = Some(window(Some(now())));
    assert_eq!(try_tick_schedules(now(), &over, &vec![reading(fire(), None)]), Tick::Close);
    assert_eq!(
        close_window(),
        vec![Effect::SetQueueState(QueueState::Paused), Effect::CloseWindow],
    );
}

#[test]
fn the_first_due_schedule_opens_a_window_unless_one_is_open() {
    let readings = vec![
        Reading {
            due: Err(Error::invalid("not a cron".to_string())),
            next_wake: Ok(Some(now())),
        },
        reading(Due::NotDue, None),
        reading(fire(), None),
        reading(fire(), None),
    ];
    assert_eq!(
        try_tick_schedules(now(), &None, &readings),
        Tick::Open {
            schedule: 2,
            occurrence: now(),
            closes_at: Some(at("2026-08-20T06:00:00Z")),
        },
    );
    let open = Some(window(None));
    assert_eq!(try_tick_schedules(now(), &open, &readings), Tick::Record { schedule: 2 });
    assert_eq!(Tick::Record { schedule: 2 }.step(), Step::Worked);
}

#[test]
fn nothing_due_waits_for_the_earliest_instant_anything_names() {
    let readings = vec![
        reading(Due::NotDue, Some(at("2026-08-20T22:00:00Z"))),
        reading(
            Due::Expired { occurrence: now(), closed_at: now() },
            Some(at("2026-08-20T05:00:00Z")),
        ),
        Reading { due: Ok(Due::NotDue), next_wake: Err(Error::invalid("never".to_string())) },
    ];
    let open = Some(window(Some(at("2026-08-20T04:00:00Z"))));
    assert_eq!(
        try_tick_schedules(now(), &open, &readings),
        Tick::Wait(Step::IdleUntil(at("2026-08-20T04:00:00Z"))),
    );
    assert_eq!(
        try_tick_schedules(now(), &None, &readings),
        Tick::Wait(Step::IdleUntil(at("2026-08-20T05:00:00Z"))),
    );
    assert_eq!(try_tick_schedules(now(), &None, &Vec::new()), Tick::Wait(Step::Idle));
}

#[test]
fn a_blocked_start_records_the_fire_and_leaves_the_switch_alone() {
    let closes_at = Some(at("2026-08-20T06:00:00Z"));
    assert_eq!(
        open_window(&schedule(), Some("no agent".to_string()), closes_at, now()),
        vec![
            Effect::RecordFire { schedule_id: "s".to_string(), at: now() },
            Effect::RecordScheduleError("no agent".to_string()),
            Effect::PublishSettings,
        ],
    );
    assert_eq!(
        open_window(&schedule(), None, closes_at, now()),
        vec![
            Effect::OpenWindow(RunWindow {
                schedule_id: "s".to_string(),
                schedule_name: "Nightly".to_string(),
                opened_at: now(),
                closes_at,
                mode: ScheduleMode::Parallel,
                max_concurrency: 3,
            }),
            Effect::RecordFire { schedule_id: "s".to_string(), at: now() },
            Effect::ClearScheduleError,
            Effect::SetQueueState(QueueState::Running),
        ],
    );
}

fn entry(task_id: &str, resume_after: Option<Instant>) -> QueueEntry {
    QueueEntry {
        task_id: task_id.to_string(),
        title: task_id.to_string(),
        repository_id: format!("repository-of-{task_id}"),
        queue_position: Some(1),
        skip: None,
        resume_after,
    }
}

fn bounds(global: usize) -> Resolved {
    Resolved { global, per_repository: TextMap::new() }
}

fn boarded(registry: &mut InFlight, plan: &Vec<QueueEntry>) -> Pass {
    let mut pass = Pass::new();
    assert_eq!(pass.try_step(PassEvent::Switch(QueueState::Running)), PassAction::ReadHold);
    assert_eq!(pass.try_step(PassEvent::Hold(None)), PassAction::ReadBoard);
    assert_eq!(pass.on_board(registry, plan, &bounds(3)), PassAction::ProbeCli);
    pass
}

fn check(task_id: &str) -> PassAction {
    PassAction::CheckInterrupted { task_id: task_id.to_string() }
}

#[test]
fn a_pass_over_a_paused_or_held_queue_reads_no_board() {
    let mut paused = Pass::new();
    assert_eq!(
        paused.try_step(PassEvent::Switch(QueueState::Paused)),
        PassAction::Finish(Step::Idle),
    );
    let mut held = Pass::new();
    held.try_step(PassEvent::Switch(QueueState::Running));
    assert_eq!(
        held.try_step(PassEvent::Hold(Some(at("2026-08-20T06:00:00Z")))),
        PassAction::Finish(Step::IdleUntil(at("2026-08-20T06:00:00Z"))),
    );
}

#[test]
fn a_board_with_nothing_to_start_waits_for_its_first_deadline() {
    let mut waiting = entry("w", Some(at("2026-08-20T06:00:00Z")));
    waiting.skip = Some(SkipReason::WaitingForRetry);
    let mut registry = InFlight::new();
    let mut pass = Pass::new();
    pass.try_step(PassEvent::Switch(QueueState::Running));
    pass.try_step(PassEvent::Hold(None));
    assert_eq!(
        pass.on_board(&mut registry, &vec![waiting], &bounds(3)),
        PassAction::Finish(Step::IdleUntil(at("2026-08-20T06:00:00Z"))),
    );
    assert!(registry.is_empty());
}

#[test]
fn a_batch_takes_every_slot_before_the_probe_and_starts_each_entry_in_turn() {
    let mut registry = InFlight::new();
    let plan = vec![entry("fresh", None), entry("retry", Some(now()))];
    let mut pass = boarded(&mut registry, &plan);
    assert_eq!(registry.task_ids(), vec!["fresh", "retry"]);
    assert_eq!(pass.holding(), vec!["fresh", "retry"]);

    assert_eq!(pass.try_step(PassEvent::Probed), check("fresh"));
    assert_eq!(
        pass.try_step(PassEvent::Interrupted(false)),
        PassAction::Claim { task_id: "fresh".to_string(), resuming: false },
    );
    assert_eq!(pass.try_step(PassEvent::Claimed(ClaimOutcome::Claimed)), check("fresh"));
    assert_eq!(
        pass.try_step(PassEvent::Interrupted(false)),
        PassAction::Spawn { task_id: "fresh".to_string(), resume: None },
    );
    assert_eq!(pass.holding(), vec!["retry"], "the run took the first slot over");

    assert_eq!(pass.try_step(PassEvent::Started), check("retry"));
    assert_eq!(
        pass.try_step(PassEvent::Interrupted(false)),
        PassAction::Claim { task_id: "retry".to_string(), resuming: true },
    );
    assert_eq!(
        pass.try_step(PassEvent::Claimed(ClaimOutcome::Claimed)),
        PassAction::ReadSession { task_id: "retry".to_string() },
    );
    assert_eq!(pass.try_step(PassEvent::Session(Some("session".to_string()))), check("retry"));
    assert_eq!(
        pass.try_step(PassEvent::Interrupted(false)),
        PassAction::Spawn {
            task_id: "retry".to_string(),
            resume: Some("session".to_string()),
        },
    );
    assert_eq!(pass.try_step(PassEvent::Started), PassAction::Finish(Step::Worked));
    assert!(pass.holding().is_empty());
}

#[test]
fn a_lost_claim_moves_on_and_counts_as_work() {
    let mut registry = InFlight::new();
    let mut pass = boarded(&mut registry, &vec![entry("taken", None)]);
    pass.try_step(PassEvent::Probed);
    pass.try_step(PassEvent::Interrupted(false));
    assert_eq!(
        pass.try_step(PassEvent::Claimed(ClaimOutcome::Lost)),
        PassAction::Finish(Step::Worked),
    );
    assert!(pass.holding().is_empty());
}

#[test]
fn a_stop_before_the_claim_ends_the_whole_batch() {
    let mut registry = InFlight::new();
    let mut pass = boarded(&mut registry, &vec![entry("one", None), entry("two", None)]);
    pass.try_step(PassEvent::Probed);
    assert_eq!(
        pass.try_step(PassEvent::Interrupted(true)),
        PassAction::Finish(Step::Idle),
    );
    assert!(pass.holding().is_empty(), "the second entry's slot is given up too");
}

#[test]
fn a_stop_after_the_claim_gives_the_claim_back() {
    let mut registry = InFlight::new();
    let mut pass = boarded(&mut registry, &vec![entry("one", None), entry("two", None)]);
    pass.try_step(PassEvent::Probed);
    pass.try_step(PassEvent::Interrupted(false));
    pass.try_step(PassEvent::Claimed(ClaimOutcome::Claimed));
    assert_eq!(
        pass.try_step(PassEvent::Interrupted(true)),
        PassAction::Release { task_id: "one".to_string() },
    );
    assert_eq!(pass.try_step(PassEvent::Released), PassAction::Finish(Step::Idle));
}

#[test]
fn a_pass_that_is_abandoned_holds_nothing() {
    let mut registry = InFlight::new();
    let mut pass = boarded(&mut registry, &vec![entry("one", None)]);
    pass.abandon();
    assert!(pass.holding().is_empty());
}

#[test]
fn a_board_that_names_a_task_twice_gets_one_slot_for_it() {
    let mut registry = InFlight::new();
    let mut twice = entry("one", None);
    twice.repository_id = "elsewhere".to_string();
    let pass = boarded(&mut registry, &vec![entry("one", None), twice]);
    assert_eq!(pass.holding(), vec!["one"]);
}

#[test]
fn the_status_is_what_it_was_told() {
    let mut handle = QueueHandle::new();
    handle.record_step_error("locked".to_string());
    let mut registry = InFlight::new();
    let _b = registry.acquire_unbounded("b", "r", LeaseOwner::Manual).expect("a slot");
    let _a = registry.acquire_unbounded("a", "r", LeaseOwner::Queue).expect("a slot");

    let status = handle.status(
        QueueState::Running,
        &registry,
        vec![entry("one", None)],
        Some(now()),
        Some(window(None)),
    );

    assert_eq!(status.state, QueueState::Running);
    assert_eq!(status.running_task_ids, vec!["a", "b"]);
    assert_eq!(status.plan, vec![entry("one", None)]);
    assert_eq!(status.last_step_error, Some("locked".to_string()));
    assert_eq!(status.usage_limit_pause_until, Some(now()));
    assert_eq!(status.window, Some(window(None)));
}
