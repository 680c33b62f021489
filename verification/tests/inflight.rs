//! The runs in flight.

use rimaia_core::scheduler::inflight::{
    Capacity, InFlight, Lease, LeaseOwner, LeaseRefused, CONCURRENCY_CEILING,
};

const REPO_A: &str = "repo-a";
const REPO_B: &str = "repo-b";

fn queue_lease(
    registry: &mut InFlight,
    task: &str,
    repository: &str,
    capacity: Capacity,
) -> Result<Lease, LeaseRefused> {
    registry.acquire(task, repository, LeaseOwner::Queue, capacity)
}

#[test]
fn a_task_already_in_flight_cannot_be_leased_twice() {
    let mut registry = InFlight::new();
    let capacity = Capacity { global: 4, per_repository: 4 };
    let _first = queue_lease(&mut registry, "task-1", REPO_A, capacity).expect("the first lease");

    assert_eq!(
        queue_lease(&mut registry, "task-1", REPO_A, capacity).unwrap_err(),
        LeaseRefused::AlreadyInFlight,
    );
}

#[test]
fn a_repository_at_its_cap_refuses_while_another_repository_is_still_free() {
    let mut registry = InFlight::new();
    let capacity = Capacity { global: 4, per_repository: 1 };
    let _first = queue_lease(&mut registry, "task-1", REPO_A, capacity).expect("the first lease");

    assert_eq!(
        queue_lease(&mut registry, "task-2", REPO_A, capacity).unwrap_err(),
        LeaseRefused::AtRepositoryLimit { repository_id: REPO_A.to_string(), limit: 1 },
    );
    queue_lease(&mut registry, "task-3", REPO_B, capacity)
        .expect("a different repository still has room");
}

#[test]
fn the_ceiling_refuses_a_lease_no_setting_can_widen() {
    let mut registry = InFlight::new();
    let capacity = Capacity { global: 100, per_repository: 100 };

    let mut held = Vec::new();
    for index in 0..CONCURRENCY_CEILING {
        held.push(
            queue_lease(&mut registry, &format!("task-{index}"), REPO_A, capacity)
                .expect("a slot under the ceiling"),
        );
    }

    assert_eq!(
        queue_lease(&mut registry, "one-too-many", REPO_A, capacity).unwrap_err(),
        LeaseRefused::AtGlobalLimit { limit: CONCURRENCY_CEILING },
    );
}

#[test]
fn the_ceiling_binds_a_human_too_even_though_the_caps_do_not() {
    let mut registry = InFlight::new();
    let mut held = Vec::new();
    for index in 0..CONCURRENCY_CEILING {
        held.push(
            registry
                .acquire_unbounded(&format!("task-{index}"), REPO_A, LeaseOwner::Manual)
                .expect("a slot under the ceiling"),
        );
    }

    assert_eq!(
        registry.acquire_unbounded("one-too-many", REPO_A, LeaseOwner::Manual).unwrap_err(),
        LeaseRefused::AtGlobalLimit { limit: CONCURRENCY_CEILING },
    );
}

#[test]
fn a_human_is_not_refused_by_the_caps_the_scheduler_obeys() {
    let mut registry = InFlight::new();
    let _queued = queue_lease(&mut registry, "task-1", REPO_A, Capacity::sequential())
        .expect("the queue's own run");

    registry
        .acquire_unbounded("task-2", REPO_A, LeaseOwner::Manual)
        .expect("a person clicking Run now is not a mis-set setting");
}

#[test]
fn dropping_a_lease_frees_the_slot_and_bumps_the_release_generation() {
    let mut registry = InFlight::new();
    let before = registry.generation();

    let lease = queue_lease(&mut registry, "task-1", REPO_A, Capacity::sequential())
        .expect("the only slot");
    assert!(registry.holds("task-1"));
    assert_eq!(registry.generation(), before);

    registry.release(lease.task_id());

    assert!(!registry.holds("task-1"));
    assert!(registry.is_empty());
    assert!(registry.generation() > before);
}

#[test]
fn stopping_the_queue_leaves_a_manual_lease_alone() {
    let mut registry = InFlight::new();
    let _queued = queue_lease(&mut registry, "queued", REPO_A, Capacity::sequential())
        .expect("the queue's run");
    let _manual = registry
        .acquire_unbounded("manual", REPO_B, LeaseOwner::Manual)
        .expect("a run someone started deliberately");

    assert!(registry.cancel_owned_by(LeaseOwner::Queue));

    assert!(registry.is_cancelled("queued"));
    assert!(
        !registry.is_cancelled("manual"),
        "a Stop must not kill a run the operator started in front of them"
    );
}

#[test]
fn cancelling_everything_reaches_both_owners() {
    let mut registry = InFlight::new();
    let _queued = queue_lease(&mut registry, "queued", REPO_A, Capacity::sequential())
        .expect("the queue's run");
    let _manual = registry
        .acquire_unbounded("manual", REPO_B, LeaseOwner::Manual)
        .expect("a manual run");

    assert!(registry.cancel_all());

    assert!(registry.is_cancelled("queued"));
    assert!(registry.is_cancelled("manual"));
}

#[test]
fn cancelling_a_task_nothing_is_running_is_not_an_error() {
    assert!(!InFlight::new().cancel("never-started"));
}

#[test]
fn cancelling_one_task_reaches_that_one_alone() {
    let mut registry = InFlight::new();
    let _one = registry.acquire_unbounded("one", REPO_A, LeaseOwner::Manual).expect("a slot");
    let _two = registry.acquire_unbounded("two", REPO_A, LeaseOwner::Manual).expect("a slot");

    assert!(registry.cancel("one"));
    assert!(registry.is_cancelled("one"));
    assert!(!registry.is_cancelled("two"));
}

#[test]
fn counts_are_a_snapshot_selection_can_reason_over_without_a_lock() {
    let mut registry = InFlight::new();
    let capacity = Capacity { global: 4, per_repository: 4 };
    let _a1 = queue_lease(&mut registry, "a1", REPO_A, capacity).expect("a slot");
    let _a2 = queue_lease(&mut registry, "a2", REPO_A, capacity).expect("a slot");
    let _b1 = queue_lease(&mut registry, "b1", REPO_B, capacity).expect("a slot");

    let counts = registry.counts();

    assert_eq!(counts.total, 3);
    assert_eq!(counts.in_repository(REPO_A), 2);
    assert_eq!(counts.in_repository(REPO_B), 1);
    assert_eq!(counts.in_repository("repo-nobody-is-using"), 0);
    assert!(counts.has_task("a1"));
}

#[test]
fn task_ids_come_back_in_a_stable_order() {
    let mut registry = InFlight::new();
    let capacity = Capacity { global: 4, per_repository: 4 };
    let _c = queue_lease(&mut registry, "c", REPO_A, capacity).expect("a slot");
    let _a = queue_lease(&mut registry, "a", REPO_A, capacity).expect("a slot");
    let _b = queue_lease(&mut registry, "b", REPO_A, capacity).expect("a slot");

    assert_eq!(registry.task_ids(), vec!["a", "b", "c"]);
}

#[test]
fn the_last_slot_goes_to_whoever_asks_first() {
    let mut registry = InFlight::new();
    let first = queue_lease(&mut registry, "task-0", REPO_A, Capacity::sequential());
    let second = queue_lease(&mut registry, "task-1", REPO_A, Capacity::sequential());

    assert!(first.is_ok());
    assert_eq!(second.unwrap_err(), LeaseRefused::AtGlobalLimit { limit: 1 });
    assert_eq!(registry.counts().total, 1);
}

#[test]
fn a_released_slot_can_be_taken_again() {
    let mut registry = InFlight::new();
    let _first = queue_lease(&mut registry, "task-1", REPO_A, Capacity::sequential())
        .expect("the only slot");
    registry.release("task-1");
    assert!(queue_lease(&mut registry, "task-1", REPO_A, Capacity::sequential()).is_ok());
}

#[test]
fn every_refusal_says_why() {
    let refusals = [
        LeaseRefused::AlreadyInFlight,
        LeaseRefused::AtGlobalLimit { limit: 2 },
        LeaseRefused::AtRepositoryLimit { repository_id: REPO_A.to_string(), limit: 1 },
    ];
    for refusal in &refusals {
        assert!(!refusal.message().is_empty());
    }
    assert!(refusals[1].message().contains('2'));
}
