//! What the queue would do next, and why it passes over what it passes over.
//!
//! Whether a task may ever start and whether it may start right now are two
//! questions: the first is a reason a card shows, the second is room.

use vstd::prelude::*;
use vstd::string::*;

use crate::db::RunState;
use crate::instant::Instant;
use crate::scheduler::capacity;
use crate::scheduler::capacity::DEFAULT_PER_REPOSITORY;
use crate::scheduler::inflight::Counts;
use crate::tasks::service::TaskSummary;
use crate::text::same;
use crate::textmap::TextMap;

verus! {

/// Why the queue will not start a ready task.
#[derive(Debug, Clone, Copy, PartialEq, Eq, Hash, Structural)]
pub enum SkipReason {
    /// The repository did not allow runs that nobody watches.
    UnattendedRunsNotAllowed,
    /// A dependency holds the task back.
    DependencyNotSatisfied,
    /// Something already has the task, or a wait that nobody scheduled.
    AlreadyInFlight,
    /// The task will be resumed, and it is not time yet.
    WaitingForRetry,
    /// The last attempt ended in a way that waits for the user.
    NeedsAttention,
}

impl SkipReason {
    /// The phrase a card shows.
    pub open spec fn phrase(self) -> Seq<char> {
        match self {
            SkipReason::UnattendedRunsNotAllowed =>
                "this repository has not enabled unattended agent runs"@,
            SkipReason::DependencyNotSatisfied => "waiting on a dependency"@,
            SkipReason::AlreadyInFlight => "already started"@,
            SkipReason::WaitingForRetry => "waiting to resume"@,
            SkipReason::NeedsAttention => "the last run did not succeed"@,
        }
    }

    /// The phrase a card shows next to a task that was passed over.
    pub fn explanation(self) -> (r: &'static str)
        ensures
            r@ == self.phrase(),
    {
        match self {
            SkipReason::UnattendedRunsNotAllowed =>
                "this repository has not enabled unattended agent runs",
            SkipReason::DependencyNotSatisfied => "waiting on a dependency",
            SkipReason::AlreadyInFlight => "already started",
            SkipReason::WaitingForRetry => "waiting to resume",
            SkipReason::NeedsAttention => "the last run did not succeed",
        }
    }
}

/// One ready task, as the queue sees it.
#[derive(Debug, Clone, PartialEq, Eq)]
pub struct QueueEntry {
    pub task_id: String,
    pub title: String,
    pub repository_id: String,
    /// Where in the queue the task is, counting only what will start.
    pub queue_position: Option<i64>,
    /// Nothing when the queue would start the task right now.
    pub skip: Option<SkipReason>,
    /// When the next attempt is scheduled, for a task that waits for one.
    pub resume_after: Option<Instant>,
}

/// The deadline of a task's next attempt, for a task that waits for one.
pub open spec fn deadline(task: TaskSummary) -> Option<Instant> {
    if task.task.run_state != RunState::WaitingRetry {
        None
    } else {
        match task.last_run {
            Some(run) => run.resume_after,
            None => None,
        }
    }
}

/// The deadline of a task's next attempt, for a task that waits for one.
pub fn scheduled_resume(task: &TaskSummary) -> (r: Option<Instant>)
    ensures
        r == deadline(*task),
{
    if task.task.run_state != RunState::WaitingRetry {
        return None;
    }
    match task.last_run {
        Some(run) => run.resume_after,
        None => None,
    }
}

/// Why the queue will not start `task`.
pub open spec fn reason(task: TaskSummary, allowed: bool, now: Instant) -> Option<SkipReason> {
    if !allowed {
        Some(SkipReason::UnattendedRunsNotAllowed)
    } else if task.blocked_by_incomplete {
        Some(SkipReason::DependencyNotSatisfied)
    } else {
        match task.task.run_state {
            RunState::Idle => None,
            RunState::WaitingRetry => match deadline(task) {
                Some(at) => if now.earlier(at) {
                    Some(SkipReason::WaitingForRetry)
                } else {
                    None
                },
                None => Some(SkipReason::AlreadyInFlight),
            },
            RunState::Queued | RunState::Running => Some(SkipReason::AlreadyInFlight),
            RunState::Blocked => Some(SkipReason::DependencyNotSatisfied),
            RunState::Failed | RunState::Cancelled => Some(SkipReason::NeedsAttention),
        }
    }
}

/// Why the queue will not start `task`, or nothing when it will.
pub fn skip_reason(task: &TaskSummary, unattended_runs_allowed: bool, now: Instant) -> (r: Option<
    SkipReason,
>)
    ensures
        r == reason(*task, unattended_runs_allowed, now),
{
    if !unattended_runs_allowed {
        return Some(SkipReason::UnattendedRunsNotAllowed);
    }
    if task.blocked_by_incomplete {
        return Some(SkipReason::DependencyNotSatisfied);
    }
    match task.task.run_state {
        RunState::Idle => None,
        RunState::WaitingRetry => match scheduled_resume(task) {
            Some(at) => if now.is_before(at) {
                Some(SkipReason::WaitingForRetry)
            } else {
                None
            },
            None => Some(SkipReason::AlreadyInFlight),
        },
        RunState::Queued => Some(SkipReason::AlreadyInFlight),
        RunState::Running => Some(SkipReason::AlreadyInFlight),
        RunState::Blocked => Some(SkipReason::DependencyNotSatisfied),
        RunState::Failed => Some(SkipReason::NeedsAttention),
        RunState::Cancelled => Some(SkipReason::NeedsAttention),
    }
}

/// Some id of `ids` is `id`.
pub open spec fn among(ids: Seq<String>, id: Seq<char>) -> bool {
    exists|i: int| 0 <= i < ids.len() && (#[trigger] ids[i])@ == id
}

fn is_among(ids: &Vec<String>, id: &str) -> (r: bool)
    ensures
        r == among(ids@, id@),
{
    let n: usize = ids.len();
    let mut i: usize = 0;
    while i < n
        invariant
            i <= n,
            n == ids.len(),
            forall|j: int| 0 <= j < i ==> (#[trigger] ids@[j])@ != id@,
        decreases n - i,
    {
        if same(ids[i].as_str(), id) {
            return true;
        }
        i += 1;
    }
    false
}

/// Why the queue will not start a card of the ready column.
pub open spec fn card_reason(task: TaskSummary, opted_in: Seq<String>, now: Instant) -> Option<
    SkipReason,
> {
    reason(task, among(opted_in, task.task.repository_id@), now)
}

/// How many of the first `n` ready cards the queue would start.
pub open spec fn claimable(
    ready: Seq<TaskSummary>,
    opted_in: Seq<String>,
    now: Instant,
    n: int,
) -> int
    decreases n,
{
    if n <= 0 {
        0
    } else {
        claimable(ready, opted_in, now, n - 1) + if card_reason(ready[n - 1], opted_in, now)
            is None {
            1int
        } else {
            0
        }
    }
}

/// The entry of the `i`-th ready card.
pub open spec fn entry(ready: Seq<TaskSummary>, opted_in: Seq<String>, now: Instant, i: int) -> QueueEntry {
    let skip = card_reason(ready[i], opted_in, now);
    QueueEntry {
        task_id: ready[i].task.id,
        title: ready[i].task.title,
        repository_id: ready[i].task.repository_id,
        queue_position: if skip is None {
            Some(claimable(ready, opted_in, now, i + 1) as i64)
        } else {
            None
        },
        skip,
        resume_after: deadline(ready[i]),
    }
}

proof fn lemma_claimable_bound(ready: Seq<TaskSummary>, opted_in: Seq<String>, now: Instant, n: int)
    requires
        0 <= n,
    ensures
        0 <= claimable(ready, opted_in, now, n) <= n,
    decreases n,
{
    if n > 0 {
        lemma_claimable_bound(ready, opted_in, now, n - 1);
    }
}

/// Every ready task in board order, with the reason the queue passes over each
/// one it cannot start.
///
/// `ready` is the ready column from the top, `opted_in` the repositories that
/// allow runs nobody watches. All are judged at one instant.
pub fn plan(ready: &Vec<TaskSummary>, opted_in: &Vec<String>, now: Instant) -> (r: Vec<QueueEntry>)
    requires
        ready@.len() <= i64::MAX,
    ensures
        r@.len() == ready@.len(),
        forall|i: int|
            0 <= i < r@.len() ==> (#[trigger] r@[i]) == entry(ready@, opted_in@, now, i),
{
    let n: usize = ready.len();
    let mut plan: Vec<QueueEntry> = Vec::new();
    let mut count: i64 = 0;
    let mut k: usize = 0;
    while k < n
        invariant
            k <= n,
            n == ready.len(),
            n <= i64::MAX,
            count == claimable(ready@, opted_in@, now, k as int),
            count <= k,
            plan@.len() == k,
            forall|i: int|
                0 <= i < k ==> (#[trigger] plan@[i]) == entry(ready@, opted_in@, now, i),
        decreases n - k,
    {
        let summary = &ready[k];
        let skip = skip_reason(
            summary,
            is_among(opted_in, summary.task.repository_id.as_str()),
            now,
        );
        let queue_position = if skip.is_none() {
            count = count + 1;
            Some(count)
        } else {
            None
        };
        plan.push(
            QueueEntry {
                task_id: summary.task.id.clone(),
                title: summary.task.title.clone(),
                repository_id: summary.task.repository_id.clone(),
                queue_position,
                skip,
                resume_after: scheduled_resume(summary),
            },
        );
        k += 1;
    }
    plan
}

/// The deadline an entry is waiting for, if it waits for one.
pub open spec fn awaited(entry: QueueEntry) -> Option<Instant> {
    if entry.skip == Some(SkipReason::WaitingForRetry) {
        entry.resume_after
    } else {
        None
    }
}

/// The earlier of two instants, either of which may be absent.
pub open spec fn sooner(a: Option<Instant>, b: Option<Instant>) -> Option<Instant> {
    match (a, b) {
        (Some(x), Some(y)) => Some(x.earlier_of(y)),
        (Some(x), None) => Some(x),
        (None, found) => found,
    }
}

/// The earliest deadline that an entry of `plan` waits for.
pub open spec fn first_deadline(plan: Seq<QueueEntry>) -> Option<Instant>
    decreases plan.len(),
{
    if plan.len() == 0 {
        None
    } else {
        sooner(first_deadline(plan.drop_last()), awaited(plan.last()))
    }
}

/// The earlier of two instants, either of which may be absent.
pub fn earliest(left: Option<Instant>, right: Option<Instant>) -> (r: Option<Instant>)
    ensures
        r == sooner(left, right),
{
    match (left, right) {
        (Some(x), Some(y)) => Some(x.soonest(y)),
        (Some(x), None) => Some(x),
        (None, found) => found,
    }
}

/// The earliest instant at which anything in the plan becomes startable, or
/// nothing when nothing waits for the clock.
pub fn next_deadline(plan: &Vec<QueueEntry>) -> (r: Option<Instant>)
    ensures
        r == first_deadline(plan@),
{
    let n: usize = plan.len();
    let mut found: Option<Instant> = None;
    let mut i: usize = 0;
    assert(plan@.take(0).len() == 0);
    while i < n
        invariant
            i <= n,
            n == plan.len(),
            found == first_deadline(plan@.take(i as int)),
        decreases n - i,
    {
        proof {
            assert(plan@.take(i + 1).drop_last() =~= plan@.take(i as int));
            assert(plan@.take(i + 1).last() == plan@[i as int]);
        }
        let waits = match plan[i].skip {
            Some(SkipReason::WaitingForRetry) => plan[i].resume_after,
            _ => None,
        };
        found = earliest(found, waits);
        i += 1;
    }
    assert(plan@.take(n as int) =~= plan@);
    found
}

/// The deadline is the earliest one that anything waits for: one of them, and
/// none is earlier.
pub proof fn law_the_deadline_is_the_earliest(plan: Seq<QueueEntry>)
    ensures
        match first_deadline(plan) {
            Some(at) => {
                &&& exists|i: int| 0 <= i < plan.len() && awaited(#[trigger] plan[i]) == Some(at)
                &&& forall|i: int|
                    0 <= i < plan.len() ==> (awaited(#[trigger] plan[i]) matches Some(other)
                        ==> !other.earlier(at))
            },
            None => forall|i: int| 0 <= i < plan.len() ==> awaited(#[trigger] plan[i]) is None,
        },
    decreases plan.len(),
{
    if plan.len() > 0 {
        let fewer = plan.drop_last();
        law_the_deadline_is_the_earliest(fewer);
        assert forall|i: int| 0 <= i < fewer.len() implies #[trigger] plan[i] == fewer[i] by {}
        match first_deadline(plan) {
            Some(at) => {
                if awaited(plan.last()) == Some(at) {
                    assert(awaited(plan[plan.len() - 1]) == Some(at));
                } else {
                    let i = choose|i: int|
                        0 <= i < fewer.len() && awaited(#[trigger] fewer[i]) == Some(at);
                    assert(awaited(plan[i]) == Some(at));
                }
                assert forall|i: int| 0 <= i < plan.len() implies (awaited(#[trigger] plan[i])
                    matches Some(other) ==> !other.earlier(at)) by {
                    if i < fewer.len() {
                        assert(plan[i] == fewer[i]);
                    }
                }
            },
            None => {
                assert forall|i: int| 0 <= i < plan.len() implies awaited(#[trigger] plan[i])
                    is None by {
                    if i < fewer.len() {
                        assert(plan[i] == fewer[i]);
                    }
                }
            },
        }
    }
}

/// How many of the entries `picked` are in `repository`.
pub open spec fn picked_in(plan: Seq<QueueEntry>, picked: Seq<int>, repository: Seq<char>) -> nat
    decreases picked.len(),
{
    if picked.len() == 0 {
        0
    } else {
        picked_in(plan, picked.drop_last(), repository) + if plan[picked.last()].repository_id@
            == repository {
            1nat
        } else {
            0
        }
    }
}

/// How many more runs the global limit leaves room for.
pub open spec fn room(counts: Counts, global: usize) -> int {
    if counts.total < global {
        global - counts.total
    } else {
        0
    }
}

/// Entry `i` may start beside what is in flight and the entries `picked` before
/// it: there is room, nothing skips it, nothing holds it, and its repository is
/// under its cap.
pub open spec fn startable(
    plan: Seq<QueueEntry>,
    counts: Counts,
    global: usize,
    caps: Map<Seq<char>, usize>,
    picked: Seq<int>,
    i: int,
) -> bool {
    let repository = plan[i].repository_id@;
    &&& picked.len() < room(counts, global)
    &&& plan[i].skip is None
    &&& !counts.holds(plan[i].task_id@)
    &&& counts.of_repository(repository) + picked_in(plan, picked, repository) < capacity::cap_of(
        caps,
        repository,
    )
}

/// Which of the first `n` entries the queue starts now: in board order, each
/// that may start beside the ones before it.
pub open spec fn batch(
    plan: Seq<QueueEntry>,
    counts: Counts,
    global: usize,
    caps: Map<Seq<char>, usize>,
    n: int,
) -> Seq<int>
    decreases n,
{
    if n <= 0 {
        seq![]
    } else {
        let picked = batch(plan, counts, global, caps, n - 1);
        if startable(plan, counts, global, caps, picked, n - 1) {
            picked.push(n - 1)
        } else {
            picked
        }
    }
}

fn taken_in(plan: &Vec<QueueEntry>, picked: &Vec<usize>, repository_id: &str) -> (r: usize)
    requires
        forall|i: int| 0 <= i < picked@.len() ==> (#[trigger] picked@[i]) < plan@.len(),
    ensures
        r == picked_in(plan@, indices(picked@), repository_id@),
        r <= picked@.len(),
{
    let n: usize = picked.len();
    let mut count: usize = 0;
    let mut i: usize = 0;
    assert(indices(picked@).take(0).len() == 0);
    while i < n
        invariant
            i <= n,
            n == picked@.len(),
            forall|j: int| 0 <= j < picked@.len() ==> (#[trigger] picked@[j]) < plan@.len(),
            count == picked_in(plan@, indices(picked@).take(i as int), repository_id@),
            count <= i,
        decreases n - i,
    {
        proof {
            let all = indices(picked@);
            assert(all.take(i + 1).drop_last() =~= all.take(i as int));
            assert(all.take(i + 1).last() == picked@[i as int] as int);
        }
        if same(plan[picked[i]].repository_id.as_str(), repository_id) {
            count += 1;
        }
        i += 1;
    }
    assert(indices(picked@).take(n as int) =~= indices(picked@));
    count
}

/// Positions in a list, as integers.
pub open spec fn indices(picked: Seq<usize>) -> Seq<int> {
    picked.map_values(|i: usize| i as int)
}

fn pick(
    plan: &Vec<QueueEntry>,
    in_flight: &Counts,
    global: usize,
    per_repository: &TextMap<usize>,
) -> (r: Vec<usize>)
    ensures
        indices(r@) == batch(plan@, *in_flight, global, per_repository@, plan@.len() as int),
        forall|i: int| 0 <= i < r@.len() ==> (#[trigger] r@[i]) < plan@.len(),
{
    let free: usize = global.saturating_sub(in_flight.total);
    let n: usize = plan.len();
    let mut picked: Vec<usize> = Vec::new();
    let mut k: usize = 0;
    assert(indices(picked@) =~= seq![]);
    while k < n
        invariant
            k <= n,
            n == plan.len(),
            free == room(*in_flight, global),
            indices(picked@) == batch(plan@, *in_flight, global, per_repository@, k as int),
            forall|i: int| 0 <= i < picked@.len() ==> (#[trigger] picked@[i]) < plan@.len(),
        decreases n - k,
    {
        let entry = &plan[k];
        let cap: usize = match per_repository.get(entry.repository_id.as_str()) {
            Some(cap) => *cap,
            None => DEFAULT_PER_REPOSITORY,
        };
        let running: usize = in_flight.in_repository(entry.repository_id.as_str());
        let taken: usize = taken_in(plan, &picked, entry.repository_id.as_str());
        let under_cap = running < cap && taken < cap - running;
        if picked.len() < free && entry.skip.is_none() && !in_flight.has_task(
            entry.task_id.as_str(),
        ) && under_cap {
            let ghost earlier = picked@;
            picked.push(k);
            assert(indices(picked@) =~= indices(earlier).push(k as int));
        }
        k += 1;
    }
    picked
}

/// Every task the queue may start right now, in board order, bounded by the
/// global limit and by each repository's own cap. A repository that has no cap
/// of its own has the default one.
pub fn next_batch<'a>(
    plan: &'a Vec<QueueEntry>,
    in_flight: &Counts,
    global: usize,
    per_repository: &TextMap<usize>,
) -> (r: Vec<&'a QueueEntry>)
    ensures
        ({
            let picked = batch(plan@, *in_flight, global, per_repository@, plan@.len() as int);
            &&& r@.len() == picked.len()
            &&& forall|i: int| 0 <= i < r@.len() ==> *(#[trigger] r@[i]) == plan@[picked[i]]
        }),
{
    let picked = pick(plan, in_flight, global, per_repository);
    let n: usize = picked.len();
    let mut out: Vec<&'a QueueEntry> = Vec::new();
    let mut i: usize = 0;
    while i < n
        invariant
            i <= n,
            n == picked@.len(),
            out@.len() == i,
            forall|j: int| 0 <= j < picked@.len() ==> (#[trigger] picked@[j]) < plan@.len(),
            forall|j: int| 0 <= j < i ==> *(#[trigger] out@[j]) == plan@[picked@[j] as int],
        decreases n - i,
    {
        out.push(&plan[picked[i]]);
        i += 1;
    }
    proof {
        assert forall|j: int| 0 <= j < out@.len() implies *(#[trigger] out@[j]) == plan@[indices(
            picked@,
        )[j]] by {
            assert(indices(picked@)[j] == picked@[j] as int);
        }
    }
    out
}

/// The first entry that nothing skips, if there is one.
pub open spec fn first_startable(plan: Seq<QueueEntry>, i: int) -> bool {
    &&& 0 <= i < plan.len()
    &&& plan[i].skip is None
    &&& forall|j: int| 0 <= j < i ==> (#[trigger] plan[j]).skip is Some
}

/// The task the queue would claim next: the first entry that nothing skips.
pub fn next_to_start(plan: &Vec<QueueEntry>) -> (r: Option<&QueueEntry>)
    ensures
        match r {
            Some(entry) => exists|i: int| #[trigger] first_startable(plan@, i) && *entry == plan@[i],
            None => forall|i: int| 0 <= i < plan@.len() ==> (#[trigger] plan@[i]).skip is Some,
        },
{
    let counts = Counts::none();
    let caps: TextMap<usize> = TextMap::new();
    let taken = next_batch(plan, &counts, 1, &caps);
    proof {
        law_a_single_slot_goes_to_the_first(plan@, counts, caps@, plan@.len() as int);
    }
    if taken.len() > 0 {
        Some(taken[0])
    } else {
        None
    }
}

/// With nothing in flight and no caps, a single slot goes to the first entry
/// that nothing skips, and to none when there is no such entry.
pub proof fn law_a_single_slot_goes_to_the_first(
    plan: Seq<QueueEntry>,
    counts: Counts,
    caps: Map<Seq<char>, usize>,
    n: int,
)
    requires
        0 <= n <= plan.len(),
        counts.total == 0,
        counts.per_repository@ == Map::<Seq<char>, usize>::empty(),
        counts.task_ids@.len() == 0,
        caps == Map::<Seq<char>, usize>::empty(),
    ensures
        ({
            let picked = batch(plan, counts, 1, caps, n);
            &&& picked.len() <= 1
            &&& picked.len() == 1 ==> first_startable(plan, picked[0])
            &&& picked.len() == 0 ==> forall|j: int|
                0 <= j < n ==> (#[trigger] plan[j]).skip is Some
        }),
    decreases n,
{
    if n > 0 {
        law_a_single_slot_goes_to_the_first(plan, counts, caps, n - 1);
    }
}

/// A batch is in board order, holds no entry twice, and takes only entries that
/// nothing skips and nothing already holds.
pub proof fn law_a_batch_is_taken_in_board_order(
    plan: Seq<QueueEntry>,
    counts: Counts,
    global: usize,
    caps: Map<Seq<char>, usize>,
    n: int,
)
    requires
        0 <= n <= plan.len(),
    ensures
        ({
            let picked = batch(plan, counts, global, caps, n);
            &&& forall|i: int, j: int|
                0 <= i < j < picked.len() ==> (#[trigger] picked[i]) < (#[trigger] picked[j])
            &&& forall|i: int|
                0 <= i < picked.len() ==> 0 <= (#[trigger] picked[i]) < n && plan[picked[i]].skip
                    is None && !counts.holds(plan[picked[i]].task_id@)
        }),
    decreases n,
{
    if n > 0 {
        law_a_batch_is_taken_in_board_order(plan, counts, global, caps, n - 1);
    }
}

/// A batch never takes what is in flight past the global limit, nor a
/// repository past its own cap.
pub proof fn law_a_batch_keeps_both_limits(
    plan: Seq<QueueEntry>,
    counts: Counts,
    global: usize,
    caps: Map<Seq<char>, usize>,
    n: int,
    repository: Seq<char>,
)
    requires
        0 <= n <= plan.len(),
    ensures
        ({
            let picked = batch(plan, counts, global, caps, n);
            &&& picked.len() > 0 ==> counts.total + picked.len() <= global
            &&& picked_in(plan, picked, repository) > 0 ==> counts.of_repository(repository)
                + picked_in(plan, picked, repository) <= capacity::cap_of(caps, repository)
        }),
    decreases n,
{
    if n > 0 {
        law_a_batch_keeps_both_limits(plan, counts, global, caps, n - 1, repository);
        let before = batch(plan, counts, global, caps, n - 1);
        if startable(plan, counts, global, caps, before, n - 1) {
            assert(before.push(n - 1).drop_last() =~= before);
        }
    }
}

proof fn lemma_picked_in_grows(
    plan: Seq<QueueEntry>,
    counts: Counts,
    global: usize,
    caps: Map<Seq<char>, usize>,
    k: int,
    n: int,
    repository: Seq<char>,
)
    requires
        0 <= k <= n <= plan.len(),
    ensures
        batch(plan, counts, global, caps, k).len() <= batch(plan, counts, global, caps, n).len(),
        picked_in(plan, batch(plan, counts, global, caps, k), repository) <= picked_in(
            plan,
            batch(plan, counts, global, caps, n),
            repository,
        ),
        forall|i: int|
            0 <= i < batch(plan, counts, global, caps, k).len() ==> #[trigger] batch(
                plan,
                counts,
                global,
                caps,
                k,
            )[i] == batch(plan, counts, global, caps, n)[i],
    decreases n - k,
{
    if k < n {
        lemma_picked_in_grows(plan, counts, global, caps, k, n - 1, repository);
        let before = batch(plan, counts, global, caps, n - 1);
        if startable(plan, counts, global, caps, before, n - 1) {
            assert(before.push(n - 1).drop_last() =~= before);
        }
    }
}

/// An entry that could start is left out only for want of room: the global
/// limit is reached, or its repository's cap is.
pub proof fn law_a_batch_leaves_no_room_unused(
    plan: Seq<QueueEntry>,
    counts: Counts,
    global: usize,
    caps: Map<Seq<char>, usize>,
    k: int,
)
    requires
        0 <= k < plan.len(),
        plan[k].skip is None,
        !counts.holds(plan[k].task_id@),
        !batch(plan, counts, global, caps, plan.len() as int).contains(k),
    ensures
        ({
            let picked = batch(plan, counts, global, caps, plan.len() as int);
            let repository = plan[k].repository_id@;
            ||| counts.total + picked.len() >= global
            ||| counts.of_repository(repository) + picked_in(plan, picked, repository)
                >= capacity::cap_of(caps, repository)
        }),
{
    let n = plan.len() as int;
    let repository = plan[k].repository_id@;
    let before = batch(plan, counts, global, caps, k);
    lemma_picked_in_grows(plan, counts, global, caps, k, n, repository);
    lemma_picked_in_grows(plan, counts, global, caps, k + 1, n, repository);
    if startable(plan, counts, global, caps, before, k) {
        let after = batch(plan, counts, global, caps, k + 1);
        assert(after == before.push(k));
        assert(after[before.len() as int] == k);
        assert(batch(plan, counts, global, caps, n)[before.len() as int] == k);
    }
}

/// The queue starts a task only where its repository allows it, no dependency
/// holds it back, and it is idle or due to be resumed.
pub proof fn law_what_the_queue_starts(task: TaskSummary, allowed: bool, now: Instant)
    ensures
        reason(task, allowed, now) is None <==> {
            &&& allowed
            &&& !task.blocked_by_incomplete
            &&& task.task.run_state == RunState::Idle || (task.task.run_state
                == RunState::WaitingRetry && (deadline(task) matches Some(at) && !now.earlier(at)))
        },
{
}

/// An entry of a plan that waits for a deadline names it, and the deadline is
/// still ahead.
pub proof fn law_a_waiting_entry_names_its_deadline(
    ready: Seq<TaskSummary>,
    opted_in: Seq<String>,
    now: Instant,
    i: int,
)
    requires
        0 <= i < ready.len(),
        entry(ready, opted_in, now, i).skip == Some(SkipReason::WaitingForRetry),
    ensures
        entry(ready, opted_in, now, i).resume_after matches Some(at) && now.earlier(at),
{
}

/// Entries that will start are numbered from one in board order, without gaps.
pub proof fn law_queue_positions_count_what_will_start(
    ready: Seq<TaskSummary>,
    opted_in: Seq<String>,
    now: Instant,
    i: int,
)
    requires
        0 <= i < ready.len() <= i64::MAX,
        entry(ready, opted_in, now, i).skip is None,
    ensures
        entry(ready, opted_in, now, i).queue_position matches Some(p) && p == claimable(
            ready,
            opted_in,
            now,
            i,
        ) + 1,
{
    lemma_claimable_bound(ready, opted_in, now, i);
}

/// An entry tells of its card, and of no other: its task, its title and its
/// repository, and the deadline of its next attempt exactly where the card waits
/// for a retry and its last run carries one, whether the entry is passed over or
/// will start. One that will start is a resume exactly where its card waits for
/// a retry.
pub proof fn law_an_entry_tells_of_its_card(
    ready: Vec<TaskSummary>,
    opted_in: Vec<String>,
    now: Instant,
    r: Vec<QueueEntry>,
    i: int,
)
    requires
        call_ensures(plan, (&ready, &opted_in, now), r),
        0 <= i < ready@.len(),
    ensures
        r@.len() == ready@.len(),
        r@[i].task_id == ready@[i].task.id,
        r@[i].title == ready@[i].task.title,
        r@[i].repository_id == ready@[i].task.repository_id,
        r@[i].resume_after is Some <==> ready@[i].task.run_state == RunState::WaitingRetry && (
        ready@[i].last_run matches Some(run) && run.resume_after is Some),
        r@[i].resume_after is Some ==> ready@[i].last_run->0.resume_after == r@[i].resume_after,
        r@[i].skip is None ==> (r@[i].resume_after is Some <==> ready@[i].task.run_state
            == RunState::WaitingRetry),
        r@[i].queue_position is Some <==> r@[i].skip is None,
{
    assert(r@[i] == entry(ready@, opted_in@, now, i));
}

/// Why a card is passed over, and when it is not: its repository has to allow
/// it, then no dependency may hold it back, and then its own state decides. A
/// card that waits for a retry starts once its deadline has come.
pub proof fn law_why_a_card_is_passed_over(
    ready: Vec<TaskSummary>,
    opted_in: Vec<String>,
    now: Instant,
    r: Vec<QueueEntry>,
    i: int,
    allowed: bool,
    due: Option<Instant>,
)
    requires
        call_ensures(plan, (&ready, &opted_in, now), r),
        0 <= i < ready@.len(),
        allowed <==> exists|k: int|
            0 <= k < opted_in@.len() && (#[trigger] opted_in@[k])@ == ready@[i].task.repository_id@,
        due == (match ready@[i].last_run {
            Some(run) => run.resume_after,
            None => None,
        }),
    ensures
        ({
            let card = ready@[i];
            let state = card.task.run_state;
            let free = allowed && !card.blocked_by_incomplete;
            let skip = r@[i].skip;
            &&& skip == Some(SkipReason::UnattendedRunsNotAllowed) <==> !allowed
            &&& skip == Some(SkipReason::DependencyNotSatisfied) <==> allowed && (
            card.blocked_by_incomplete || state == RunState::Blocked)
            &&& skip == Some(SkipReason::AlreadyInFlight) <==> free && (state == RunState::Queued
                || state == RunState::Running || (state == RunState::WaitingRetry && due is None))
            &&& skip == Some(SkipReason::WaitingForRetry) <==> free && state
                == RunState::WaitingRetry && (due matches Some(at) && now.earlier(at))
            &&& skip == Some(SkipReason::NeedsAttention) <==> free && (state == RunState::Failed
                || state == RunState::Cancelled)
            &&& skip is None <==> free && (state == RunState::Idle || (state
                == RunState::WaitingRetry && (due matches Some(at) && !now.earlier(at))))
        }),
{
    assert(r@[i] == entry(ready@, opted_in@, now, i));
    assert(allowed == among(opted_in@, ready@[i].task.repository_id@));
}

proof fn lemma_claimable_between(
    ready: Seq<TaskSummary>,
    opted_in: Seq<String>,
    now: Instant,
    i: int,
    j: int,
)
    requires
        0 <= i <= j <= ready.len(),
    ensures
        claimable(ready, opted_in, now, i) <= claimable(ready, opted_in, now, j),
        (forall|k: int|
            i <= k < j ==> card_reason(#[trigger] ready[k], opted_in, now) is Some) ==> claimable(
            ready,
            opted_in,
            now,
            i,
        ) == claimable(ready, opted_in, now, j),
    decreases j - i,
{
    if i < j {
        lemma_claimable_between(ready, opted_in, now, i, j - 1);
    }
}

/// What will start is numbered in board order: the first is number one, each
/// has a higher number than the ones above it, and the next one down has the
/// next number.
pub proof fn law_what_will_start_is_numbered_in_board_order(
    ready: Vec<TaskSummary>,
    opted_in: Vec<String>,
    now: Instant,
    r: Vec<QueueEntry>,
    i: int,
    j: int,
)
    requires
        call_ensures(plan, (&ready, &opted_in, now), r),
        0 <= i < j < ready@.len() <= i64::MAX,
    ensures
        r@[i].skip is None && (forall|k: int| 0 <= k < i ==> (#[trigger] r@[k]).skip is Some)
            ==> r@[i].queue_position == Some(1i64),
        r@[i].skip is None && r@[j].skip is None ==> r@[i].queue_position->0
            < r@[j].queue_position->0,
        r@[i].skip is None && r@[j].skip is None && (forall|k: int|
            i < k < j ==> (#[trigger] r@[k]).skip is Some) ==> r@[j].queue_position->0
            == r@[i].queue_position->0 + 1,
{
    let cards = ready@;
    let allowed = opted_in@;
    assert forall|k: int| 0 <= k < cards.len() implies (#[trigger] r@[k]).skip == card_reason(
        cards[k],
        allowed,
        now,
    ) by {
        assert(r@[k] == entry(cards, allowed, now, k));
    }
    assert(r@[i] == entry(cards, allowed, now, i));
    assert(r@[j] == entry(cards, allowed, now, j));
    lemma_claimable_bound(cards, allowed, now, i + 1);
    lemma_claimable_bound(cards, allowed, now, j + 1);
    lemma_claimable_between(cards, allowed, now, 0, i);
    lemma_claimable_between(cards, allowed, now, i + 1, j);
    if forall|k: int| 0 <= k < i ==> (#[trigger] r@[k]).skip is Some {
        assert forall|k: int| 0 <= k < i implies card_reason(#[trigger] cards[k], allowed, now)
            is Some by {
            assert(r@[k].skip is Some);
        }
    }
    if forall|k: int| i < k < j ==> (#[trigger] r@[k]).skip is Some {
        assert forall|k: int| i + 1 <= k < j implies card_reason(#[trigger] cards[k], allowed, now)
            is Some by {
            assert(r@[k].skip is Some);
        }
    }
}

/// The next deadline of a plan is the earliest that an entry waits for: one of
/// theirs, none of theirs is earlier, and there is none where nothing waits.
pub proof fn law_the_next_deadline_is_the_earliest_awaited(
    plan: Vec<QueueEntry>,
    r: Option<Instant>,
)
    requires
        call_ensures(next_deadline, (&plan,), r),
    ensures
        match r {
            Some(at) => {
                &&& exists|i: int|
                    0 <= i < plan@.len() && (#[trigger] plan@[i]).skip == Some(
                        SkipReason::WaitingForRetry,
                    ) && plan@[i].resume_after == Some(at)
                &&& forall|i: int|
                    0 <= i < plan@.len() && (#[trigger] plan@[i]).skip == Some(
                        SkipReason::WaitingForRetry,
                    ) ==> (plan@[i].resume_after matches Some(other) ==> !other.earlier(at))
            },
            None => forall|i: int|
                0 <= i < plan@.len() && (#[trigger] plan@[i]).skip == Some(
                    SkipReason::WaitingForRetry,
                ) ==> plan@[i].resume_after is None,
        },
{
    law_the_deadline_is_the_earliest(plan@);
    match r {
        Some(at) => {
            let i = choose|i: int| 0 <= i < plan@.len() && awaited(#[trigger] plan@[i]) == Some(at);
            assert(plan@[i].resume_after == Some(at));
            assert forall|i: int|
                0 <= i < plan@.len() && (#[trigger] plan@[i]).skip == Some(
                    SkipReason::WaitingForRetry,
                ) implies (plan@[i].resume_after matches Some(other) ==> !other.earlier(at)) by {
                assert(awaited(plan@[i]) == plan@[i].resume_after);
            }
        },
        None => {
            assert forall|i: int|
                0 <= i < plan@.len() && (#[trigger] plan@[i]).skip == Some(
                    SkipReason::WaitingForRetry,
                ) implies plan@[i].resume_after is None by {
                assert(awaited(plan@[i]) == plan@[i].resume_after);
            }
        },
    }
}

/// The earlier of two instants that may be absent is absent only with both of
/// them; otherwise it is one of them, and neither is earlier.
pub proof fn law_the_earlier_of_two(
    left: Option<Instant>,
    right: Option<Instant>,
    r: Option<Instant>,
)
    requires
        call_ensures(earliest, (left, right), r),
    ensures
        r is None <==> left is None && right is None,
        r is Some ==> r == left || r == right,
        r matches Some(at) ==> (left matches Some(one) ==> !one.earlier(at)) && (
        right matches Some(one) ==> !one.earlier(at)),
{
}

proof fn lemma_batch_above(
    plan: Seq<QueueEntry>,
    counts: Counts,
    global: usize,
    caps: Map<Seq<char>, usize>,
    k: int,
    n: int,
    above: spec_fn(int) -> bool,
)
    requires
        0 <= k <= n <= plan.len(),
        forall|i: int| #[trigger] above(i) <==> i < k,
    ensures
        batch(plan, counts, global, caps, n).filter(above) == batch(plan, counts, global, caps, k),
        k < n ==> (batch(plan, counts, global, caps, n).contains(k) <==> startable(
            plan,
            counts,
            global,
            caps,
            batch(plan, counts, global, caps, k),
            k,
        )),
    decreases n,
{
    reveal(Seq::filter);
    let all = batch(plan, counts, global, caps, n);
    if n == k {
        law_a_batch_is_taken_in_board_order(plan, counts, global, caps, n);
        lemma_filter_all(all, above);
    } else {
        let before = batch(plan, counts, global, caps, n - 1);
        lemma_batch_above(plan, counts, global, caps, k, n - 1, above);
        law_a_batch_is_taken_in_board_order(plan, counts, global, caps, n - 1);
        if startable(plan, counts, global, caps, before, n - 1) {
            assert(all.drop_last() =~= before);
            if k == n - 1 {
                assert(all[all.len() - 1] == k);
            } else {
                assert(all.contains(k) <==> before.contains(k)) by {
                    if all.contains(k) {
                        let p = choose|p: int| 0 <= p < all.len() && all[p] == k;
                        assert(before[p] == k);
                    }
                    if before.contains(k) {
                        let p = choose|p: int| 0 <= p < before.len() && before[p] == k;
                        assert(all[p] == k);
                    }
                }
            }
        } else if k == n - 1 {
            assert(!before.contains(k));
        }
    }
}

proof fn lemma_filter_all(s: Seq<int>, keep: spec_fn(int) -> bool)
    requires
        forall|i: int| 0 <= i < s.len() ==> keep(#[trigger] s[i]),
    ensures
        s.filter(keep) == s,
    decreases s.len(),
{
    reveal(Seq::filter);
    if s.len() > 0 {
        let fewer = s.drop_last();
        assert forall|i: int| 0 <= i < fewer.len() implies keep(#[trigger] fewer[i]) by {
            assert(fewer[i] == s[i]);
        }
        lemma_filter_all(fewer, keep);
        assert(keep(s[s.len() - 1]));
        assert(fewer.push(s.last()) =~= s);
    }
}

proof fn lemma_picked_in(
    plan: Seq<QueueEntry>,
    picked: Seq<int>,
    repository: Seq<char>,
    there: spec_fn(int) -> bool,
)
    requires
        forall|i: int| #[trigger] there(i) <==> plan[i].repository_id@ == repository,
    ensures
        picked_in(plan, picked, repository) == picked.filter(there).len(),
    decreases picked.len(),
{
    reveal(Seq::filter);
    if picked.len() > 0 {
        lemma_picked_in(plan, picked.drop_last(), repository, there);
    }
}

/// Board order is priority: an entry is taken exactly where nothing passes it
/// over, its task has no run yet, and the runs in flight together with what is
/// taken from above it leave room, under the limit on all runs and under its
/// own repository's. What stands below it never takes its place.
pub proof fn law_board_order_is_priority(
    plan: Seq<QueueEntry>,
    counts: Counts,
    global: usize,
    caps: Map<Seq<char>, usize>,
    k: int,
    above: Seq<int>,
    running: int,
    cap: int,
)
    requires
        0 <= k < plan.len(),
        above == batch(plan, counts, global, caps, plan.len() as int).filter(|i: int| i < k),
        running == (if counts.per_repository@.contains_key(plan[k].repository_id@) {
            counts.per_repository@[plan[k].repository_id@] as int
        } else {
            0
        }),
        cap == (if caps.contains_key(plan[k].repository_id@) {
            caps[plan[k].repository_id@] as int
        } else {
            1
        }),
    ensures
        batch(plan, counts, global, caps, plan.len() as int).contains(k) <==> {
            &&& plan[k].skip is None
            &&& forall|i: int|
                0 <= i < counts.task_ids@.len() ==> (#[trigger] counts.task_ids@[i])@
                    != plan[k].task_id@
            &&& counts.total + above.len() < global
            &&& running + above.filter(
                |i: int| plan[i].repository_id@ == plan[k].repository_id@,
            ).len() < cap
        },
{
    lemma_batch_above(plan, counts, global, caps, k, plan.len() as int, |i: int| i < k);
    lemma_picked_in(
        plan,
        above,
        plan[k].repository_id@,
        |i: int| plan[i].repository_id@ == plan[k].repository_id@,
    );
}

/// The task that is claimed next is the highest that nothing passes over.
pub proof fn law_the_next_to_start_is_the_highest(plan: Vec<QueueEntry>, r: Option<&QueueEntry>)
    requires
        call_ensures(next_to_start, (&plan,), r),
    ensures
        match r {
            Some(next) => next.skip is None && exists|i: int|
                0 <= i < plan@.len() && (#[trigger] plan@[i]) == *next && forall|j: int|
                    0 <= j < i ==> (#[trigger] plan@[j]).skip is Some,
            None => forall|i: int| 0 <= i < plan@.len() ==> (#[trigger] plan@[i]).skip is Some,
        },
{
    if let Some(next) = r {
        let i = choose|i: int| #[trigger] first_startable(plan@, i) && *next == plan@[i];
        assert(plan@[i] == *next);
    }
}

/// The first of a batch could start on its own.
pub proof fn lemma_first_of_a_batch(
    plan: Seq<QueueEntry>,
    counts: Counts,
    global: usize,
    caps: Map<Seq<char>, usize>,
    n: int,
)
    requires
        0 <= n <= plan.len(),
        batch(plan, counts, global, caps, n).len() > 0,
    ensures
        startable(plan, counts, global, caps, seq![], batch(plan, counts, global, caps, n)[0]),
    decreases n,
{
    let before = batch(plan, counts, global, caps, n - 1);
    if before.len() > 0 {
        lemma_first_of_a_batch(plan, counts, global, caps, n - 1);
    } else {
        assert(before =~= seq![]);
    }
}

/// A batch is entries of the plan that nothing passes over and that have no run,
/// in the plan's order, and there is room for every one of them; and whoever
/// could still start is in it.
pub proof fn law_a_batch_takes_whoever_may_start(
    plan: Vec<QueueEntry>,
    in_flight: Counts,
    global: usize,
    per_repository: TextMap<usize>,
    r: Vec<&QueueEntry>,
    i: int,
    k: int,
    cap: int,
    there: int,
)
    requires
        call_ensures(next_batch, (&plan, &in_flight, global, &per_repository), r),
        0 <= k < plan@.len(),
        cap == (if per_repository@.contains_key(plan@[k].repository_id@) {
            per_repository@[plan@[k].repository_id@] as int
        } else {
            1
        }),
        there == (if in_flight.per_repository@.contains_key(plan@[k].repository_id@) {
            in_flight.per_repository@[plan@[k].repository_id@] as int
        } else {
            0
        }),
    ensures
        0 <= i < r@.len() ==> r@[i].skip is None && (forall|t: int|
            0 <= t < in_flight.task_ids@.len() ==> (#[trigger] in_flight.task_ids@[t])@
                != r@[i].task_id@) && exists|c: int|
            0 <= c < plan@.len() && (#[trigger] plan@[c]) == *r@[i],
        r@.len() > 0 ==> in_flight.total + r@.len() <= global,
        plan@[k].skip is None && in_flight.total < global && there < cap && (forall|t: int|
            0 <= t < in_flight.task_ids@.len() ==> (#[trigger] in_flight.task_ids@[t])@
                != plan@[k].task_id@) ==> r@.len() > 0,
{
    let places = batch(plan@, in_flight, global, per_repository@, plan@.len() as int);
    law_a_batch_is_taken_in_board_order(
        plan@,
        in_flight,
        global,
        per_repository@,
        plan@.len() as int,
    );
    lemma_batch_members(plan@, in_flight, global, per_repository@, plan@.len() as int);
    if 0 <= i < r@.len() {
        assert(*r@[i] == plan@[places[i]]);
        assert(!in_flight.holds(plan@[places[i]].task_id@));
    }
    if r@.len() == 0 && plan@[k].skip is None && !in_flight.holds(plan@[k].task_id@) {
        assert(!places.contains(k));
        law_a_batch_leaves_no_room_unused(plan@, in_flight, global, per_repository@, k);
    }
}

/// Whoever is in a batch has no run, and there is room for all of it.
proof fn lemma_batch_members(
    plan: Seq<QueueEntry>,
    counts: Counts,
    global: usize,
    caps: Map<Seq<char>, usize>,
    n: int,
)
    requires
        0 <= n <= plan.len(),
    ensures
        ({
            let places = batch(plan, counts, global, caps, n);
            &&& places.len() > 0 ==> counts.total + places.len() <= global
            &&& forall|i: int|
                0 <= i < places.len() ==> 0 <= #[trigger] places[i] < plan.len()
                    && !counts.holds(plan[places[i]].task_id@)
        }),
    decreases n,
{
    if n > 0 {
        lemma_batch_members(plan, counts, global, caps, n - 1);
    }
}

/// Why a card is passed over, and when it resumes, is what its plan entry says.
pub proof fn law_a_card_and_its_reason(
    task: TaskSummary,
    allowed: bool,
    now: Instant,
    skip: Option<SkipReason>,
    resume: Option<Instant>,
)
    requires
        call_ensures(skip_reason, (&task, allowed, now), skip),
        call_ensures(scheduled_resume, (&task,), resume),
    ensures
        !allowed ==> skip is Some,
        skip == Some(SkipReason::UnattendedRunsNotAllowed) <==> !allowed,
        task.last_run is None ==> resume is None,
        resume is Some ==> resume == task.last_run->0.resume_after,
{
}

} // verus!
