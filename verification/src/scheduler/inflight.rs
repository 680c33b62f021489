//! Which tasks this process has a run for, right now.
//!
//! Counting and inserting are one operation: a caller that asked how many runs
//! a repository has and then inserted would be acting on a number somebody else
//! can change in between.

use vstd::prelude::*;
use vstd::string::*;

use crate::text;
use crate::text::{decimal_text, same, sort};
use crate::textmap::TextMap;

verus! {

/// The most runs this process supervises at once, whatever any setting says.
pub const CONCURRENCY_CEILING: usize = 8;

/// Who asked for a run.
#[derive(Debug, Clone, Copy, PartialEq, Eq, Hash, Structural)]
pub enum LeaseOwner {
    /// The scheduler picked it off the board.
    Queue,
    /// A human pressed a button.
    Manual,
}

/// Why a slot was refused.
#[derive(Debug, Clone, PartialEq, Eq)]
pub enum LeaseRefused {
    /// This process already has a run for that task.
    AlreadyInFlight,
    /// As many runs are in flight as may be.
    AtGlobalLimit { limit: usize },
    /// As many runs are in flight in that repository as may be.
    AtRepositoryLimit { repository_id: String, limit: usize },
}

impl LeaseRefused {
    /// The sentence a reader sees.
    pub open spec fn sentence(self) -> Seq<char> {
        match self {
            LeaseRefused::AlreadyInFlight => "a run is already in progress for this"@
                + " task; wait for it to finish or cancel it first"@,
            LeaseRefused::AtGlobalLimit { limit } => text::decimal(limit as nat) + " run"@ + (if limit
                == 1 {
                " is"@
            } else {
                "s are"@
            })
                + " already in flight, which is as many as this queue may supervise at once; raise the concurrency limit in Settings or wait for one to finish"@,
            LeaseRefused::AtRepositoryLimit { limit, .. } => "this repository already has "@
                + text::decimal(limit as nat) + " run"@ + (if limit == 1 {
                ""@
            } else {
                "s"@
            })
                + " in flight; two agents in one repository fight over ports, test databases and lockfiles, so raise that repository's own limit deliberately or wait"@,
        }
    }

    /// The sentence a card or a tool response shows.
    pub fn message(&self) -> (r: String)
        ensures
            r@ == self.sentence(),
    {
        match self {
            LeaseRefused::AlreadyInFlight => {
                let mut message = "a run is already in progress for this".to_owned();
                message.append(" task; wait for it to finish or cancel it first");
                message
            },
            LeaseRefused::AtGlobalLimit { limit } => {
                let mut message = decimal_text(*limit as u64);
                message.append(" run");
                message.append(if *limit == 1 {
                    " is"
                } else {
                    "s are"
                });
                message.append(
                    " already in flight, which is as many as this queue may supervise at once; raise the concurrency limit in Settings or wait for one to finish",
                );
                message
            },
            LeaseRefused::AtRepositoryLimit { limit, .. } => {
                let mut message = "this repository already has ".to_owned();
                message.append(decimal_text(*limit as u64).as_str());
                message.append(" run");
                message.append(if *limit == 1 {
                    ""
                } else {
                    "s"
                });
                message.append(
                    " in flight; two agents in one repository fight over ports, test databases and lockfiles, so raise that repository's own limit deliberately or wait",
                );
                message
            },
        }
    }
}

/// The two numbers a slot is checked against.
#[derive(Debug, Clone, Copy, PartialEq, Eq, Structural)]
pub struct Capacity {
    pub global: usize,
    pub per_repository: usize,
}

impl Capacity {
    /// One run at a time, anywhere.
    pub fn sequential() -> (r: Capacity)
        ensures
            r == (Capacity { global: 1, per_repository: 1 }),
    {
        Capacity { global: 1, per_repository: 1 }
    }
}

/// What is in flight, as a value to reason over.
#[derive(Debug, Clone, PartialEq, Eq)]
pub struct Counts {
    pub total: usize,
    pub per_repository: TextMap<usize>,
    pub task_ids: Vec<String>,
}

impl Counts {
    /// Nothing in flight.
    pub fn none() -> (r: Counts)
        ensures
            r.total == 0,
            r.per_repository@ == Map::<Seq<char>, usize>::empty(),
            r.task_ids@.len() == 0,
    {
        Counts { total: 0, per_repository: TextMap::new(), task_ids: Vec::new() }
    }

    /// How many runs `repository` has in flight.
    pub open spec fn of_repository(self, repository: Seq<char>) -> usize {
        if self.per_repository@.contains_key(repository) {
            self.per_repository@[repository]
        } else {
            0
        }
    }

    /// Whether `task` has a run in flight.
    pub open spec fn holds(self, task: Seq<char>) -> bool {
        exists|i: int| 0 <= i < self.task_ids@.len() && (#[trigger] self.task_ids@[i])@ == task
    }

    /// How many runs a repository has in flight.
    pub fn in_repository(&self, repository_id: &str) -> (r: usize)
        ensures
            r == self.of_repository(repository_id@),
    {
        match self.per_repository.get(repository_id) {
            Some(count) => *count,
            None => 0,
        }
    }

    /// Whether a task has a run in flight.
    pub fn has_task(&self, task_id: &str) -> (r: bool)
        ensures
            r == self.holds(task_id@),
    {
        let n: usize = self.task_ids.len();
        let mut i: usize = 0;
        while i < n
            invariant
                i <= n,
                n == self.task_ids.len(),
                forall|j: int| 0 <= j < i ==> (#[trigger] self.task_ids@[j])@ != task_id@,
            decreases n - i,
        {
            if same(self.task_ids[i].as_str(), task_id) {
                return true;
            }
            i += 1;
        }
        false
    }
}

/// One occupied slot.
#[derive(Debug, Clone, PartialEq, Eq)]
pub struct Slot {
    pub task_id: String,
    pub repository_id: String,
    pub owner: LeaseOwner,
    /// Whether the run was asked to stop.
    pub cancelled: bool,
}

/// The receipt for one occupied slot.
#[derive(Debug, PartialEq, Eq)]
pub struct Lease {
    task_id: String,
}

impl Lease {
    /// The task the slot is for.
    pub closed spec fn task(self) -> Seq<char> {
        self.task_id@
    }

    /// The task the slot is for.
    pub fn task_id(&self) -> (r: &str)
        ensures
            r@ == self.task(),
    {
        self.task_id.as_str()
    }
}

/// The runs in flight.
#[derive(Debug, PartialEq, Eq)]
pub struct InFlight {
    slots: Vec<Slot>,
    released: u64,
}

/// Some slot is for `task`.
pub open spec fn held(slots: Seq<Slot>, task: Seq<char>) -> bool {
    exists|i: int| 0 <= i < slots.len() && (#[trigger] slots[i]).task_id@ == task
}

/// How many slots are in `repository`.
pub open spec fn in_repository(slots: Seq<Slot>, repository: Seq<char>) -> nat
    decreases slots.len(),
{
    if slots.len() == 0 {
        0
    } else {
        in_repository(slots.drop_last(), repository) + if slots.last().repository_id@
            == repository {
            1nat
        } else {
            0
        }
    }
}

/// No two slots are for one task.
pub open spec fn distinct(slots: Seq<Slot>) -> bool {
    forall|i: int, j: int|
        0 <= i < j < slots.len() ==> (#[trigger] slots[i]).task_id@ != (#[trigger] slots[j]).task_id@
}

/// `slots` without the one for `task`.
pub open spec fn without(slots: Seq<Slot>, task: Seq<char>) -> Seq<Slot>
    decreases slots.len(),
{
    if slots.len() == 0 {
        slots
    } else if slots.last().task_id@ == task {
        slots.drop_last()
    } else {
        without(slots.drop_last(), task).push(slots.last())
    }
}

/// The tasks of `slots`, in order.
pub open spec fn tasks_of(slots: Seq<Slot>) -> Seq<String> {
    slots.map_values(|slot: Slot| slot.task_id)
}

/// The most runs a request with this capacity may find in flight and still be
/// let in under.
pub open spec fn global_limit(capacity: Option<Capacity>) -> usize {
    match capacity {
        Some(c) => if c.global < CONCURRENCY_CEILING {
            c.global
        } else {
            CONCURRENCY_CEILING
        },
        None => CONCURRENCY_CEILING,
    }
}

/// A request is let in: the task has no run, and neither limit is reached.
pub open spec fn admitted(
    slots: Seq<Slot>,
    task: Seq<char>,
    repository: Seq<char>,
    capacity: Option<Capacity>,
) -> bool {
    &&& !held(slots, task)
    &&& slots.len() < global_limit(capacity)
    &&& capacity matches Some(c) ==> in_repository(slots, repository) < c.per_repository
}

/// The refusal a request that is not let in gets.
pub open spec fn refused_as(
    refusal: LeaseRefused,
    slots: Seq<Slot>,
    task: Seq<char>,
    repository: Seq<char>,
    capacity: Option<Capacity>,
) -> bool {
    if held(slots, task) {
        refusal == LeaseRefused::AlreadyInFlight
    } else if slots.len() >= global_limit(capacity) {
        refusal == (LeaseRefused::AtGlobalLimit { limit: global_limit(capacity) })
    } else {
        capacity matches Some(c) && refusal matches LeaseRefused::AtRepositoryLimit {
            repository_id,
            limit,
        } && repository_id@ == repository && limit == c.per_repository
    }
}

/// `slots` with one more, for `task`.
pub open spec fn with_slot(
    after: Seq<Slot>,
    slots: Seq<Slot>,
    task: Seq<char>,
    repository: Seq<char>,
    owner: LeaseOwner,
) -> bool {
    &&& after.len() == slots.len() + 1
    &&& after.drop_last() == slots
    &&& after.last().task_id@ == task
    &&& after.last().repository_id@ == repository
    &&& after.last().owner == owner
    &&& !after.last().cancelled
}

/// `slots` with every one that `asked` picks asked to stop.
pub open spec fn stopped(
    after: Seq<Slot>,
    slots: Seq<Slot>,
    asked: spec_fn(Slot) -> bool,
) -> bool {
    &&& after.len() == slots.len()
    &&& forall|i: int|
        0 <= i < slots.len() ==> (#[trigger] after[i]) == if asked(slots[i]) {
            Slot { cancelled: true, ..slots[i] }
        } else {
            slots[i]
        }
}

proof fn lemma_in_repository_bound(slots: Seq<Slot>, repository: Seq<char>)
    ensures
        in_repository(slots, repository) <= slots.len(),
    decreases slots.len(),
{
    if slots.len() > 0 {
        lemma_in_repository_bound(slots.drop_last(), repository);
    }
}

proof fn lemma_without_removes(slots: Seq<Slot>, task: Seq<char>, i: int)
    requires
        distinct(slots),
        0 <= i < slots.len(),
        slots[i].task_id@ == task,
    ensures
        without(slots, task) == slots.remove(i),
    decreases slots.len(),
{
    let fewer = slots.drop_last();
    if i == slots.len() - 1 {
        assert(slots.remove(i) =~= fewer);
    } else {
        assert(slots.last().task_id@ != task);
        assert(fewer[i] == slots[i]);
        assert(distinct(fewer));
        lemma_without_removes(fewer, task, i);
        assert(fewer.remove(i).push(slots.last()) =~= slots.remove(i));
    }
}

proof fn lemma_without_absent(slots: Seq<Slot>, task: Seq<char>)
    requires
        !held(slots, task),
    ensures
        without(slots, task) == slots,
    decreases slots.len(),
{
    if slots.len() > 0 {
        let fewer = slots.drop_last();
        assert(slots[slots.len() - 1].task_id@ != task);
        assert forall|i: int| 0 <= i < fewer.len() implies (#[trigger] fewer[i]).task_id@ != task by {
            assert(fewer[i] == slots[i]);
        }
        lemma_without_absent(fewer, task);
        assert(fewer.push(slots.last()) =~= slots);
    }
}

/// Giving a slot back leaves what was in flight before it was taken.
pub proof fn law_a_release_undoes_an_acquire(
    after: Seq<Slot>,
    slots: Seq<Slot>,
    task: Seq<char>,
    repository: Seq<char>,
    owner: LeaseOwner,
)
    requires
        with_slot(after, slots, task, repository, owner),
    ensures
        without(after, task) == slots,
{
}

/// Every slot taken under a capacity leaves both limits kept: no more in flight
/// than the global limit and the ceiling allow, and no more in the repository
/// than its own cap.
pub proof fn law_an_acquire_keeps_both_limits(
    after: Seq<Slot>,
    slots: Seq<Slot>,
    task: Seq<char>,
    repository: Seq<char>,
    owner: LeaseOwner,
    capacity: Capacity,
)
    requires
        admitted(slots, task, repository, Some(capacity)),
        with_slot(after, slots, task, repository, owner),
    ensures
        after.len() <= capacity.global,
        after.len() <= CONCURRENCY_CEILING,
        in_repository(after, repository) <= capacity.per_repository,
        forall|other: Seq<char>|
            other != repository ==> in_repository(after, other) == in_repository(slots, other),
{
}

impl InFlight {
    /// The occupied slots.
    pub closed spec fn slots(self) -> Seq<Slot> {
        self.slots@
    }

    /// How many slots have been given back so far.
    pub closed spec fn releases(self) -> u64 {
        self.released
    }

    /// One slot per task, and never more than the ceiling.
    pub open spec fn well_formed(self) -> bool {
        &&& distinct(self.slots())
        &&& self.slots().len() <= CONCURRENCY_CEILING
    }

    /// Nothing in flight.
    pub fn new() -> (r: InFlight)
        ensures
            r.well_formed(),
            r.slots().len() == 0,
            r.releases() == 0,
    {
        InFlight { slots: Vec::new(), released: 0 }
    }

    fn find(&self, task_id: &str) -> (r: Option<usize>)
        ensures
            match r {
                Some(i) => i < self.slots@.len() && self.slots@[i as int].task_id@ == task_id@,
                None => !held(self.slots(), task_id@),
            },
    {
        let n: usize = self.slots.len();
        let mut i: usize = 0;
        while i < n
            invariant
                i <= n,
                n == self.slots.len(),
                forall|j: int| 0 <= j < i ==> (#[trigger] self.slots@[j]).task_id@ != task_id@,
            decreases n - i,
        {
            if same(self.slots[i].task_id.as_str(), task_id) {
                return Some(i);
            }
            i += 1;
        }
        None
    }

    fn count_in(&self, repository_id: &str) -> (r: usize)
        ensures
            r == in_repository(self.slots(), repository_id@),
    {
        let n: usize = self.slots.len();
        let mut i: usize = 0;
        let mut count: usize = 0;
        assert(self.slots@.take(0).len() == 0);
        while i < n
            invariant
                i <= n,
                n == self.slots.len(),
                count == in_repository(self.slots@.take(i as int), repository_id@),
                count <= i,
            decreases n - i,
        {
            proof {
                assert(self.slots@.take(i + 1).drop_last() =~= self.slots@.take(i as int));
                assert(self.slots@.take(i + 1).last() == self.slots@[i as int]);
            }
            if same(self.slots[i].repository_id.as_str(), repository_id) {
                count += 1;
            }
            i += 1;
        }
        assert(self.slots@.take(n as int) =~= self.slots@);
        count
    }

    /// Takes a slot for a task, or says why it cannot.
    pub fn acquire(
        &mut self,
        task_id: &str,
        repository_id: &str,
        owner: LeaseOwner,
        capacity: Capacity,
    ) -> (r: Result<Lease, LeaseRefused>)
        requires
            old(self).well_formed(),
        ensures
            final(self).well_formed(),
            final(self).releases() == old(self).releases(),
            r is Ok <==> admitted(old(self).slots(), task_id@, repository_id@, Some(capacity)),
            match r {
                Ok(lease) => lease.task() == task_id@ && with_slot(
                    final(self).slots(),
                    old(self).slots(),
                    task_id@,
                    repository_id@,
                    owner,
                ),
                Err(refusal) => final(self).slots() == old(self).slots() && refused_as(
                    refusal,
                    old(self).slots(),
                    task_id@,
                    repository_id@,
                    Some(capacity),
                ),
            },
    {
        self.insert(task_id, repository_id, owner, Some(capacity))
    }

    /// Takes a slot for a run a human asked for: only the task itself and the
    /// ceiling can refuse it.
    pub fn acquire_unbounded(
        &mut self,
        task_id: &str,
        repository_id: &str,
        owner: LeaseOwner,
    ) -> (r: Result<Lease, LeaseRefused>)
        requires
            old(self).well_formed(),
        ensures
            final(self).well_formed(),
            final(self).releases() == old(self).releases(),
            r is Ok <==> admitted(old(self).slots(), task_id@, repository_id@, None),
            match r {
                Ok(lease) => lease.task() == task_id@ && with_slot(
                    final(self).slots(),
                    old(self).slots(),
                    task_id@,
                    repository_id@,
                    owner,
                ),
                Err(refusal) => final(self).slots() == old(self).slots() && refused_as(
                    refusal,
                    old(self).slots(),
                    task_id@,
                    repository_id@,
                    None,
                ),
            },
    {
        self.insert(task_id, repository_id, owner, None)
    }

    fn insert(
        &mut self,
        task_id: &str,
        repository_id: &str,
        owner: LeaseOwner,
        capacity: Option<Capacity>,
    ) -> (r: Result<Lease, LeaseRefused>)
        requires
            old(self).well_formed(),
        ensures
            final(self).well_formed(),
            final(self).releases() == old(self).releases(),
            r is Ok <==> admitted(old(self).slots(), task_id@, repository_id@, capacity),
            match r {
                Ok(lease) => lease.task() == task_id@ && with_slot(
                    final(self).slots(),
                    old(self).slots(),
                    task_id@,
                    repository_id@,
                    owner,
                ),
                Err(refusal) => final(self).slots() == old(self).slots() && refused_as(
                    refusal,
                    old(self).slots(),
                    task_id@,
                    repository_id@,
                    capacity,
                ),
            },
    {
        if self.find(task_id).is_some() {
            return Err(LeaseRefused::AlreadyInFlight);
        }
        let global: usize = match capacity {
            Some(c) => if c.global < CONCURRENCY_CEILING {
                c.global
            } else {
                CONCURRENCY_CEILING
            },
            None => CONCURRENCY_CEILING,
        };
        if self.slots.len() >= global {
            return Err(LeaseRefused::AtGlobalLimit { limit: global });
        }
        if let Some(c) = capacity {
            if self.count_in(repository_id) >= c.per_repository {
                return Err(
                    LeaseRefused::AtRepositoryLimit {
                        repository_id: repository_id.to_owned(),
                        limit: c.per_repository,
                    },
                );
            }
        }
        let ghost earlier = self.slots@;
        self.slots.push(
            Slot {
                task_id: task_id.to_owned(),
                repository_id: repository_id.to_owned(),
                owner,
                cancelled: false,
            },
        );
        assert(self.slots@.drop_last() =~= earlier);
        Ok(Lease { task_id: task_id.to_owned() })
    }

    /// Whether this process has a run for a task.
    pub fn holds(&self, task_id: &str) -> (r: bool)
        ensures
            r == held(self.slots(), task_id@),
    {
        self.find(task_id).is_some()
    }

    /// Every task with a run in flight, in a stable order.
    pub fn task_ids(&self) -> (r: Vec<String>)
        ensures
            text::in_order(r@),
            r@.to_multiset() == tasks_of(self.slots()).to_multiset(),
    {
        sort(self.unsorted_ids())
    }

    fn unsorted_ids(&self) -> (r: Vec<String>)
        ensures
            r@ == tasks_of(self.slots()),
    {
        let n: usize = self.slots.len();
        let mut ids: Vec<String> = Vec::new();
        let mut i: usize = 0;
        while i < n
            invariant
                i <= n,
                n == self.slots.len(),
                ids@ == tasks_of(self.slots@.take(i as int)),
            decreases n - i,
        {
            ids.push(self.slots[i].task_id.clone());
            i += 1;
            assert(ids@ =~= tasks_of(self.slots@.take(i as int)));
        }
        assert(self.slots@.take(n as int) =~= self.slots@);
        ids
    }

    /// What is in flight, as a value.
    pub fn counts(&self) -> (r: Counts)
        ensures
            r.total == self.slots().len(),
            forall|repository: Seq<char>|
                #![trigger in_repository(self.slots(), repository)]
                #![trigger r.of_repository(repository)]
                r.of_repository(repository) == in_repository(self.slots(), repository),
            r.task_ids@ == tasks_of(self.slots()),
            forall|task: Seq<char>|
                #![trigger held(self.slots(), task)]
                #![trigger r.holds(task)]
                r.holds(task) == held(self.slots(), task),
    {
        let n: usize = self.slots.len();
        let mut per_repository: TextMap<usize> = TextMap::new();
        let mut i: usize = 0;
        assert(self.slots@.take(0).len() == 0);
        while i < n
            invariant
                i <= n,
                n == self.slots.len(),
                forall|repository: Seq<char>|
                    #![trigger in_repository(self.slots@.take(i as int), repository)]
                    #![trigger per_repository@.contains_key(repository)]
                    {
                        let count = in_repository(self.slots@.take(i as int), repository);
                        &&& per_repository@.contains_key(repository) <==> count > 0
                        &&& count > 0 ==> per_repository@[repository] == count
                    },
            decreases n - i,
        {
            proof {
                assert(self.slots@.take(i + 1).drop_last() =~= self.slots@.take(i as int));
                assert(self.slots@.take(i + 1).last() == self.slots@[i as int]);
                lemma_in_repository_bound(
                    self.slots@.take(i as int),
                    self.slots@[i as int].repository_id@,
                );
            }
            let repository_id = self.slots[i].repository_id.clone();
            let count: usize = match per_repository.get(repository_id.as_str()) {
                Some(count) => *count,
                None => 0,
            };
            per_repository.insert(repository_id, count + 1);
            i += 1;
        }
        assert(self.slots@.take(n as int) =~= self.slots@);
        let r = Counts { total: n, per_repository, task_ids: self.unsorted_ids() };
        proof {
            assert forall|task: Seq<char>| r.holds(task) == held(self.slots(), task) by {
                if r.holds(task) {
                    let i = choose|i: int|
                        0 <= i < r.task_ids@.len() && (#[trigger] r.task_ids@[i])@ == task;
                    assert(self.slots()[i].task_id@ == task);
                }
                if held(self.slots(), task) {
                    let i = choose|i: int|
                        0 <= i < self.slots().len() && (#[trigger] self.slots()[i]).task_id@ == task;
                    assert(r.task_ids@[i]@ == task);
                }
            }
        }
        r
    }

    /// Whether nothing is in flight.
    pub fn is_empty(&self) -> (r: bool)
        ensures
            r == (self.slots().len() == 0),
    {
        self.slots.len() == 0
    }

    /// Asks a task's run to stop; whether there was one to ask.
    pub fn cancel(&mut self, task_id: &str) -> (r: bool)
        requires
            old(self).well_formed(),
        ensures
            final(self).well_formed(),
            final(self).releases() == old(self).releases(),
            r == held(old(self).slots(), task_id@),
            stopped(
                final(self).slots(),
                old(self).slots(),
                |slot: Slot| slot.task_id@ == task_id@,
            ),
    {
        match self.find(task_id) {
            Some(i) => {
                self.stop_at(i);
                true
            },
            None => false,
        }
    }

    fn stop_at(&mut self, i: usize)
        requires
            i < old(self).slots@.len(),
        ensures
            final(self).released == old(self).released,
            final(self).slots@ == old(self).slots@.update(
                i as int,
                Slot { cancelled: true, ..old(self).slots@[i as int] },
            ),
    {
        let slot = Slot {
            task_id: self.slots[i].task_id.clone(),
            repository_id: self.slots[i].repository_id.clone(),
            owner: self.slots[i].owner,
            cancelled: true,
        };
        self.slots.set(i, slot);
    }

    /// Asks every run that `owner` started to stop; whether there was one.
    pub fn cancel_owned_by(&mut self, owner: LeaseOwner) -> (r: bool)
        requires
            old(self).well_formed(),
        ensures
            final(self).well_formed(),
            final(self).releases() == old(self).releases(),
            r == (exists|i: int|
                0 <= i < old(self).slots().len() && (#[trigger] old(self).slots()[i]).owner
                    == owner),
            stopped(final(self).slots(), old(self).slots(), |slot: Slot| slot.owner == owner),
    {
        let n: usize = self.slots.len();
        let mut asked: bool = false;
        let mut i: usize = 0;
        while i < n
            invariant
                i <= n,
                n == self.slots@.len(),
                n == old(self).slots@.len(),
                self.released == old(self).released,
                asked == (exists|j: int|
                    0 <= j < i && (#[trigger] old(self).slots@[j]).owner == owner),
                forall|j: int|
                    0 <= j < i ==> (#[trigger] self.slots@[j]) == if old(self).slots@[j].owner
                        == owner {
                        Slot { cancelled: true, ..old(self).slots@[j] }
                    } else {
                        old(self).slots@[j]
                    },
                forall|j: int| i <= j < n ==> (#[trigger] self.slots@[j]) == old(self).slots@[j],
            decreases n - i,
        {
            if self.slots[i].owner == owner {
                self.stop_at(i);
                asked = true;
                assert(old(self).slots@[i as int].owner == owner);
            }
            i += 1;
        }
        asked
    }

    /// Asks every run to stop, whoever started it; whether there was one.
    pub fn cancel_all(&mut self) -> (r: bool)
        requires
            old(self).well_formed(),
        ensures
            final(self).well_formed(),
            final(self).releases() == old(self).releases(),
            r == (old(self).slots().len() > 0),
            stopped(final(self).slots(), old(self).slots(), |slot: Slot| true),
    {
        let n: usize = self.slots.len();
        let mut i: usize = 0;
        while i < n
            invariant
                i <= n,
                n == self.slots@.len(),
                n == old(self).slots@.len(),
                self.released == old(self).released,
                forall|j: int|
                    0 <= j < i ==> (#[trigger] self.slots@[j]) == (Slot {
                        cancelled: true,
                        ..old(self).slots@[j]
                    }),
                forall|j: int| i <= j < n ==> (#[trigger] self.slots@[j]) == old(self).slots@[j],
            decreases n - i,
        {
            self.stop_at(i);
            i += 1;
        }
        n > 0
    }

    /// Whether a task's run was asked to stop.
    pub fn is_cancelled(&self, task_id: &str) -> (r: bool)
        requires
            self.well_formed(),
        ensures
            r == (exists|i: int|
                0 <= i < self.slots().len() && (#[trigger] self.slots()[i]).task_id@ == task_id@
                    && self.slots()[i].cancelled),
    {
        match self.find(task_id) {
            Some(i) => self.slots[i].cancelled,
            None => false,
        }
    }

    /// Gives a task's slot back, and counts that one was.
    pub fn release(&mut self, task_id: &str)
        requires
            old(self).well_formed(),
            old(self).releases() < u64::MAX,
        ensures
            final(self).well_formed(),
            final(self).slots() == without(old(self).slots(), task_id@),
            final(self).releases() == old(self).releases() + 1,
            !held(final(self).slots(), task_id@),
    {
        match self.find(task_id) {
            Some(i) => {
                proof {
                    lemma_without_removes(self.slots@, task_id@, i as int);
                }
                self.slots.remove(i);
            },
            None => {
                proof {
                    lemma_without_absent(self.slots@, task_id@);
                }
            },
        }
        self.released = self.released + 1;
    }

    /// How many slots have been given back so far.
    pub fn generation(&self) -> (r: u64)
        ensures
            r == self.releases(),
    {
        self.released
    }
}

/// The slots of a repository are counted one by one.
pub proof fn lemma_in_repository(
    slots: Seq<Slot>,
    repository: Seq<char>,
    there: spec_fn(Slot) -> bool,
)
    requires
        forall|slot: Slot| #[trigger] there(slot) <==> slot.repository_id@ == repository,
    ensures
        in_repository(slots, repository) == slots.filter(there).len(),
    decreases slots.len(),
{
    reveal(Seq::filter);
    if slots.len() > 0 {
        lemma_in_repository(slots.drop_last(), repository, there);
    }
}

/// A slot is to be had exactly where the task has none, the runs in flight leave
/// room under the limit and under the ceiling, and those of its repository leave
/// room under its cap. An unbounded slot asks only for the first and the
/// ceiling.
pub proof fn law_when_a_slot_is_to_be_had(
    slots: Seq<Slot>,
    task: Seq<char>,
    repository: Seq<char>,
    capacity: Capacity,
)
    ensures
        admitted(slots, task, repository, Some(capacity)) <==> {
            &&& forall|i: int| 0 <= i < slots.len() ==> (#[trigger] slots[i]).task_id@ != task
            &&& slots.len() < capacity.global
            &&& slots.len() < CONCURRENCY_CEILING
            &&& slots.filter(|slot: Slot| slot.repository_id@ == repository).len()
                < capacity.per_repository
        },
        admitted(slots, task, repository, None) <==> {
            &&& forall|i: int| 0 <= i < slots.len() ==> (#[trigger] slots[i]).task_id@ != task
            &&& slots.len() < CONCURRENCY_CEILING
        },
{
    lemma_in_repository(slots, repository, |slot: Slot| slot.repository_id@ == repository);
}

/// A refusal names what stands in the way: the task's own slot before anything
/// else, then the limit on all runs, whichever of the two is lower, and only
/// then the repository's.
pub proof fn law_a_refusal_names_what_stands_in_the_way(
    refusal: LeaseRefused,
    slots: Seq<Slot>,
    task: Seq<char>,
    repository: Seq<char>,
    capacity: Option<Capacity>,
)
    requires
        refused_as(refusal, slots, task, repository, capacity),
        !admitted(slots, task, repository, capacity),
    ensures
        refusal is AlreadyInFlight <==> exists|i: int|
            0 <= i < slots.len() && (#[trigger] slots[i]).task_id@ == task,
        refusal matches LeaseRefused::AtGlobalLimit { limit } ==> {
            &&& slots.len() >= limit
            &&& limit <= CONCURRENCY_CEILING
            &&& capacity matches Some(c) ==> limit <= c.global && (limit == c.global || limit
                == CONCURRENCY_CEILING)
            &&& capacity is None ==> limit == CONCURRENCY_CEILING
        },
        refusal matches LeaseRefused::AtRepositoryLimit { repository_id, limit } ==> {
            &&& repository_id@ == repository
            &&& capacity matches Some(c) && limit == c.per_repository
            &&& slots.filter(|slot: Slot| slot.repository_id@ == repository).len() >= limit
        },
{
    lemma_in_repository(slots, repository, |slot: Slot| slot.repository_id@ == repository);
}

/// Taking a slot adds that one slot, with the task, the repository and the owner
/// it was taken for, and leaves every other as it was.
pub proof fn law_a_slot_is_added_and_the_rest_kept(
    after: Seq<Slot>,
    slots: Seq<Slot>,
    task: Seq<char>,
    repository: Seq<char>,
    owner: LeaseOwner,
)
    requires
        with_slot(after, slots, task, repository, owner),
    ensures
        exists|slot: Slot| #[trigger]
            slots.push(slot) == after && slot.task_id@ == task && slot.repository_id@ == repository
                && slot.owner == owner && !slot.cancelled,
{
    assert(slots.push(after.last()) =~= after);
}

/// Giving a slot back takes that task's slot away and keeps every other, in
/// order.
pub proof fn law_a_release_keeps_every_other_slot(slots: Seq<Slot>, task: Seq<char>)
    requires
        distinct(slots),
    ensures
        without(slots, task) == slots.filter(|slot: Slot| slot.task_id@ != task),
{
    lemma_without(slots, task, |slot: Slot| slot.task_id@ != task);
}

proof fn lemma_without(slots: Seq<Slot>, task: Seq<char>, other: spec_fn(Slot) -> bool)
    requires
        distinct(slots),
        forall|slot: Slot| #[trigger] other(slot) <==> slot.task_id@ != task,
    ensures
        without(slots, task) == slots.filter(other),
    decreases slots.len(),
{
    reveal(Seq::filter);
    if slots.len() > 0 {
        let fewer = slots.drop_last();
        assert forall|i: int, j: int| 0 <= i < j < fewer.len() implies (
        #[trigger] fewer[i]).task_id@ != (#[trigger] fewer[j]).task_id@ by {
            assert(fewer[i] == slots[i] && fewer[j] == slots[j]);
        }
        lemma_without(fewer, task, other);
        if slots.last().task_id@ == task {
            assert forall|i: int| 0 <= i < fewer.len() implies (#[trigger] fewer[i]).task_id@
                != task by {
                assert(slots[i].task_id@ != slots[slots.len() - 1].task_id@);
            }
            lemma_without_absent(fewer, task);
        }
    }
}

/// Asking runs to stop marks exactly those that were meant, takes nobody's slot
/// away, and never takes a mark back.
pub proof fn law_asking_to_stop_marks_and_takes_nothing(
    after: Seq<Slot>,
    slots: Seq<Slot>,
    asked: spec_fn(Slot) -> bool,
    i: int,
)
    requires
        stopped(after, slots, asked),
        0 <= i < slots.len(),
    ensures
        after.len() == slots.len(),
        after[i].task_id == slots[i].task_id,
        after[i].repository_id == slots[i].repository_id,
        after[i].owner == slots[i].owner,
        after[i].cancelled <==> slots[i].cancelled || asked(slots[i]),
{
}

/// The tasks in flight are those of the slots, one for each.
pub proof fn law_every_slot_names_its_task(slots: Seq<Slot>, i: int)
    requires
        0 <= i < slots.len(),
    ensures
        tasks_of(slots).len() == slots.len(),
        tasks_of(slots)[i] == slots[i].task_id,
{
}

/// What the registry says of itself is what is in its slots: how many there are,
/// how many in each repository, and whose they are.
pub proof fn law_the_counts_are_the_slots(
    registry: InFlight,
    counts: Counts,
    repository: &str,
    task: &str,
    there: usize,
    has: bool,
)
    requires
        call_ensures(InFlight::counts, (&registry,), counts),
        call_ensures(Counts::in_repository, (&counts, repository), there),
        call_ensures(Counts::has_task, (&counts, task), has),
    ensures
        counts.total == registry.slots().len(),
        there == registry.slots().filter(
            |slot: Slot| slot.repository_id@ == repository@,
        ).len(),
        has <==> exists|i: int|
            0 <= i < registry.slots().len() && (#[trigger] registry.slots()[i]).task_id@ == task@,
{
    lemma_in_repository(
        registry.slots(),
        repository@,
        |slot: Slot| slot.repository_id@ == repository@,
    );
    assert(counts.of_repository(repository@) == in_repository(registry.slots(), repository@));
    assert(counts.holds(task@) == held(registry.slots(), task@));
}

/// Taking a slot answers with the slot or with why there is none, and a refusal
/// changes nothing: the registry lets in what there is room for, and no more.
pub proof fn law_a_refused_slot_changes_nothing(
    registry: &mut InFlight,
    task_id: &str,
    repository_id: &str,
    owner: LeaseOwner,
    capacity: Capacity,
    r: Result<Lease, LeaseRefused>,
)
    requires
        call_ensures(
            InFlight::acquire,
            (registry, task_id, repository_id, owner, capacity),
            r,
        ),
    ensures
        r is Ok <==> {
            &&& forall|i: int|
                0 <= i < old(registry).slots().len() ==> (
                #[trigger] old(registry).slots()[i]).task_id@ != task_id@
            &&& old(registry).slots().len() < capacity.global
            &&& old(registry).slots().len() < CONCURRENCY_CEILING
            &&& old(registry).slots().filter(
                |slot: Slot| slot.repository_id@ == repository_id@,
            ).len() < capacity.per_repository
        },
        r is Err ==> final(registry).slots() == old(registry).slots(),
        r is Ok ==> final(registry).slots().len() == old(registry).slots().len() + 1
            && final(registry).slots().last().task_id@ == task_id@
            && final(registry).slots().last().repository_id@ == repository_id@
            && final(registry).slots().last().owner == owner,
        final(registry).releases() == old(registry).releases(),
{
    law_when_a_slot_is_to_be_had(
        old(registry).slots(),
        task_id@,
        repository_id@,
        capacity,
    );
    lemma_in_repository(
        old(registry).slots(),
        repository_id@,
        |slot: Slot| slot.repository_id@ == repository_id@,
    );
}

/// Giving a slot back frees that task and nobody else, and is counted, so that
/// whoever waits for room hears of it.
pub proof fn law_a_release_is_counted(registry: &mut InFlight, task_id: &str)
    requires
        call_ensures(InFlight::release, (registry, task_id), ()),
        distinct(old(registry).slots()),
    ensures
        final(registry).slots() == old(registry).slots().filter(
            |slot: Slot| slot.task_id@ != task_id@,
        ),
        final(registry).releases() == old(registry).releases() + 1,
{
    lemma_without(old(registry).slots(), task_id@, |slot: Slot| slot.task_id@ != task_id@);
}

/// Asking a task, an owner or everybody to stop marks just those, and says
/// whether there was anybody to ask.
pub proof fn law_asking_to_stop_reaches_whom_it_names(
    one: &mut InFlight,
    some: &mut InFlight,
    all: &mut InFlight,
    task_id: &str,
    owner: LeaseOwner,
    asked: bool,
    asked_some: bool,
    asked_all: bool,
    i: int,
)
    requires
        call_ensures(InFlight::cancel, (one, task_id), asked),
        call_ensures(InFlight::cancel_owned_by, (some, owner), asked_some),
        call_ensures(InFlight::cancel_all, (all,), asked_all),
        old(one).slots() == old(some).slots(),
        old(one).slots() == old(all).slots(),
        0 <= i < old(one).slots().len(),
    ensures
        final(one).slots()[i].cancelled <==> old(one).slots()[i].cancelled || old(
            one,
        ).slots()[i].task_id@ == task_id@,
        final(some).slots()[i].cancelled <==> old(one).slots()[i].cancelled || old(
            one,
        ).slots()[i].owner == owner,
        final(all).slots()[i].cancelled,
        old(one).slots()[i].task_id@ == task_id@ ==> asked,
        old(one).slots()[i].owner == owner ==> asked_some,
        asked_all,
{
}

/// A refusal says its limit in words that fit its number.
pub proof fn law_a_refusal_says_its_limit(refusal: LeaseRefused, r: String)
    requires
        call_ensures(LeaseRefused::message, (&refusal,), r),
    ensures
        refusal matches LeaseRefused::AtGlobalLimit { limit } ==> text::occurs_at(
            r@,
            text::decimal(limit as nat) + (if limit == 1 {
                " run is already in flight"@
            } else {
                " runs are already in flight"@
            }),
            0,
        ),
        refusal matches LeaseRefused::AtRepositoryLimit { limit, .. } ==> text::occurs_at(
            r@,
            "this repository already has "@ + text::decimal(limit as nat) + (if limit == 1 {
                " run in flight"@
            } else {
                " runs in flight"@
            }),
            0,
        ),
{
    reveal_strlit(" run is already in flight");
    reveal_strlit(" runs are already in flight");
    reveal_strlit(" run in flight");
    reveal_strlit(" runs in flight");
    reveal_strlit(" run");
    reveal_strlit(" is");
    reveal_strlit("s are");
    reveal_strlit("");
    reveal_strlit("s");
    reveal_strlit(
        " already in flight, which is as many as this queue may supervise at once; raise the concurrency limit in Settings or wait for one to finish",
    );
    reveal_strlit(
        " in flight; two agents in one repository fight over ports, test databases and lockfiles, so raise that repository's own limit deliberately or wait",
    );
    match refusal {
        LeaseRefused::AtGlobalLimit { limit } => {
            let said = text::decimal(limit as nat) + (if limit == 1 {
                " run is already in flight"@
            } else {
                " runs are already in flight"@
            });
            assert(r@.subrange(0, said.len() as int) =~= said);
        },
        LeaseRefused::AtRepositoryLimit { limit, .. } => {
            let said = "this repository already has "@ + text::decimal(limit as nat) + (if limit
                == 1 {
                " run in flight"@
            } else {
                " runs in flight"@
            });
            assert(r@.subrange(0, said.len() as int) =~= said);
        },
        _ => {},
    }
}

/// A run that nothing bounds is refused a slot only where its task holds one, or
/// where the ceiling is reached; and a refusal changes nothing.
pub proof fn law_an_unbounded_run_is_held_to_the_ceiling(
    registry: &mut InFlight,
    task_id: &str,
    repository_id: &str,
    owner: LeaseOwner,
    r: Result<Lease, LeaseRefused>,
)
    requires
        call_ensures(InFlight::acquire_unbounded, (registry, task_id, repository_id, owner), r),
    ensures
        r is Ok <==> old(registry).slots().len() < CONCURRENCY_CEILING && forall|i: int|
            0 <= i < old(registry).slots().len() ==> (
            #[trigger] old(registry).slots()[i]).task_id@ != task_id@,
        r is Err ==> final(registry).slots() == old(registry).slots(),
        r is Ok ==> {
            let after = final(registry).slots();
            &&& after.len() == old(registry).slots().len() + 1
            &&& after.drop_last() == old(registry).slots()
            &&& after.last().task_id@ == task_id@
            &&& after.last().repository_id@ == repository_id@
            &&& after.last().owner == owner
            &&& !after.last().cancelled
        },
        final(registry).releases() == old(registry).releases(),
{
    if r is Ok {
        assert(final(registry).slots().drop_last() =~= old(registry).slots());
    }
}

/// A run is asked to stop exactly while its slot is marked, nothing is in flight
/// exactly where there is no slot, and a queue that runs one at a time has room
/// for one.
pub proof fn law_what_a_registry_says_of_its_slots(
    registry: InFlight,
    task_id: &str,
    asked: bool,
    empty: bool,
    one: Capacity,
    none: Counts,
    repository: &str,
    there: usize,
    held_by_none: bool,
)
    requires
        call_ensures(InFlight::is_cancelled, (&registry, task_id), asked),
        call_ensures(InFlight::is_empty, (&registry,), empty),
        call_ensures(Capacity::sequential, (), one),
        call_ensures(Counts::none, (), none),
        call_ensures(Counts::in_repository, (&none, repository), there),
        call_ensures(Counts::has_task, (&none, task_id), held_by_none),
    ensures
        asked <==> exists|i: int|
            0 <= i < registry.slots().len() && (#[trigger] registry.slots()[i]).task_id@ == task_id@
                && registry.slots()[i].cancelled,
        empty <==> registry.slots().len() == 0,
        one.global == 1 && one.per_repository == 1,
        none.total == 0 && there == 0 && !held_by_none,
{
}

} // verus!
