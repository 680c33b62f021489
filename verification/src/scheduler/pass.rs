//! One pass over the board.
//!
//! Every slot of a batch is taken first, before anything is awaited, so that a
//! stop reaches all of it. A stop that lands is looked for twice per entry:
//! before its claim, and once the claim is won. It ends the whole pass, and a
//! claim that was won is given back.

use vstd::prelude::*;
use vstd::string::*;

use crate::db::clone_text;
use crate::instant::Instant;
use crate::scheduler::capacity::Resolved;
use crate::scheduler::claim::ClaimOutcome;
use crate::scheduler::inflight;
use crate::scheduler::inflight::{Counts, InFlight, Slot, CONCURRENCY_CEILING};
use crate::scheduler::queue;
use crate::scheduler::queue::lease_batch;
use crate::scheduler::selection;
use crate::scheduler::selection::{next_batch, next_deadline, QueueEntry};
use crate::scheduler::state::QueueState;
use crate::scheduler::window::Step;

verus! {

/// What the pass waits to be told.
#[derive(Debug, PartialEq, Eq)]
pub enum Stage {
    /// What the switch says.
    Switch,
    /// Whether new starts are held.
    Hold,
    /// What the board says.
    Board,
    /// That the agent can be run at all.
    Probe,
    /// Whether a stop landed before the claim.
    Check,
    /// What the claim came to.
    Claim,
    /// Which session a retry continues.
    Session,
    /// Whether a stop landed since the claim was won; with the session to
    /// continue.
    Recheck { resume: Option<String> },
    /// That the run was started.
    Start,
    /// That the claim was given back.
    Release,
    /// Nothing: the pass is over.
    Done,
}

/// What the pass is told.
#[derive(Debug, PartialEq, Eq)]
pub enum PassEvent {
    Switch(QueueState),
    /// When the hold on new starts lifts, if there is one.
    Hold(Option<Instant>),
    Probed,
    /// Whether a stop has landed.
    Interrupted(bool),
    Claimed(ClaimOutcome),
    /// The session to continue, if there is one left to continue.
    Session(Option<String>),
    Started,
    Released,
}

/// What the pass does next.
#[derive(Debug, PartialEq, Eq)]
pub enum PassAction {
    ReadSwitch,
    ReadHold,
    ReadBoard,
    /// Find out, once for the whole batch, whether the agent can be run.
    ProbeCli,
    /// Find out whether a stop has landed for a task.
    CheckInterrupted { task_id: String },
    /// Claim the task: as a due retry, or as a fresh start.
    Claim { task_id: String, resuming: bool },
    ReadSession { task_id: String },
    /// Give back a claim that was won.
    Release { task_id: String },
    /// Start the run, which takes the task's slot over.
    Spawn { task_id: String, resume: Option<String> },
    /// The pass is over.
    Finish(Step),
}

/// A pass, as what it waits for, the entries whose slots it holds, and whether
/// it has come to anything yet.
pub struct PassState {
    pub stage: Stage,
    pub holding: Seq<QueueEntry>,
    pub worked: bool,
}

/// The pass is over, and holds no slot.
pub open spec fn over(worked: bool, step: Step) -> (PassState, PassAction) {
    (PassState { stage: Stage::Done, holding: seq![], worked }, PassAction::Finish(step))
}

/// What a pass that went through its batch comes to.
pub open spec fn tally(worked: bool) -> Step {
    if worked {
        Step::Worked
    } else {
        Step::Idle
    }
}

/// On to the first of `holding`, if there is one.
pub open spec fn on_to(holding: Seq<QueueEntry>, worked: bool) -> (PassState, PassAction) {
    if holding.len() == 0 {
        over(worked, tally(worked))
    } else {
        (
            PassState { stage: Stage::Check, holding, worked },
            PassAction::CheckInterrupted { task_id: holding[0].task_id },
        )
    }
}

/// The event is one the pass waits for.
pub open spec fn answers(pass: PassState, event: PassEvent) -> bool {
    &&& match pass.stage {
        Stage::Switch => event is Switch,
        Stage::Hold => event is Hold,
        Stage::Board => false,
        Stage::Probe => event is Probed,
        Stage::Check => event is Interrupted,
        Stage::Claim => event is Claimed,
        Stage::Session => event is Session,
        Stage::Recheck { .. } => event is Interrupted,
        Stage::Start => event is Started,
        Stage::Release => event is Released,
        Stage::Done => false,
    }
}

/// A pass that is with an entry holds the entry's slot.
pub open spec fn sound(pass: PassState) -> bool {
    match pass.stage {
        Stage::Check => pass.holding.len() > 0,
        Stage::Claim => pass.holding.len() > 0,
        Stage::Session => pass.holding.len() > 0,
        Stage::Recheck { .. } => pass.holding.len() > 0,
        Stage::Release => pass.holding.len() > 0,
        _ => true,
    }
}

/// Where the pass is after an event, and what it does.
pub open spec fn step(pass: PassState, event: PassEvent) -> (PassState, PassAction) {
    let entry = pass.holding[0];
    let check = PassAction::CheckInterrupted { task_id: entry.task_id };
    match (pass.stage, event) {
        (Stage::Switch, PassEvent::Switch(state)) => if state == QueueState::Running {
            (PassState { stage: Stage::Hold, ..pass }, PassAction::ReadHold)
        } else {
            over(pass.worked, Step::Idle)
        },
        (Stage::Hold, PassEvent::Hold(until)) => match until {
            Some(at) => over(pass.worked, Step::IdleUntil(at)),
            None => (PassState { stage: Stage::Board, ..pass }, PassAction::ReadBoard),
        },
        (Stage::Probe, PassEvent::Probed) => on_to(pass.holding, pass.worked),
        (Stage::Check, PassEvent::Interrupted(stopped)) => if stopped {
            over(pass.worked, tally(pass.worked))
        } else {
            (
                PassState { stage: Stage::Claim, ..pass },
                PassAction::Claim {
                    task_id: entry.task_id,
                    resuming: entry.resume_after is Some,
                },
            )
        },
        (Stage::Claim, PassEvent::Claimed(outcome)) => if outcome == ClaimOutcome::Lost {
            on_to(pass.holding.drop_first(), true)
        } else if entry.resume_after is Some {
            (
                PassState { stage: Stage::Session, ..pass },
                PassAction::ReadSession { task_id: entry.task_id },
            )
        } else {
            (PassState { stage: Stage::Recheck { resume: None }, ..pass }, check)
        },
        (Stage::Session, PassEvent::Session(resume)) => (
            PassState { stage: Stage::Recheck { resume }, ..pass },
            check,
        ),
        (Stage::Recheck { resume }, PassEvent::Interrupted(stopped)) => if stopped {
            (
                PassState { stage: Stage::Release, ..pass },
                PassAction::Release { task_id: entry.task_id },
            )
        } else {
            (
                PassState {
                    stage: Stage::Start,
                    holding: pass.holding.drop_first(),
                    worked: true,
                },
                PassAction::Spawn { task_id: entry.task_id, resume },
            )
        },
        (Stage::Start, PassEvent::Started) => on_to(pass.holding, pass.worked),
        (Stage::Release, PassEvent::Released) => over(pass.worked, tally(pass.worked)),
        _ => over(pass.worked, tally(pass.worked)),
    }
}

/// One pass over the board.
#[derive(Debug, PartialEq, Eq)]
pub struct Pass {
    stage: Stage,
    leased: Vec<QueueEntry>,
    next: usize,
    worked: bool,
}

impl Pass {
    /// The pass, as a value.
    pub closed spec fn view(&self) -> PassState {
        PassState {
            stage: self.stage,
            holding: self.leased@.skip(self.next as int),
            worked: self.worked,
        }
    }

    /// What every pass keeps.
    pub closed spec fn well_formed(&self) -> bool {
        self.next <= self.leased@.len() && sound(self@)
    }

    /// A pass that has not begun; its first action is to read the switch.
    pub fn new() -> (r: Pass)
        ensures
            r.well_formed(),
            r@ == (PassState { stage: Stage::Switch, holding: seq![], worked: false }),
    {
        let r = Pass { stage: Stage::Switch, leased: Vec::new(), next: 0, worked: false };
        assert(r@.holding =~= seq![]);
        r
    }

    /// The tasks whose slots the pass holds, in order.
    pub fn holding(&self) -> (r: Vec<String>)
        requires
            self.well_formed(),
        ensures
            r@ == self@.holding.map_values(|entry: QueueEntry| entry.task_id),
    {
        let n: usize = self.leased.len();
        let mut out: Vec<String> = Vec::new();
        let mut i: usize = self.next;
        while i < n
            invariant
                self.next <= i <= n,
                n == self.leased@.len(),
                out@ == self.leased@.subrange(self.next as int, i as int).map_values(
                    |entry: QueueEntry| entry.task_id,
                ),
            decreases n - i,
        {
            out.push(self.leased[i].task_id.clone());
            i += 1;
            assert(out@ =~= self.leased@.subrange(self.next as int, i as int).map_values(
                |entry: QueueEntry| entry.task_id,
            ));
        }
        assert(self.leased@.subrange(self.next as int, n as int) =~= self@.holding);
        out
    }

    /// What is waited for.
    pub fn stage(&self) -> (r: &Stage)
        ensures
            *r == self@.stage,
    {
        &self.stage
    }

    fn finish(&mut self, result: Step) -> (r: PassAction)
        requires
            old(self).next <= old(self).leased@.len(),
        ensures
            final(self).well_formed(),
            (final(self)@, r) == over(old(self).worked, result),
    {
        self.stage = Stage::Done;
        self.next = self.leased.len();
        assert(self@.holding =~= seq![]);
        PassAction::Finish(result)
    }

    fn proceed(&mut self) -> (r: PassAction)
        requires
            old(self).next <= old(self).leased@.len(),
        ensures
            final(self).well_formed(),
            (final(self)@, r) == on_to(old(self)@.holding, old(self).worked),
    {
        if self.next >= self.leased.len() {
            let result = if self.worked {
                Step::Worked
            } else {
                Step::Idle
            };
            return self.finish(result);
        }
        self.stage = Stage::Check;
        PassAction::CheckInterrupted { task_id: self.leased[self.next].task_id.clone() }
    }

    /// Takes the pass to a board that was read: picks the batch, takes a slot
    /// for each entry of it, and goes on only if one was to be had.
    pub fn on_board(&mut self, registry: &mut InFlight, plan: &Vec<QueueEntry>, bounds: &Resolved) -> (r:
        PassAction)
        requires
            old(self).well_formed(),
            old(self)@.stage == Stage::Board,
            old(registry).well_formed(),
        ensures
            final(self).well_formed(),
            final(registry).well_formed(),
            final(registry).releases() == old(registry).releases(),
            exists|counts: Counts| #[trigger]
                counted(counts, old(registry).slots()) && ({
                    let batch = picked(plan@, counts, *bounds);
                    let leased = queue::granted(
                        old(registry).slots(),
                        batch,
                        bounds.global,
                        bounds.per_repository@,
                    );
                    &&& queue::slots_for(final(registry).slots(), old(registry).slots(), leased)
                    &&& (final(self)@, r) == boarded(
                        old(self)@.worked,
                        batch,
                        leased,
                        selection::first_deadline(plan@),
                    )
                }),
    {
        let counts = registry.counts();
        let batch = next_batch(plan, &counts, bounds.global, &bounds.per_repository);
        proof {
            assert(counted(counts, registry.slots()));
            assert(queue::pointed_at(batch@) =~= picked(plan@, counts, *bounds));
        }
        if batch.len() == 0 {
            let r = self.finish(Step::waiting(next_deadline(plan)));
            proof {
                let slots = registry.slots();
                assert(slots.take(slots.len() as int) =~= slots);
                assert(picked(plan@, counts, *bounds).len() == 0);
                assert(queue::slots_for(
                    slots,
                    slots,
                    queue::granted(
                        slots,
                        picked(plan@, counts, *bounds),
                        bounds.global,
                        bounds.per_repository@,
                    ),
                ));
            }
            return r;
        }
        let leased = lease_batch(registry, &batch, bounds);
        self.leased = leased;
        self.next = 0;
        assert(self.leased@.skip(0) =~= self.leased@);
        if self.leased.len() == 0 {
            return self.finish(Step::Idle);
        }
        self.stage = Stage::Probe;
        PassAction::ProbeCli
    }

    /// Takes the pass one event further.
    pub fn try_step(&mut self, event: PassEvent) -> (r: PassAction)
        requires
            old(self).well_formed(),
            answers(old(self)@, event),
        ensures
            final(self).well_formed(),
            (final(self)@, r) == step(old(self)@, event),
    {
        let ghost before = self@;
        let n: usize = self.leased.len();
        proof {
            assert(self.next <= n);
            if before.holding.len() > 0 {
                assert(before.holding[0] == self.leased@[self.next as int]);
                assert(before.holding.drop_first() =~= self.leased@.skip(self.next + 1));
            }
        }
        let whole = if self.worked {
            Step::Worked
        } else {
            Step::Idle
        };
        match event {
            PassEvent::Switch(state) => {
                if state == QueueState::Running {
                    self.stage = Stage::Hold;
                    PassAction::ReadHold
                } else {
                    self.finish(Step::Idle)
                }
            },
            PassEvent::Hold(until) => match until {
                Some(at) => self.finish(Step::IdleUntil(at)),
                None => {
                    self.stage = Stage::Board;
                    PassAction::ReadBoard
                },
            },
            PassEvent::Probed => self.proceed(),
            PassEvent::Interrupted(stopped) => {
                let task_id = self.leased[self.next].task_id.clone();
                let won: Option<Option<String>> = match &self.stage {
                    Stage::Recheck { resume } => Some(clone_text(resume)),
                    _ => None,
                };
                match won {
                    None => if stopped {
                        self.finish(whole)
                    } else {
                        let resuming = self.leased[self.next].resume_after.is_some();
                        self.stage = Stage::Claim;
                        PassAction::Claim { task_id, resuming }
                    },
                    Some(resume) => if stopped {
                        self.stage = Stage::Release;
                        PassAction::Release { task_id }
                    } else {
                        self.stage = Stage::Start;
                        self.next = self.next + 1;
                        self.worked = true;
                        PassAction::Spawn { task_id, resume }
                    },
                }
            },
            PassEvent::Claimed(outcome) => {
                if outcome == ClaimOutcome::Lost {
                    self.next = self.next + 1;
                    self.worked = true;
                    return self.proceed();
                }
                let task_id = self.leased[self.next].task_id.clone();
                if self.leased[self.next].resume_after.is_some() {
                    self.stage = Stage::Session;
                    PassAction::ReadSession { task_id }
                } else {
                    self.stage = Stage::Recheck { resume: None };
                    PassAction::CheckInterrupted { task_id }
                }
            },
            PassEvent::Session(resume) => {
                let task_id = self.leased[self.next].task_id.clone();
                self.stage = Stage::Recheck { resume };
                PassAction::CheckInterrupted { task_id }
            },
            PassEvent::Started => self.proceed(),
            PassEvent::Released => self.finish(whole),
        }
    }

    /// Ends the pass where something it needed failed. It holds no slot after.
    pub fn abandon(&mut self)
        requires
            old(self).well_formed(),
        ensures
            final(self).well_formed(),
            final(self)@ == (PassState {
                stage: Stage::Done,
                holding: seq![],
                worked: old(self)@.worked,
            }),
    {
        self.stage = Stage::Done;
        self.next = self.leased.len();
        assert(self@.holding =~= seq![]);
    }
}

/// `counts` says what is in `slots`.
pub open spec fn counted(counts: Counts, slots: Seq<Slot>) -> bool {
    &&& counts.total == slots.len()
    &&& forall|repository: Seq<char>|
        #![trigger inflight::in_repository(slots, repository)]
        #![trigger counts.of_repository(repository)]
        counts.of_repository(repository) == inflight::in_repository(slots, repository)
    &&& forall|task: Seq<char>|
        #![trigger inflight::held(slots, task)]
        #![trigger counts.holds(task)]
        counts.holds(task) == inflight::held(slots, task)
}

/// The entries of a plan at some places.
pub open spec fn entries_at(plan: Seq<QueueEntry>, places: Seq<int>) -> Seq<QueueEntry> {
    places.map_values(|i: int| plan[i])
}

/// The batch of a plan.
pub open spec fn picked(plan: Seq<QueueEntry>, counts: Counts, bounds: Resolved) -> Seq<QueueEntry> {
    entries_at(
        plan,
        selection::batch(
            plan,
            counts,
            bounds.global,
            bounds.per_repository@,
            plan.len() as int,
        ),
    )
}

/// Where a pass is once the board was read.
pub open spec fn boarded(
    worked: bool,
    batch: Seq<QueueEntry>,
    leased: Seq<QueueEntry>,
    deadline: Option<Instant>,
) -> (PassState, PassAction) {
    if batch.len() == 0 {
        over(worked, Step::idle_until(deadline))
    } else if leased.len() == 0 {
        over(worked, Step::Idle)
    } else {
        (PassState { stage: Stage::Probe, holding: leased, worked }, PassAction::ProbeCli)
    }
}

proof fn lemma_picked_in(plan: Seq<QueueEntry>, places: Seq<int>, repository: Seq<char>)
    ensures
        selection::picked_in(plan, places, repository) == queue::entries_in(
            entries_at(plan, places),
            repository,
        ),
    decreases places.len(),
{
    if places.len() > 0 {
        lemma_picked_in(plan, places.drop_last(), repository);
        assert(entries_at(plan, places).drop_last() =~= entries_at(plan, places.drop_last()));
    }
}

proof fn lemma_leased_whole(
    plan: Seq<QueueEntry>,
    slots: Seq<Slot>,
    counts: Counts,
    bounds: Resolved,
    n: int,
)
    requires
        0 <= n <= plan.len(),
        counted(counts, slots),
        bounds.global <= CONCURRENCY_CEILING,
        forall|i: int, j: int|
            0 <= i < j < plan.len() ==> (#[trigger] plan[i]).task_id@ != (
            #[trigger] plan[j]).task_id@,
    ensures
        ({
            let places = selection::batch(plan, counts, bounds.global, bounds.per_repository@, n);
            &&& queue::granted(
                slots,
                entries_at(plan, places),
                bounds.global,
                bounds.per_repository@,
            ) == entries_at(plan, places)
            &&& forall|k: int| 0 <= k < places.len() ==> 0 <= #[trigger] places[k] < n
        }),
    decreases n,
{
    let caps = bounds.per_repository@;
    let places = selection::batch(plan, counts, bounds.global, caps, n);
    if n == 0 {
        assert(entries_at(plan, places) =~= seq![]);
    } else {
        lemma_leased_whole(plan, slots, counts, bounds, n - 1);
        let earlier = selection::batch(plan, counts, bounds.global, caps, n - 1);
        if selection::startable(plan, counts, bounds.global, caps, earlier, n - 1) {
            let entry = plan[n - 1];
            let before = entries_at(plan, earlier);
            assert(entries_at(plan, places) =~= before.push(entry));
            assert(entries_at(plan, places).drop_last() =~= before);
            lemma_picked_in(plan, earlier, entry.repository_id@);
            assert(counts.holds(entry.task_id@) == inflight::held(slots, entry.task_id@));
            assert(!queue::entry_for(before, entry.task_id@)) by {
                if queue::entry_for(before, entry.task_id@) {
                    let k = choose|k: int|
                        0 <= k < before.len() && (#[trigger] before[k]).task_id@ == entry.task_id@;
                    assert(before[k] == plan[earlier[k]]);
                    assert(0 <= earlier[k] < n - 1);
                }
            }
            assert(counts.of_repository(entry.repository_id@) == inflight::in_repository(
                slots,
                entry.repository_id@,
            ));
            assert(queue::let_in(slots, before, entry, bounds.global, caps));
        }
    }
}

/// Where no task is on the board twice and the global limit is within the
/// ceiling, the registry refuses nothing of the batch that was picked against
/// it: what is picked is what gets a slot.
pub proof fn law_a_batch_is_leased_whole(
    plan: Seq<QueueEntry>,
    slots: Seq<Slot>,
    counts: Counts,
    bounds: Resolved,
)
    requires
        counted(counts, slots),
        bounds.global <= CONCURRENCY_CEILING,
        forall|i: int, j: int|
            0 <= i < j < plan.len() ==> (#[trigger] plan[i]).task_id@ != (
            #[trigger] plan[j]).task_id@,
    ensures
        queue::granted(
            slots,
            picked(plan, counts, bounds),
            bounds.global,
            bounds.per_repository@,
        ) == picked(plan, counts, bounds),
{
    lemma_leased_whole(plan, slots, counts, bounds, plan.len() as int);
}

/// A run is started only where two looks in a row found no stop, with the claim
/// won between them: the first look leads to the claim and to nothing else, the
/// claim to the second look, and only the second look to the start.
pub proof fn law_a_start_follows_two_clean_looks_and_a_won_claim(pass: PassState, event: PassEvent)
    requires
        sound(pass),
        answers(pass, event),
    ensures
        step(pass, event).1 is Spawn ==> pass.stage is Recheck && event == PassEvent::Interrupted(
            false,
        ),
        step(pass, event).0.stage is Recheck ==> (pass.stage is Claim && event
            == PassEvent::Claimed(ClaimOutcome::Claimed)) || pass.stage is Session,
        step(pass, event).0.stage is Session ==> pass.stage is Claim && event
            == PassEvent::Claimed(ClaimOutcome::Claimed),
        step(pass, event).1 is Claim <==> step(pass, event).0.stage is Claim,
        step(pass, event).1 is Claim ==> pass.stage is Check && event == PassEvent::Interrupted(
            false,
        ),
{
}

/// The stages from which no claim and no start can follow.
pub open spec fn ending(stage: Stage) -> bool {
    stage is Release || stage is Done
}

/// A stop that is seen ends the pass: nothing is claimed or started from there
/// on, and a claim that was won is given back.
pub proof fn law_a_stop_ends_the_pass(pass: PassState, event: PassEvent)
    requires
        sound(pass),
        answers(pass, event),
    ensures
        event == PassEvent::Interrupted(true) ==> ending(step(pass, event).0.stage),
        event == PassEvent::Interrupted(true) && pass.stage is Recheck ==> step(pass, event).1 == (
        PassAction::Release { task_id: pass.holding[0].task_id }),
        ending(pass.stage) ==> ending(step(pass, event).0.stage) && step(pass, event).1 is Finish,
{
}

/// A pass has come to something exactly where a claim was lost under it or a
/// run was started by it, and it says so at its end.
pub proof fn law_a_pass_reports_what_it_did(pass: PassState, event: PassEvent)
    requires
        sound(pass),
        answers(pass, event),
    ensures
        step(pass, event).0.worked <==> pass.worked || event == PassEvent::Claimed(
            ClaimOutcome::Lost,
        ) || step(pass, event).1 is Spawn,
        (step(pass, event).1 matches PassAction::Finish(result) && !(pass.stage is Switch)
            && !(pass.stage is Hold)) ==> step(pass, event).1 == PassAction::Finish(
            tally(step(pass, event).0.worked),
        ),
{
}

/// A pass gives a slot up in one of three ways: the run it starts takes the
/// first one over, a lost claim drops the first one, and the end drops them
/// all. Otherwise it keeps what it holds.
pub proof fn law_every_slot_is_accounted_for(pass: PassState, event: PassEvent)
    requires
        sound(pass),
        answers(pass, event),
    ensures
        ({
            let after = step(pass, event).0.holding;
            if step(pass, event).1 is Finish {
                after.len() == 0
            } else if step(pass, event).1 is Spawn || event == PassEvent::Claimed(
                ClaimOutcome::Lost,
            ) {
                after == pass.holding.drop_first()
            } else {
                after == pass.holding
            }
        }),
        sound(step(pass, event).0),
{
}

/// A pass asks before it does anything: it reads the board only where the switch
/// says to run and nothing holds new starts, waits for a hold to lift where
/// there is one, and has nothing to do where the switch is off.
pub proof fn law_a_pass_reads_the_board_only_when_it_may_start(pass: PassState, event: PassEvent)
    requires
        sound(pass),
        answers(pass, event),
    ensures
        pass.stage is Switch ==> {
            &&& event == PassEvent::Switch(QueueState::Running) <==> step(pass, event).1
                == PassAction::ReadHold
            &&& event != PassEvent::Switch(QueueState::Running) <==> step(pass, event).1
                == PassAction::Finish(Step::Idle)
        },
        pass.stage is Hold ==> {
            &&& event matches PassEvent::Hold(Some(at)) ==> step(pass, event).1
                == PassAction::Finish(Step::IdleUntil(at))
            &&& event == PassEvent::Hold(None) <==> step(pass, event).1 == PassAction::ReadBoard
        },
        step(pass, event).1 == PassAction::ReadBoard <==> step(pass, event).0.stage is Board,
        step(pass, event).1 == PassAction::ReadHold <==> step(pass, event).0.stage is Hold,
{
}

/// Whatever a pass does to a task it does to the first it holds: it claims,
/// looks up, gives back and starts that one, and looks for a stop before each.
pub proof fn law_a_pass_deals_with_the_first_it_holds(pass: PassState, event: PassEvent)
    requires
        sound(pass),
        answers(pass, event),
    ensures
        match step(pass, event).1 {
            PassAction::Claim { task_id, .. } => task_id == pass.holding[0].task_id,
            PassAction::ReadSession { task_id } => task_id == pass.holding[0].task_id,
            PassAction::Release { task_id } => task_id == pass.holding[0].task_id,
            PassAction::Spawn { task_id, .. } => task_id == pass.holding[0].task_id,
            PassAction::CheckInterrupted { task_id } => step(pass, event).0.holding.len() > 0
                && task_id == step(pass, event).0.holding[0].task_id,
            _ => true,
        },
{
}

/// An entry with a deadline is a resume from its claim to its start: it is
/// claimed as one, and the session that was looked up for it is the one its run
/// continues. An entry without one starts afresh.
pub proof fn law_a_resume_continues_its_session(pass: PassState, event: PassEvent)
    requires
        sound(pass),
        answers(pass, event),
    ensures
        step(pass, event).1 matches PassAction::Claim { resuming, .. } ==> (resuming
            <==> pass.holding[0].resume_after is Some),
        event == PassEvent::Claimed(ClaimOutcome::Claimed) ==> {
            &&& pass.holding[0].resume_after is Some <==> step(pass, event).1 is ReadSession
            &&& pass.holding[0].resume_after is Some <==> step(pass, event).0.stage is Session
            &&& pass.holding[0].resume_after is None <==> step(pass, event).0.stage == (
            Stage::Recheck { resume: None })
        },
        event matches PassEvent::Session(found) ==> step(pass, event).0.stage == (Stage::Recheck {
            resume: found,
        }),
        step(pass, event).1 matches PassAction::Spawn { resume, .. } ==> pass.stage == (
        Stage::Recheck { resume }),
        pass.stage is Recheck && event == PassEvent::Interrupted(false) ==> step(pass, event).1
            is Spawn,
{
}

/// A pass goes on to the next entry as long as it holds one: after the agent
/// was found, after a start and after a lost claim. A clean look leads to the
/// claim. It ends where nothing is left, and where a claim was given back.
pub proof fn law_a_pass_goes_through_all_it_holds(pass: PassState, event: PassEvent)
    requires
        sound(pass),
        answers(pass, event),
    ensures
        event is Probed || event is Started || event == PassEvent::Claimed(ClaimOutcome::Lost)
            ==> {
            let left = if event is Claimed {
                pass.holding.drop_first()
            } else {
                pass.holding
            };
            &&& left.len() > 0 ==> step(pass, event).0.stage is Check && step(
                pass,
                event,
            ).0.holding == left && step(pass, event).1 is CheckInterrupted
            &&& left.len() == 0 ==> step(pass, event).0.stage is Done && step(pass, event).1
                is Finish
        },
        pass.stage is Check && event == PassEvent::Interrupted(false) ==> step(pass, event).1
            is Claim,
        pass.stage is Check && event == PassEvent::Interrupted(true) ==> step(pass, event).1
            is Finish,
        event is Released ==> step(pass, event).1 is Finish,
        step(pass, event).1 is Finish <==> step(pass, event).0.stage is Done,
        step(pass, event).1 matches PassAction::Finish(end) ==> (end == Step::Worked <==> (step(
            pass,
            event,
        ).0.worked && !(pass.stage is Switch) && !(pass.stage is Hold))),
{
}

/// A board that was read leads on exactly where a slot was to be had: then to
/// finding out whether the agent can be run, with every slot that was taken. A
/// board with nothing to start is waited on until its next deadline; one whose
/// every task somebody else took has nothing to do.
pub proof fn law_a_board_leads_on_where_a_slot_was_to_be_had(
    worked: bool,
    batch: Seq<QueueEntry>,
    leased: Seq<QueueEntry>,
    deadline: Option<Instant>,
)
    ensures
        ({
            let (after, action) = boarded(worked, batch, leased, deadline);
            &&& after.worked == worked
            &&& batch.len() > 0 && leased.len() > 0 ==> action == PassAction::ProbeCli
                && after.holding == leased && after.stage is Probe
            &&& batch.len() > 0 && leased.len() == 0 ==> action == PassAction::Finish(Step::Idle)
                && after.stage is Done && after.holding.len() == 0
            &&& batch.len() == 0 && deadline is None ==> action == PassAction::Finish(Step::Idle)
                && after.stage is Done && after.holding.len() == 0
            &&& batch.len() == 0 ==> (deadline matches Some(at) ==> action == PassAction::Finish(
                Step::IdleUntil(at),
            ) && after.stage is Done && after.holding.len() == 0)
        }),
{
}

/// What takes a pass further is its step: what it waits for and what it is told
/// decide both what it does and where it goes.
pub proof fn law_a_pass_takes_its_step(pass: &mut Pass, event: PassEvent, r: PassAction)
    requires
        call_ensures(Pass::try_step, (pass, event), r),
    ensures
        (final(pass)@, r) == step(old(pass)@, event),
{
}

/// A board that was read is worked as far as there is room: the slots that were
/// taken before stay as they are, each new one is the queue's own and for a card
/// that nothing passes over and that has no run, and together they keep the
/// limit. Where there is such a card, and room for it, something is taken.
pub proof fn law_a_board_is_worked_as_far_as_there_is_room(
    pass: &mut Pass,
    registry: &mut InFlight,
    plan: Vec<QueueEntry>,
    bounds: Resolved,
    r: PassAction,
    k: int,
    cap: int,
)
    requires
        call_ensures(Pass::on_board, (pass, registry, &plan, &bounds), r),
        0 <= k < plan@.len(),
        cap == (if bounds.per_repository@.contains_key(plan@[k].repository_id@) {
            bounds.per_repository@[plan@[k].repository_id@] as int
        } else {
            1
        }),
        bounds.global <= CONCURRENCY_CEILING,
    ensures
        ({
            let before = old(registry).slots();
            let after = final(registry).slots();
            &&& after.len() >= before.len()
            &&& after.take(before.len() as int) == before
            &&& after.len() > before.len() <==> r == PassAction::ProbeCli
            &&& after.len() > before.len() ==> after.len() <= bounds.global
            &&& forall|i: int|
                before.len() <= i < after.len() ==> {
                    let slot = #[trigger] after[i];
                    &&& slot.owner == inflight::LeaseOwner::Queue
                    &&& !slot.cancelled
                    &&& !inflight::held(before, slot.task_id@)
                    &&& exists|c: int|
                        0 <= c < plan@.len() && (#[trigger] plan@[c]).skip is None
                            && plan@[c].task_id@ == slot.task_id@ && plan@[c].repository_id@
                            == slot.repository_id@
                }
            &&& (plan@[k].skip is None && !inflight::held(before, plan@[k].task_id@)
                && before.len() < bounds.global && before.filter(
                |slot: Slot| slot.repository_id@ == plan@[k].repository_id@,
            ).len() < cap) ==> r == PassAction::ProbeCli
        }),
{
    let before = old(registry).slots();
    let after = final(registry).slots();
    let caps = bounds.per_repository@;
    let counts = choose|counts: Counts| #[trigger]
        counted(counts, before) && ({
            let batch = picked(plan@, counts, bounds);
            let leased = queue::granted(before, batch, bounds.global, caps);
            &&& queue::slots_for(after, before, leased)
            &&& (final(pass)@, r) == boarded(
                old(pass)@.worked,
                batch,
                leased,
                selection::first_deadline(plan@),
            )
        });
    let places = selection::batch(plan@, counts, bounds.global, caps, plan@.len() as int);
    let batch = picked(plan@, counts, bounds);
    let leased = queue::granted(before, batch, bounds.global, caps);
    queue::law_a_lease_is_of_the_batch_and_keeps_the_limit(before, batch, bounds.global, caps);
    selection::law_a_batch_is_taken_in_board_order(
        plan@,
        counts,
        bounds.global,
        caps,
        plan@.len() as int,
    );
    assert forall|i: int| before.len() <= i < after.len() implies {
        let slot = #[trigger] after[i];
        &&& slot.owner == inflight::LeaseOwner::Queue
        &&& !slot.cancelled
        &&& !inflight::held(before, slot.task_id@)
        &&& exists|c: int|
            0 <= c < plan@.len() && (#[trigger] plan@[c]).skip is None && plan@[c].task_id@
                == slot.task_id@ && plan@[c].repository_id@ == slot.repository_id@
    } by {
        let entry = leased[i - before.len()];
        assert(after[before.len() + (i - before.len())] == after[i]);
        assert(batch.contains(entry));
        let p = choose|p: int| 0 <= p < batch.len() && batch[p] == entry;
        assert(batch[p] == plan@[places[p]]);
        assert(plan@[places[p]].skip is None);
    }
    inflight::lemma_in_repository(
        before,
        plan@[k].repository_id@,
        |slot: Slot| slot.repository_id@ == plan@[k].repository_id@,
    );
    if plan@[k].skip is None && !inflight::held(before, plan@[k].task_id@) && before.len()
        < bounds.global && before.filter(
        |slot: Slot| slot.repository_id@ == plan@[k].repository_id@,
    ).len() < cap {
        assert(counts.holds(plan@[k].task_id@) == inflight::held(before, plan@[k].task_id@));
        assert(counts.of_repository(plan@[k].repository_id@) == inflight::in_repository(
            before,
            plan@[k].repository_id@,
        ));
        if places.len() == 0 {
            assert(!places.contains(k));
            selection::law_a_batch_leaves_no_room_unused(plan@, counts, bounds.global, caps, k);
        }
        let first = places[0];
        selection::lemma_first_of_a_batch(plan@, counts, bounds.global, caps, plan@.len() as int);
        let entry = plan@[first];
        assert(batch[0] == entry);
        assert(counts.holds(entry.task_id@) == inflight::held(before, entry.task_id@));
        assert(counts.of_repository(entry.repository_id@) == inflight::in_repository(
            before,
            entry.repository_id@,
        ));
        assert(queue::let_in(before, seq![], batch[0], bounds.global, caps));
    }
}

/// A pass begins with the switch and holds nothing; one that is given up is over
/// and holds nothing, and what it has done it has done.
pub proof fn law_a_pass_begins_and_is_given_up_empty_handed(fresh: Pass, pass: &mut Pass)
    requires
        call_ensures(Pass::new, (), fresh),
        call_ensures(Pass::abandon, (pass,), ()),
    ensures
        fresh@.stage == Stage::Switch && fresh@.holding.len() == 0 && !fresh@.worked,
        final(pass)@.stage == Stage::Done,
        final(pass)@.holding.len() == 0,
        final(pass)@.worked == old(pass)@.worked,
{
}

} // verus!
