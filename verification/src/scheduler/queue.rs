//! The one long-lived queue: its controls, its loop, and one pass over the
//! board.
//!
//! The loop and the pass are machines. Each answers an event with the next
//! thing to do; what is read, awaited and written happens outside and comes
//! back as the next event.

use vstd::prelude::*;
use vstd::string::*;

use crate::error::{Error, ErrorCode};
use crate::instant::Instant;
use crate::scheduler::capacity;
use crate::scheduler::capacity::Resolved;
use crate::scheduler::inflight;
use crate::scheduler::inflight::{Capacity, InFlight, LeaseOwner, Slot, CONCURRENCY_CEILING};
use crate::scheduler::selection;
use crate::scheduler::selection::{earliest, QueueEntry};
use crate::scheduler::state::QueueState;
use crate::scheduler::window::{Effect, RunWindow, Step};
use crate::text;

verus! {

/// The longest the loop sleeps on one deadline before it looks again, in
/// seconds: a timer that a suspended machine slept through says nothing of the
/// time of day.
pub const DEADLINE_CAP: i64 = 60;

/// Everything the queue is asked about, in one read.
#[derive(Debug, PartialEq, Eq)]
pub struct QueueStatus {
    pub state: QueueState,
    /// Every task with a run in flight, in a stable order.
    pub running_task_ids: Vec<String>,
    /// Every ready task in board order.
    pub plan: Vec<QueueEntry>,
    /// Why the last pass could not be completed, if it could not.
    pub last_step_error: Option<String>,
    /// When the hold on new starts lifts, if there is one.
    pub usage_limit_pause_until: Option<Instant>,
    /// The window a schedule opened, if one is open.
    pub window: Option<RunWindow>,
}

/// A recorded reason, and whether an ordinary pass may clear it.
#[derive(Debug, Clone, PartialEq, Eq)]
pub struct StepError {
    pub message: String,
    pub sticky: bool,
}

/// What wakes the loop, and whether it is to end.
#[derive(Debug, Clone, Copy, PartialEq, Eq, Structural)]
pub struct Signal {
    pub generation: u64,
    pub shutdown: bool,
}

/// The queue's control surface.
#[derive(Debug, PartialEq, Eq)]
pub struct QueueHandle {
    pub signal: Signal,
    /// Why the queue does not do what its switch says, if there is a reason.
    pub error: Option<StepError>,
}

/// The reason that is left once a pass went all the way through: one that
/// describes a single pass is disproved by it.
pub open spec fn disproved(error: Option<StepError>) -> Option<StepError> {
    match error {
        Some(held) => if held.sticky {
            error
        } else {
            None
        },
        None => None,
    }
}

impl QueueHandle {
    /// A queue nobody has signalled.
    pub fn new() -> (r: QueueHandle)
        ensures
            r.signal == (Signal { generation: 0, shutdown: false }),
            r.error is None,
    {
        QueueHandle { signal: Signal { generation: 0, shutdown: false }, error: None }
    }

    /// Starts working the board, unless the preflight refuses it. `blocking` is
    /// what it refuses the start for, or why it could not be made.
    pub fn start(&mut self, blocking: Result<Option<String>, Error>) -> (r: Result<
        Vec<Effect>,
        Error,
    >)
        ensures
            final(self).signal == old(self).signal,
            match blocking {
                Err(failed) => r == Err::<Vec<Effect>, Error>(failed) && final(self).error == old(
                    self,
                ).error,
                Ok(Some(summary)) => r is Err && r->Err_0.code == ErrorCode::Invalid
                    && r->Err_0.message == summary && final(self).error == old(self).error,
                Ok(None) => r is Ok && r->Ok_0@ == seq![
                    Effect::SetQueueState(QueueState::Running),
                    Effect::Wake,
                ] && final(self).error is None,
            },
    {
        match blocking {
            Err(failed) => Err(failed),
            Ok(Some(summary)) => Err(Error::invalid(summary)),
            Ok(None) => {
                self.clear_schedule_error();
                let mut out: Vec<Effect> = Vec::new();
                out.push(Effect::SetQueueState(QueueState::Running));
                out.push(Effect::Wake);
                Ok(out)
            },
        }
    }

    /// The same as [`QueueHandle::start`], under the name it has after a pause.
    pub fn resume(&mut self, blocking: Result<Option<String>, Error>) -> (r: Result<
        Vec<Effect>,
        Error,
    >)
        ensures
            final(self).signal == old(self).signal,
            match blocking {
                Err(failed) => r == Err::<Vec<Effect>, Error>(failed) && final(self).error == old(
                    self,
                ).error,
                Ok(Some(summary)) => r is Err && r->Err_0.code == ErrorCode::Invalid
                    && r->Err_0.message == summary && final(self).error == old(self).error,
                Ok(None) => r is Ok && r->Ok_0@ == seq![
                    Effect::SetQueueState(QueueState::Running),
                    Effect::Wake,
                ] && final(self).error is None,
            },
    {
        self.start(blocking)
    }

    /// Starts nothing new, and lets what runs finish. An open window is closed
    /// too, or the next look at the schedules would take the night to be still
    /// on.
    pub fn pause(&self) -> (r: Vec<Effect>)
        ensures
            r@ == seq![
                Effect::SetQueueState(QueueState::Paused),
                Effect::Wake,
                Effect::CloseWindow,
            ],
    {
        let mut out: Vec<Effect> = Vec::new();
        out.push(Effect::SetQueueState(QueueState::Paused));
        out.push(Effect::Wake);
        out.push(Effect::CloseWindow);
        out
    }

    /// A pause that also asks the queue's own runs to stop, after the switch is
    /// stored.
    pub fn stop(&self) -> (r: Vec<Effect>)
        ensures
            r@ == seq![
                Effect::SetQueueState(QueueState::Paused),
                Effect::Wake,
                Effect::CloseWindow,
                Effect::CancelOwnedBy(LeaseOwner::Queue),
            ],
    {
        let mut out = self.pause();
        out.push(Effect::CancelOwnedBy(LeaseOwner::Queue));
        out
    }

    /// The whole picture.
    pub fn status(
        &self,
        state: QueueState,
        registry: &InFlight,
        plan: Vec<QueueEntry>,
        usage_limit_pause_until: Option<Instant>,
        window: Option<RunWindow>,
    ) -> (r: QueueStatus)
        ensures
            r.state == state,
            text::in_order(r.running_task_ids@),
            r.running_task_ids@.to_multiset() == inflight::tasks_of(
                registry.slots(),
            ).to_multiset(),
            r.plan == plan,
            r.last_step_error == self.reason(),
            r.usage_limit_pause_until == usage_limit_pause_until,
            r.window == window,
    {
        QueueStatus {
            state,
            running_task_ids: self.in_flight_task_ids(registry),
            plan,
            last_step_error: self.last_step_error(),
            usage_limit_pause_until,
            window,
        }
    }

    /// Why the last pass could not be completed, if it could not.
    pub open spec fn reason(self) -> Option<String> {
        match self.error {
            Some(held) => Some(held.message),
            None => None,
        }
    }

    /// Why the last pass could not be completed, if it could not.
    pub fn last_step_error(&self) -> (r: Option<String>)
        ensures
            r == self.reason(),
    {
        match &self.error {
            Some(held) => Some(held.message.clone()),
            None => None,
        }
    }

    /// Every task with a run in flight, in a stable order.
    pub fn in_flight_task_ids(&self, registry: &InFlight) -> (r: Vec<String>)
        ensures
            text::in_order(r@),
            r@.to_multiset() == inflight::tasks_of(registry.slots()).to_multiset(),
    {
        registry.task_ids()
    }

    /// Whether a task has a run in flight.
    pub fn holds(&self, registry: &InFlight, task_id: &str) -> (r: bool)
        ensures
            r == inflight::held(registry.slots(), task_id@),
    {
        registry.holds(task_id)
    }

    /// Ends the loop after the runs it started, without asking them to stop.
    pub fn shutdown(&mut self)
        requires
            old(self).signal.generation < u64::MAX,
        ensures
            final(self).signal == (Signal {
                generation: (old(self).signal.generation + 1) as u64,
                shutdown: true,
            }),
            final(self).error == old(self).error,
    {
        self.signal = Signal { generation: self.signal.generation + 1, shutdown: true };
    }

    /// Wakes the loop.
    pub fn wake(&mut self)
        requires
            old(self).signal.generation < u64::MAX,
        ensures
            final(self).signal == (Signal {
                generation: (old(self).signal.generation + 1) as u64,
                shutdown: old(self).signal.shutdown,
            }),
            final(self).error == old(self).error,
    {
        self.signal = Signal {
            generation: self.signal.generation + 1,
            shutdown: self.signal.shutdown,
        };
    }

    /// Whether the loop is to end.
    pub fn is_shutting_down(&self) -> (r: bool)
        ensures
            r == self.signal.shutdown,
    {
        self.signal.shutdown
    }

    /// Records why one pass failed.
    pub fn record_step_error(&mut self, message: String)
        ensures
            final(self).signal == old(self).signal,
            final(self).error == Some(StepError { message, sticky: false }),
    {
        self.error = Some(StepError { message, sticky: false });
    }

    /// Records why a scheduled start did not happen, in a way that an ordinary
    /// pass does not clear.
    pub fn record_schedule_error(&mut self, message: String)
        ensures
            final(self).signal == old(self).signal,
            final(self).error == Some(StepError { message, sticky: true }),
    {
        self.error = Some(StepError { message, sticky: true });
    }

    /// Clears what one pass disproved, and only that.
    pub fn clear_step_error(&mut self)
        ensures
            final(self).signal == old(self).signal,
            final(self).error == disproved(old(self).error),
    {
        let sticky = match &self.error {
            Some(held) => held.sticky,
            None => false,
        };
        if !sticky {
            self.error = None;
        }
    }

    /// Clears whatever is recorded.
    pub fn clear_schedule_error(&mut self)
        ensures
            final(self).signal == old(self).signal,
            final(self).error is None,
    {
        self.error = None;
    }

    /// What a pass over the board came to: one that failed is recorded and
    /// counts as nothing to do, and one that went through clears what it
    /// disproved.
    pub fn step(&mut self, taken: Result<Step, Error>) -> (r: Step)
        ensures
            final(self).signal == old(self).signal,
            match taken {
                Ok(step) => r == step && final(self).error == disproved(old(self).error),
                Err(failed) => r == Step::Idle && final(self).error == Some(
                    StepError { message: failed.message, sticky: false },
                ),
            },
    {
        match taken {
            Ok(step) => {
                self.clear_step_error();
                step
            },
            Err(failed) => {
                self.record_step_error(failed.message);
                Step::Idle
            },
        }
    }

    /// What a look at the schedules came to: one that failed is recorded and
    /// counts as nothing to do. One that went through disproves nothing.
    pub fn tick_schedules(&mut self, looked: Result<Step, Error>) -> (r: Step)
        ensures
            final(self).signal == old(self).signal,
            match looked {
                Ok(step) => r == step && final(self).error == old(self).error,
                Err(failed) => r == Step::Idle && final(self).error == Some(
                    StepError { message: failed.message, sticky: false },
                ),
            },
    {
        match looked {
            Ok(step) => step,
            Err(failed) => {
                self.record_step_error(failed.message);
                Step::Idle
            },
        }
    }
}

/// Whether a pause, a stop or a shutdown has landed: the run was asked to stop,
/// the loop is to end, or the switch no longer says to run.
pub fn interrupted_since(cancelled: bool, shutting_down: bool, state: QueueState) -> (r: bool)
    ensures
        r == (cancelled || shutting_down || state != QueueState::Running),
{
    cancelled || shutting_down || state != QueueState::Running
}

/// The reason that is left once `n` passes in a row went all the way through.
pub open spec fn left_after(error: Option<StepError>, n: nat) -> Option<StepError>
    decreases n,
{
    if n == 0 {
        error
    } else {
        disproved(left_after(error, (n - 1) as nat))
    }
}

/// A refusal of a scheduled start outlives any number of passes that go all the
/// way through; a failure of one pass is forgotten with the first that does.
pub proof fn law_a_refused_scheduled_start_stays_visible(message: String, n: nat)
    ensures
        left_after(Some(StepError { message, sticky: true }), n) == Some(
            StepError { message, sticky: true },
        ),
        n > 0 ==> left_after(Some(StepError { message, sticky: false }), n) is None,
    decreases n,
{
    if n > 0 {
        law_a_refused_scheduled_start_stays_visible(message, (n - 1) as nat);
    }
}

/// Where the loop is.
#[derive(Debug, Clone, Copy, PartialEq, Eq, Structural)]
pub enum Phase {
    /// About to look whether it is to end.
    Turning,
    /// Looking at the schedules.
    Ticking,
    /// Taking a pass over the board, after the schedules came to this.
    Stepping(Step),
    /// Waiting to be woken.
    Sleeping,
    /// Over, but for the runs it started.
    Ended,
}

/// What woke the loop.
#[derive(Debug, Clone, Copy, PartialEq, Eq, Structural)]
pub enum Woken {
    /// A control was used.
    Signalled,
    /// Nobody holds the controls any more.
    SignalsClosed,
    /// Something on the board changed, or so much did that not all was seen.
    Changed,
    /// Nothing can change any more.
    ChangesClosed,
    /// A slot came free.
    SlotReleased,
    /// The deadline, or the cap on it, passed.
    DeadlinePassed,
    /// A run that the queue started is over.
    RunEnded,
}

/// What the loop is told.
#[derive(Debug, Clone, Copy, PartialEq, Eq, Structural)]
pub enum LoopEvent {
    /// Whether it is to end.
    Looked { shutting_down: bool },
    /// What the schedules came to.
    Ticked(Step),
    /// What the pass over the board came to, and the time it is now.
    Stepped { step: Step, now: Instant },
    /// What woke it.
    Woken(Woken),
}

/// What the loop does next.
#[derive(Debug, Clone, Copy, PartialEq, Eq, Structural)]
pub enum LoopAction {
    /// Look whether it is to end.
    Look,
    /// Throw away the changes that are buffered, and then look at the schedules.
    DrainAndTick,
    /// Take a pass over the board.
    TakeStep,
    /// Sleep until woken, and until this instant if there is one.
    Sleep(Option<Instant>),
    /// Start nothing more, and wait for every run that was started.
    AwaitRuns,
}

/// The event is one the phase waits for.
pub open spec fn answers(phase: Phase, event: LoopEvent) -> bool {
    match phase {
        Phase::Turning => event is Looked,
        Phase::Ticking => event is Ticked,
        Phase::Stepping(_) => event is Stepped,
        Phase::Sleeping => event is Woken,
        Phase::Ended => false,
    }
}

/// The instant the loop sleeps until: the earlier of the two, and no more than
/// the cap from now.
pub open spec fn alarm(tick: Step, step: Step, now: Instant) -> Option<Instant> {
    match selection::sooner(tick.instant(), step.instant()) {
        Some(at) => Some(at.earlier_of(now.after(DEADLINE_CAP as int))),
        None => None,
    }
}

/// Whether the calendar reaches the cap, where there is an alarm to be capped.
pub open spec fn reckonable(phase: Phase, event: LoopEvent) -> bool {
    match (phase, event) {
        (Phase::Stepping(tick), LoopEvent::Stepped { step, now }) => {
            (step != Step::Worked && (tick.instant() is Some || step.instant() is Some))
                ==> now.has_after(DEADLINE_CAP as int)
        },
        _ => true,
    }
}

/// The loop's next phase, and what it does.
pub open spec fn turn(phase: Phase, event: LoopEvent) -> (Phase, LoopAction) {
    match (phase, event) {
        (Phase::Turning, LoopEvent::Looked { shutting_down }) => if shutting_down {
            (Phase::Ended, LoopAction::AwaitRuns)
        } else {
            (Phase::Ticking, LoopAction::DrainAndTick)
        },
        (Phase::Ticking, LoopEvent::Ticked(tick)) => if tick == Step::Worked {
            (Phase::Turning, LoopAction::Look)
        } else {
            (Phase::Stepping(tick), LoopAction::TakeStep)
        },
        (Phase::Stepping(tick), LoopEvent::Stepped { step, now }) => if step == Step::Worked {
            (Phase::Turning, LoopAction::Look)
        } else {
            (Phase::Sleeping, LoopAction::Sleep(alarm(tick, step, now)))
        },
        (Phase::Sleeping, LoopEvent::Woken(woken)) => if woken == Woken::SignalsClosed || woken
            == Woken::ChangesClosed {
            (Phase::Ended, LoopAction::AwaitRuns)
        } else {
            (Phase::Turning, LoopAction::Look)
        },
        _ => (phase, LoopAction::AwaitRuns),
    }
}

/// The queue itself.
#[derive(Debug, Clone, Copy, PartialEq, Eq, Structural)]
pub struct QueueTask {
    pub phase: Phase,
}

impl QueueTask {
    /// A loop that has not begun; its first action is to look whether it is to
    /// end.
    pub fn new() -> (r: QueueTask)
        ensures
            r.phase == Phase::Turning,
    {
        QueueTask { phase: Phase::Turning }
    }

    /// Takes the loop one event further.
    pub fn run(&mut self, event: LoopEvent) -> (r: LoopAction)
        requires
            answers(old(self).phase, event),
            reckonable(old(self).phase, event),
        ensures
            (final(self).phase, r) == turn(old(self).phase, event),
    {
        match (self.phase, event) {
            (Phase::Turning, LoopEvent::Looked { shutting_down }) => {
                if shutting_down {
                    self.phase = Phase::Ended;
                    LoopAction::AwaitRuns
                } else {
                    self.phase = Phase::Ticking;
                    LoopAction::DrainAndTick
                }
            },
            (Phase::Ticking, LoopEvent::Ticked(tick)) => {
                if tick == Step::Worked {
                    self.phase = Phase::Turning;
                    LoopAction::Look
                } else {
                    self.phase = Phase::Stepping(tick);
                    LoopAction::TakeStep
                }
            },
            (Phase::Stepping(tick), LoopEvent::Stepped { step, now }) => {
                if step == Step::Worked {
                    self.phase = Phase::Turning;
                    LoopAction::Look
                } else {
                    self.phase = Phase::Sleeping;
                    LoopAction::Sleep(
                        match earliest(tick.deadline(), step.deadline()) {
                            Some(at) => Some(at.soonest(now.plus_seconds(DEADLINE_CAP))),
                            None => None,
                        },
                    )
                }
            },
            (Phase::Sleeping, LoopEvent::Woken(woken)) => {
                if woken == Woken::SignalsClosed || woken == Woken::ChangesClosed {
                    self.phase = Phase::Ended;
                    LoopAction::AwaitRuns
                } else {
                    self.phase = Phase::Turning;
                    LoopAction::Look
                }
            },
            _ => LoopAction::AwaitRuns,
        }
    }
}

/// A pass over the board is taken only right after the schedules were looked at
/// and had nothing to do, and the schedules are looked at only right after the
/// loop saw that it is not to end.
pub proof fn law_the_schedules_come_before_the_board(phase: Phase, event: LoopEvent)
    requires
        answers(phase, event),
    ensures
        turn(phase, event).1 == LoopAction::TakeStep ==> phase == Phase::Ticking && (
        event matches LoopEvent::Ticked(tick) && tick != Step::Worked),
        turn(phase, event).1 == LoopAction::DrainAndTick ==> phase == Phase::Turning && event == (
        LoopEvent::Looked { shutting_down: false }),
{
}

/// The loop ends only by waiting for the runs it started, and ends where it is
/// told to at its next look.
pub proof fn law_the_loop_ends_by_waiting_for_its_runs(phase: Phase, event: LoopEvent)
    requires
        answers(phase, event),
    ensures
        turn(phase, event).0 == Phase::Ended <==> turn(phase, event).1 == LoopAction::AwaitRuns,
        turn(Phase::Turning, LoopEvent::Looked { shutting_down: true }).0 == Phase::Ended,
{
}

/// A sleep is for no later than anything that is waited for, and for no longer
/// than the cap; where nothing is waited for there is no alarm.
pub proof fn law_a_sleep_is_capped(tick: Step, step: Step, now: Instant)
    ensures
        match alarm(tick, step, now) {
            Some(at) => {
                &&& tick.instant() matches Some(due) ==> !due.earlier(at)
                &&& step.instant() matches Some(due) ==> !due.earlier(at)
                &&& !now.after(DEADLINE_CAP as int).earlier(at)
            },
            None => tick.instant() is None && step.instant() is None,
        },
{
}

/// How many of `entries` are in `repository`.
pub open spec fn entries_in(entries: Seq<QueueEntry>, repository: Seq<char>) -> nat
    decreases entries.len(),
{
    if entries.len() == 0 {
        0
    } else {
        entries_in(entries.drop_last(), repository) + if entries.last().repository_id@
            == repository {
            1nat
        } else {
            0
        }
    }
}

/// Some entry is for `task`.
pub open spec fn entry_for(entries: Seq<QueueEntry>, task: Seq<char>) -> bool {
    exists|i: int| 0 <= i < entries.len() && (#[trigger] entries[i]).task_id@ == task
}

/// The registry lets `entry` in beside `slots` and the entries let in before it.
pub open spec fn let_in(
    slots: Seq<Slot>,
    before: Seq<QueueEntry>,
    entry: QueueEntry,
    global: usize,
    caps: Map<Seq<char>, usize>,
) -> bool {
    &&& !inflight::held(slots, entry.task_id@)
    &&& !entry_for(before, entry.task_id@)
    &&& slots.len() + before.len() < global
    &&& slots.len() + before.len() < CONCURRENCY_CEILING
    &&& inflight::in_repository(slots, entry.repository_id@) + entries_in(
        before,
        entry.repository_id@,
    ) < capacity::cap_of(caps, entry.repository_id@)
}

/// The entries of a batch that get a slot: in order, each that the registry
/// lets in beside the ones before it.
pub open spec fn granted(
    slots: Seq<Slot>,
    batch: Seq<QueueEntry>,
    global: usize,
    caps: Map<Seq<char>, usize>,
) -> Seq<QueueEntry>
    decreases batch.len(),
{
    if batch.len() == 0 {
        seq![]
    } else {
        let before = granted(slots, batch.drop_last(), global, caps);
        if let_in(slots, before, batch.last(), global, caps) {
            before.push(batch.last())
        } else {
            before
        }
    }
}

/// `slots` with one more for each of `entries`, in order, all of them the
/// queue's and none asked to stop.
pub open spec fn slots_for(after: Seq<Slot>, slots: Seq<Slot>, entries: Seq<QueueEntry>) -> bool {
    &&& after.len() == slots.len() + entries.len()
    &&& after.take(slots.len() as int) == slots
    &&& forall|i: int|
        0 <= i < entries.len() ==> {
            let slot = after[slots.len() + i];
            &&& slot.task_id@ == (#[trigger] entries[i]).task_id@
            &&& slot.repository_id@ == entries[i].repository_id@
            &&& slot.owner == LeaseOwner::Queue
            &&& !slot.cancelled
        }
}

/// The entries that references point at.
pub open spec fn pointed_at(batch: Seq<&QueueEntry>) -> Seq<QueueEntry> {
    batch.map_values(|entry: &QueueEntry| *entry)
}

proof fn lemma_slots_for(after: Seq<Slot>, slots: Seq<Slot>, entries: Seq<QueueEntry>)
    requires
        slots_for(after, slots, entries),
    ensures
        forall|task: Seq<char>|
            #![trigger inflight::held(after, task)]
            inflight::held(after, task) <==> inflight::held(slots, task) || entry_for(
                entries,
                task,
            ),
        forall|repository: Seq<char>|
            #![trigger inflight::in_repository(after, repository)]
            inflight::in_repository(after, repository) == inflight::in_repository(slots, repository)
                + entries_in(entries, repository),
    decreases entries.len(),
{
    assert forall|task: Seq<char>| #[trigger]
        inflight::held(after, task) <==> inflight::held(slots, task) || entry_for(entries, task) by {
        if inflight::held(after, task) {
            let i = choose|i: int| 0 <= i < after.len() && (#[trigger] after[i]).task_id@ == task;
            if i < slots.len() {
                assert(after.take(slots.len() as int)[i] == after[i]);
                assert(slots[i].task_id@ == task);
            } else {
                assert(entries[i - slots.len()].task_id@ == task);
            }
        }
        if inflight::held(slots, task) {
            let i = choose|i: int| 0 <= i < slots.len() && (#[trigger] slots[i]).task_id@ == task;
            assert(after.take(slots.len() as int)[i] == after[i]);
        }
        if entry_for(entries, task) {
            let i = choose|i: int|
                0 <= i < entries.len() && (#[trigger] entries[i]).task_id@ == task;
            assert(after[slots.len() + i].task_id@ == task);
        }
    }
    if entries.len() == 0 {
        assert(after =~= slots) by {
            assert(after.take(slots.len() as int) =~= after);
        }
    } else {
        let fewer = after.drop_last();
        let earlier = entries.drop_last();
        assert(slots_for(fewer, slots, earlier)) by {
            assert(fewer.take(slots.len() as int) =~= after.take(slots.len() as int));
            assert forall|i: int| 0 <= i < earlier.len() implies {
                let slot = fewer[slots.len() + i];
                &&& slot.task_id@ == (#[trigger] earlier[i]).task_id@
                &&& slot.repository_id@ == earlier[i].repository_id@
                &&& slot.owner == LeaseOwner::Queue
                &&& !slot.cancelled
            } by {
                assert(earlier[i] == entries[i]);
                assert(fewer[slots.len() + i] == after[slots.len() + i]);
            }
        }
        lemma_slots_for(fewer, slots, earlier);
        assert(after.last() == after[slots.len() + (entries.len() - 1)]);
        assert(entries[entries.len() - 1] == entries.last());
        assert(after.last().repository_id@ == entries.last().repository_id@);
        assert forall|repository: Seq<char>| #[trigger]
            inflight::in_repository(after, repository) == inflight::in_repository(
                slots,
                repository,
            ) + entries_in(entries, repository) by {
            assert(inflight::in_repository(fewer, repository) == inflight::in_repository(
                slots,
                repository,
            ) + entries_in(earlier, repository));
        }
    }
}

/// A copy of an entry.
fn copy_of(entry: &QueueEntry) -> (r: QueueEntry)
    ensures
        r == *entry,
{
    QueueEntry {
        task_id: entry.task_id.clone(),
        title: entry.title.clone(),
        repository_id: entry.repository_id.clone(),
        queue_position: entry.queue_position,
        skip: entry.skip,
        resume_after: entry.resume_after,
    }
}

/// Takes a slot for every entry of a batch that the registry lets in. One it
/// refuses is passed over: somebody else started it, and that is no failure.
pub fn lease_batch(registry: &mut InFlight, batch: &Vec<&QueueEntry>, bounds: &Resolved) -> (r: Vec<
    QueueEntry,
>)
    requires
        old(registry).well_formed(),
    ensures
        final(registry).well_formed(),
        final(registry).releases() == old(registry).releases(),
        r@ == granted(
            old(registry).slots(),
            pointed_at(batch@),
            bounds.global,
            bounds.per_repository@,
        ),
        slots_for(final(registry).slots(), old(registry).slots(), r@),
{
    let ghost slots = registry.slots();
    let ghost entries = pointed_at(batch@);
    let n: usize = batch.len();
    let mut leased: Vec<QueueEntry> = Vec::new();
    let mut i: usize = 0;
    assert(entries.take(0).len() == 0);
    assert(slots.take(slots.len() as int) =~= slots);
    while i < n
        invariant
            i <= n,
            n == batch@.len(),
            entries == pointed_at(batch@),
            slots == old(registry).slots(),
            registry.well_formed(),
            registry.releases() == old(registry).releases(),
            leased@ == granted(
                slots,
                entries.take(i as int),
                bounds.global,
                bounds.per_repository@,
            ),
            slots_for(registry.slots(), slots, leased@),
        decreases n - i,
    {
        let entry: &QueueEntry = batch[i];
        let ghost held_slots = registry.slots();
        let ghost before = leased@;
        proof {
            assert(entries.take(i + 1).drop_last() =~= entries.take(i as int));
            assert(entries.take(i + 1).last() == *entry);
            lemma_slots_for(held_slots, slots, before);
        }
        let per_repository: usize = bounds.for_repository(entry.repository_id.as_str());
        let answer = registry.acquire(
            entry.task_id.as_str(),
            entry.repository_id.as_str(),
            LeaseOwner::Queue,
            Capacity { global: bounds.global, per_repository },
        );
        if answer.is_ok() {
            leased.push(copy_of(entry));
            proof {
                let after = registry.slots();
                assert(after.drop_last() == held_slots);
                assert forall|k: int| 0 <= k < held_slots.len() implies after[k]
                    == held_slots[k] by {
                    assert(after.drop_last()[k] == after[k]);
                }
                assert(after.take(slots.len() as int) =~= held_slots.take(slots.len() as int));
                assert forall|k: int| 0 <= k < leased@.len() implies {
                    let slot = after[slots.len() + k];
                    &&& slot.task_id@ == (#[trigger] leased@[k]).task_id@
                    &&& slot.repository_id@ == leased@[k].repository_id@
                    &&& slot.owner == LeaseOwner::Queue
                    &&& !slot.cancelled
                } by {
                    if k < before.len() {
                        assert(leased@[k] == before[k]);
                    } else {
                        assert(after[slots.len() + k] == after.last());
                    }
                }
            }
        }
        i += 1;
    }
    assert(entries.take(n as int) =~= entries);
    leased
}

/// A wake-up is never slept through: whatever wakes the loop, short of nobody
/// being left to wake it, leads to another turn; the loop falls asleep only out
/// of a pass that found nothing to do, never out of its sleep.
pub proof fn law_a_wake_up_leads_to_another_turn(woken: Woken, phase: Phase, event: LoopEvent)
    requires
        answers(phase, event),
    ensures
        woken != Woken::SignalsClosed && woken != Woken::ChangesClosed ==> turn(
            Phase::Sleeping,
            LoopEvent::Woken(woken),
        ) == (Phase::Turning, LoopAction::Look),
        woken == Woken::SignalsClosed || woken == Woken::ChangesClosed ==> turn(
            Phase::Sleeping,
            LoopEvent::Woken(woken),
        ) == (Phase::Ended, LoopAction::AwaitRuns),
        turn(phase, event).0 == Phase::Sleeping ==> phase is Stepping && (
        event matches LoopEvent::Stepped { step, .. } && step != Step::Worked),
        phase == Phase::Sleeping ==> turn(phase, event).0 != Phase::Sleeping && !(turn(
            phase,
            event,
        ).1 is Sleep),
{
}

/// What the loop asks for is what it then waits to be told: whatever it does
/// next, its next phase is the one that takes the answer to that.
pub proof fn law_the_loop_waits_for_what_it_asked(phase: Phase, event: LoopEvent)
    requires
        answers(phase, event),
    ensures
        match turn(phase, event).1 {
            LoopAction::Look => turn(phase, event).0 == Phase::Turning,
            LoopAction::DrainAndTick => turn(phase, event).0 == Phase::Ticking,
            LoopAction::TakeStep => turn(phase, event).0 is Stepping,
            LoopAction::Sleep(_) => turn(phase, event).0 == Phase::Sleeping,
            LoopAction::AwaitRuns => turn(phase, event).0 == Phase::Ended,
        },
{
}

/// A turn goes all the way round: unless it is told to end, the loop looks at
/// the schedules; unless they had something to do, it takes a pass, and keeps
/// what they wait for; and it sleeps exactly where the pass had nothing to do.
/// Whatever had something to do is followed by another look at once.
pub proof fn law_a_turn_goes_all_the_way_round(tick: Step, step: Step, now: Instant)
    ensures
        turn(Phase::Turning, LoopEvent::Looked { shutting_down: false }) == (
            Phase::Ticking,
            LoopAction::DrainAndTick,
        ),
        turn(Phase::Turning, LoopEvent::Looked { shutting_down: true }) == (
            Phase::Ended,
            LoopAction::AwaitRuns,
        ),
        tick == Step::Worked <==> turn(Phase::Ticking, LoopEvent::Ticked(tick)) == (
            Phase::Turning,
            LoopAction::Look,
        ),
        tick != Step::Worked <==> turn(Phase::Ticking, LoopEvent::Ticked(tick)) == (
            Phase::Stepping(tick),
            LoopAction::TakeStep,
        ),
        step == Step::Worked <==> turn(
            Phase::Stepping(tick),
            LoopEvent::Stepped { step, now },
        ) == (Phase::Turning, LoopAction::Look),
        step != Step::Worked <==> turn(
            Phase::Stepping(tick),
            LoopEvent::Stepped { step, now },
        ).0 == Phase::Sleeping,
{
}

/// A sleep has an alarm exactly where the schedules or the pass wait for an
/// instant. It is the first of what they wait for and a minute from now: one of
/// the three, and none of them is earlier.
pub proof fn law_a_sleep_ends_with_the_first_thing_waited_for(tick: Step, step: Step, now: Instant)
    requires
        step != Step::Worked,
    ensures
        match turn(Phase::Stepping(tick), LoopEvent::Stepped { step, now }).1 {
            LoopAction::Sleep(None) => !(tick is IdleUntil) && !(step is IdleUntil),
            LoopAction::Sleep(Some(at)) => {
                &&& tick is IdleUntil || step is IdleUntil
                &&& tick == Step::IdleUntil(at) || step == Step::IdleUntil(at) || at == now.after(60)
                &&& tick matches Step::IdleUntil(due) ==> !due.earlier(at)
                &&& step matches Step::IdleUntil(due) ==> !due.earlier(at)
                &&& !now.after(60).earlier(at)
            },
            _ => false,
        },
{
}

/// A pass that goes through disproves what an earlier pass failed with, and
/// never what a schedule was refused for; where there was no reason, there is
/// none after it.
pub proof fn law_only_a_passing_reason_is_disproved(held: StepError)
    ensures
        held.sticky ==> disproved(Some(held)) == Some(held),
        !held.sticky ==> disproved(Some(held)) is None,
        disproved(None) is None,
{
}

proof fn lemma_entries_in(
    entries: Seq<QueueEntry>,
    repository: Seq<char>,
    there: spec_fn(QueueEntry) -> bool,
)
    requires
        forall|entry: QueueEntry| #[trigger]
            there(entry) <==> entry.repository_id@ == repository,
    ensures
        entries_in(entries, repository) == entries.filter(there).len(),
    decreases entries.len(),
{
    reveal(Seq::filter);
    if entries.len() > 0 {
        lemma_entries_in(entries.drop_last(), repository, there);
    }
}

/// One more entry at the end of a batch changes nothing for the ones before it,
/// and gets a slot exactly where its task has none, neither in flight nor from
/// this batch, and where what is in flight and what was let in before it leave
/// room: under the limit, under the ceiling, and under its repository's cap.
pub proof fn law_one_more_entry_takes_the_room_that_is_left(
    slots: Seq<Slot>,
    batch: Seq<QueueEntry>,
    entry: QueueEntry,
    global: usize,
    caps: Map<Seq<char>, usize>,
    before: Seq<QueueEntry>,
    cap: int,
)
    requires
        before == granted(slots, batch, global, caps),
        cap == (if caps.contains_key(entry.repository_id@) {
            caps[entry.repository_id@] as int
        } else {
            1
        }),
    ensures
        ({
            let fits = {
                &&& forall|i: int|
                    0 <= i < slots.len() ==> (#[trigger] slots[i]).task_id@ != entry.task_id@
                &&& forall|i: int|
                    0 <= i < before.len() ==> (#[trigger] before[i]).task_id@ != entry.task_id@
                &&& slots.len() + before.len() < global
                &&& slots.len() + before.len() < CONCURRENCY_CEILING
                &&& slots.filter(
                    |slot: Slot| slot.repository_id@ == entry.repository_id@,
                ).len() + before.filter(
                    |other: QueueEntry| other.repository_id@ == entry.repository_id@,
                ).len() < cap
            };
            &&& fits ==> granted(slots, batch.push(entry), global, caps) == before.push(entry)
            &&& !fits ==> granted(slots, batch.push(entry), global, caps) == before
        }),
        granted(slots, seq![], global, caps).len() == 0,
{
    assert(batch.push(entry).drop_last() =~= batch);
    inflight::lemma_in_repository(
        slots,
        entry.repository_id@,
        |slot: Slot| slot.repository_id@ == entry.repository_id@,
    );
    lemma_entries_in(
        before,
        entry.repository_id@,
        |other: QueueEntry| other.repository_id@ == entry.repository_id@,
    );
    assert(inflight::held(slots, entry.task_id@) <==> exists|i: int|
        0 <= i < slots.len() && (#[trigger] slots[i]).task_id@ == entry.task_id@);
    assert(entry_for(before, entry.task_id@) <==> exists|i: int|
        0 <= i < before.len() && (#[trigger] before[i]).task_id@ == entry.task_id@);
}

/// What takes the loop further is its turn: the phase it is in and what it is
/// told decide both what it does and where it goes.
pub proof fn law_the_loop_takes_its_turn(task: &mut QueueTask, event: LoopEvent, r: LoopAction)
    requires
        call_ensures(QueueTask::run, (task, event), r),
    ensures
        (final(task).phase, r) == turn(old(task).phase, event),
        old(task).phase == Phase::Sleeping && event == LoopEvent::Woken(Woken::Changed) ==> r
            == LoopAction::Look && final(task).phase == Phase::Turning,
{
}

/// Starting turns the switch on and wakes the queue, in this order, and forgets
/// every reason that stood; a start that the preflight refuses, or that could
/// not be looked over, does none of that. Resuming is starting.
pub proof fn law_a_start_turns_the_queue_on(
    handle: &mut QueueHandle,
    blocking: Result<Option<String>, Error>,
    r: Result<Vec<Effect>, Error>,
)
    requires
        call_ensures(QueueHandle::start, (handle, blocking), r) || call_ensures(
            QueueHandle::resume,
            (handle, blocking),
            r,
        ),
    ensures
        r is Ok <==> blocking == Ok::<Option<String>, Error>(None),
        r matches Ok(effects) ==> effects@.len() == 2 && effects@[0] == Effect::SetQueueState(
            QueueState::Running,
        ) && effects@[1] == Effect::Wake && final(handle).error is None,
        r is Err ==> final(handle).error == old(handle).error,
        blocking matches Err(failed) ==> r == Err::<Vec<Effect>, Error>(failed),
        blocking matches Ok(Some(summary)) ==> (r matches Err(e) && e.message == summary && e.code
            == ErrorCode::Invalid),
        final(handle).signal == old(handle).signal,
{
}

/// A pause turns the switch off before anything else, wakes the queue and closes
/// the window. A stop does the same, and asks the queue's own runs to stop after
/// it; a pause asks nobody.
pub proof fn law_a_stop_is_a_pause_that_also_asks(
    handle: QueueHandle,
    pause: Vec<Effect>,
    stop: Vec<Effect>,
)
    requires
        call_ensures(QueueHandle::pause, (&handle,), pause),
        call_ensures(QueueHandle::stop, (&handle,), stop),
    ensures
        pause@.len() == 3,
        pause@[0] == Effect::SetQueueState(QueueState::Paused),
        pause@[1] == Effect::Wake,
        pause@[2] == Effect::CloseWindow,
        stop@ == pause@.push(Effect::CancelOwnedBy(LeaseOwner::Queue)),
{
    assert(stop@ =~= pause@.push(Effect::CancelOwnedBy(LeaseOwner::Queue)));
}

/// Waking and ending signal the loop anew, each time by one; only ending says
/// that it is to end, and nothing takes that back.
pub proof fn law_a_signal_is_always_a_new_one(woken: &mut QueueHandle, ended: &mut QueueHandle)
    requires
        call_ensures(QueueHandle::wake, (woken,), ()),
        call_ensures(QueueHandle::shutdown, (ended,), ()),
        old(woken).signal.generation < u64::MAX,
        old(ended).signal.generation < u64::MAX,
    ensures
        final(woken).signal.generation == old(woken).signal.generation + 1,
        final(ended).signal.generation == old(ended).signal.generation + 1,
        final(woken).signal.shutdown == old(woken).signal.shutdown,
        final(ended).signal.shutdown,
        final(woken).error == old(woken).error,
        final(ended).error == old(ended).error,
{
}

/// A pass or a look at the schedules that failed counts as nothing to do, and
/// says why; one that went through comes to what it came to. A pass that went
/// through disproves what a pass failed with, and nothing else; a look at the
/// schedules disproves nothing.
pub proof fn law_a_failed_pass_is_recorded_and_waits(
    stepped: &mut QueueHandle,
    ticked: &mut QueueHandle,
    taken: Result<Step, Error>,
    step: Step,
    tick: Step,
)
    requires
        call_ensures(QueueHandle::step, (stepped, taken), step),
        call_ensures(QueueHandle::tick_schedules, (ticked, taken), tick),
    ensures
        taken matches Ok(came) ==> step == came && tick == came,
        taken is Err ==> step == Step::Idle && tick == Step::Idle,
        taken matches Err(failed) ==> {
            &&& final(stepped).error == Some(StepError { message: failed.message, sticky: false })
            &&& final(ticked).error == Some(StepError { message: failed.message, sticky: false })
        },
        taken is Ok ==> final(ticked).error == old(ticked).error,
        taken is Ok ==> (old(stepped).error matches Some(held) ==> (if held.sticky {
            final(stepped).error == Some(held)
        } else {
            final(stepped).error is None
        })),
        taken is Ok && old(stepped).error is None ==> final(stepped).error is None,
        final(stepped).signal == old(stepped).signal,
        final(ticked).signal == old(ticked).signal,
{
}

/// A stop has landed once the run was asked to stop, once the loop is to end, and
/// once the switch says anything but to run.
pub proof fn law_when_a_stop_has_landed(
    cancelled: bool,
    shutting_down: bool,
    state: QueueState,
    r: bool,
)
    requires
        call_ensures(interrupted_since, (cancelled, shutting_down, state), r),
    ensures
        !r <==> !cancelled && !shutting_down && state == QueueState::Running,
{
}

/// The status says of the queue what it was told of it, and why the last pass
/// could not be completed.
pub proof fn law_the_status_is_the_whole_picture(
    handle: QueueHandle,
    state: QueueState,
    registry: InFlight,
    plan: Vec<QueueEntry>,
    until: Option<Instant>,
    window: Option<RunWindow>,
    r: QueueStatus,
)
    requires
        call_ensures(QueueHandle::status, (&handle, state, &registry, plan, until, window), r),
    ensures
        r.state == state,
        r.plan == plan,
        r.usage_limit_pause_until == until,
        r.window == window,
        r.last_step_error is Some <==> handle.error is Some,
        handle.error matches Some(held) ==> r.last_step_error == Some(held.message),
        r.running_task_ids@.to_multiset() == registry.slots().map_values(
            |slot: Slot| slot.task_id,
        ).to_multiset(),
        text::in_order(r.running_task_ids@),
{
    assert(inflight::tasks_of(registry.slots()) =~= registry.slots().map_values(
        |slot: Slot| slot.task_id,
    ));
}

proof fn lemma_granted(
    slots: Seq<Slot>,
    batch: Seq<QueueEntry>,
    global: usize,
    caps: Map<Seq<char>, usize>,
)
    ensures
        granted(slots, batch, global, caps).len() > 0 ==> slots.len() + granted(
            slots,
            batch,
            global,
            caps,
        ).len() <= global,
        granted(slots, batch, global, caps).len() <= batch.len(),
        forall|i: int|
            0 <= i < granted(slots, batch, global, caps).len() ==> batch.contains(
                #[trigger] granted(slots, batch, global, caps)[i],
            ) && !inflight::held(slots, granted(slots, batch, global, caps)[i].task_id@),
        batch.len() > 0 && let_in(slots, seq![], batch[0], global, caps) ==> granted(
            slots,
            batch,
            global,
            caps,
        ).len() > 0,
    decreases batch.len(),
{
    if batch.len() > 0 {
        let fewer = batch.drop_last();
        let before = granted(slots, fewer, global, caps);
        let all = granted(slots, batch, global, caps);
        lemma_granted(slots, fewer, global, caps);
        assert forall|i: int| 0 <= i < all.len() implies batch.contains(#[trigger] all[i])
            && !inflight::held(slots, all[i].task_id@) by {
            if i < before.len() {
                assert(all[i] == before[i]);
                assert(fewer.contains(before[i]));
                let k = choose|k: int| 0 <= k < fewer.len() && fewer[k] == before[i];
                assert(batch[k] == before[i]);
            } else {
                assert(batch[batch.len() - 1] == all[i]);
            }
        }
        if let_in(slots, seq![], batch[0], global, caps) {
            if fewer.len() == 0 {
                assert(before =~= seq![]);
            } else {
                assert(fewer[0] == batch[0]);
            }
        }
    }
}

/// What is let in is of the batch, has no run yet, and leaves the limit kept;
/// and where the first of a batch fits, something is let in.
pub proof fn law_a_lease_is_of_the_batch_and_keeps_the_limit(
    slots: Seq<Slot>,
    batch: Seq<QueueEntry>,
    global: usize,
    caps: Map<Seq<char>, usize>,
)
    ensures
        ({
            let leased = granted(slots, batch, global, caps);
            &&& leased.len() > 0 ==> slots.len() + leased.len() <= global
            &&& forall|i: int|
                0 <= i < leased.len() ==> batch.contains(#[trigger] leased[i]) && !inflight::held(
                    slots,
                    leased[i].task_id@,
                )
            &&& batch.len() > 0 && let_in(slots, seq![], batch[0], global, caps) ==> leased.len()
                > 0
        }),
{
    lemma_granted(slots, batch, global, caps);
}

/// A reason of the schedules stays until the schedules go through, and a reason
/// of a pass until a pass does: what disproves the one leaves the other.
pub proof fn law_each_reason_is_cleared_by_its_own(
    step: &mut QueueHandle,
    schedule: &mut QueueHandle,
    after_step: &mut QueueHandle,
    after_schedule: &mut QueueHandle,
    message: String,
)
    requires
        call_ensures(QueueHandle::record_step_error, (step, message), ()),
        call_ensures(QueueHandle::record_schedule_error, (schedule, message), ()),
        call_ensures(QueueHandle::clear_step_error, (after_step,), ()),
        call_ensures(QueueHandle::clear_schedule_error, (after_schedule,), ()),
    ensures
        final(step).error is Some && final(step).error->0.message == message,
        final(schedule).error is Some && final(schedule).error->0.message == message,
        old(after_step).error == final(step).error ==> final(after_step).error is None,
        old(after_step).error == final(schedule).error ==> final(after_step).error == old(
            after_step,
        ).error,
        final(after_schedule).error is None,
        final(step).signal == old(step).signal,
        final(schedule).signal == old(schedule).signal,
        final(after_step).signal == old(after_step).signal,
        final(after_schedule).signal == old(after_schedule).signal,
{
}

/// The ids that are in flight are those of the slots, in order; and the loop is
/// to end exactly once it was told to.
pub proof fn law_what_is_in_flight_is_listed(
    handle: QueueHandle,
    registry: InFlight,
    ids: Vec<String>,
    ending: bool,
)
    requires
        call_ensures(QueueHandle::in_flight_task_ids, (&handle, &registry), ids),
        call_ensures(QueueHandle::is_shutting_down, (&handle,), ending),
    ensures
        ids@.to_multiset() == registry.slots().map_values(
            |slot: Slot| slot.task_id,
        ).to_multiset(),
        text::in_order(ids@),
        ending <==> handle.signal.shutdown,
{
    assert(inflight::tasks_of(registry.slots()) =~= registry.slots().map_values(
        |slot: Slot| slot.task_id,
    ));
}

/// Leasing a batch keeps every slot that was taken and adds one, of the queue's
/// own, for each entry it hands back; each of these is of the batch, had no run,
/// and all of them keep the limit.
pub proof fn law_a_leased_batch_is_slotted(
    registry: &mut InFlight,
    batch: Vec<&QueueEntry>,
    bounds: Resolved,
    r: Vec<QueueEntry>,
    i: int,
)
    requires
        call_ensures(lease_batch, (registry, &batch, &bounds), r),
        0 <= i < r@.len(),
    ensures
        ({
            let before = old(registry).slots();
            let after = final(registry).slots();
            &&& after.len() == before.len() + r@.len()
            &&& after.len() <= bounds.global
            &&& after.take(before.len() as int) == before
            &&& after[before.len() + i].task_id@ == r@[i].task_id@
            &&& after[before.len() + i].repository_id@ == r@[i].repository_id@
            &&& after[before.len() + i].owner == LeaseOwner::Queue
            &&& !after[before.len() + i].cancelled
            &&& exists|k: int| 0 <= k < batch@.len() && *(#[trigger] batch@[k]) == r@[i]
            &&& forall|k: int|
                0 <= k < before.len() ==> (#[trigger] before[k]).task_id@ != r@[i].task_id@
        }),
{
    let before = old(registry).slots();
    let entries = pointed_at(batch@);
    lemma_granted(before, entries, bounds.global, bounds.per_repository@);
    assert(entries.contains(r@[i]));
    let k = choose|k: int| 0 <= k < entries.len() && entries[k] == r@[i];
    assert(*batch@[k] == r@[i]);
    assert(!inflight::held(before, r@[i].task_id@));
}

} // verus!
