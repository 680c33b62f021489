//! The schedules: when a run window opens, and when it closes.
//!
//! One look at them closes a window that is over, fires the first schedule that
//! is due, or says when to look again, in that order: nothing is started after
//! the stop time of the window it would have run in.

use vstd::prelude::*;
use vstd::string::*;

use crate::db::ScheduleMode;
use crate::error::Error;
use crate::instant::Instant;
use crate::scheduler::inflight::LeaseOwner;
use crate::scheduler::selection;
use crate::scheduler::selection::earliest;
use crate::scheduler::state::QueueState;

verus! {

/// What one pass of the queue came to.
#[derive(Debug, Clone, Copy, PartialEq, Eq, Structural)]
pub enum Step {
    /// Something happened. Look at the board again at once.
    Worked,
    /// Nothing to do. Wait to be woken.
    Idle,
    /// Nothing to do before this instant, at which nothing else wakes the queue.
    IdleUntil(Instant),
}

impl Step {
    /// The instant this waits for, if it waits for one.
    pub open spec fn instant(self) -> Option<Instant> {
        match self {
            Step::IdleUntil(at) => Some(at),
            _ => None,
        }
    }

    /// Waiting for `at`, or to be woken where there is nothing to wait for.
    pub open spec fn idle_until(at: Option<Instant>) -> Step {
        match at {
            Some(at) => Step::IdleUntil(at),
            None => Step::Idle,
        }
    }

    /// The instant this waits for, if it waits for one.
    pub fn deadline(self) -> (r: Option<Instant>)
        ensures
            r == self.instant(),
    {
        match self {
            Step::IdleUntil(at) => Some(at),
            Step::Worked => None,
            Step::Idle => None,
        }
    }

    /// Waiting for `at`, or to be woken where there is nothing to wait for.
    pub fn waiting(at: Option<Instant>) -> (r: Step)
        ensures
            r == Step::idle_until(at),
    {
        match at {
            Some(at) => Step::IdleUntil(at),
            None => Step::Idle,
        }
    }
}

/// A standing instruction to work the board at certain times.
#[derive(Debug, Clone, PartialEq, Eq)]
pub struct Schedule {
    pub id: String,
    pub name: String,
    pub mode: ScheduleMode,
    pub max_concurrency: i64,
}

/// The time one schedule lets the queue run for.
#[derive(Debug, Clone, PartialEq, Eq)]
pub struct RunWindow {
    pub schedule_id: String,
    pub schedule_name: String,
    pub opened_at: Instant,
    /// When nothing more is started, if there is such a time.
    pub closes_at: Option<Instant>,
    pub mode: ScheduleMode,
    pub max_concurrency: i64,
}

impl RunWindow {
    /// The stop time has arrived.
    pub open spec fn over(self, now: Instant) -> bool {
        self.closes_at matches Some(at) && !now.earlier(at)
    }

    /// Whether the stop time has arrived.
    pub fn has_closed(&self, now: Instant) -> (r: bool)
        ensures
            r == self.over(now),
    {
        match self.closes_at {
            Some(at) => !now.is_before(at),
            None => false,
        }
    }

    /// The window that a schedule opens.
    pub fn opened_by(schedule: &Schedule, now: Instant, closes_at: Option<Instant>) -> (r: RunWindow)
        ensures
            r == (RunWindow {
                schedule_id: schedule.id,
                schedule_name: schedule.name,
                opened_at: now,
                closes_at,
                mode: schedule.mode,
                max_concurrency: schedule.max_concurrency,
            }),
    {
        RunWindow {
            schedule_id: schedule.id.clone(),
            schedule_name: schedule.name.clone(),
            opened_at: now,
            closes_at,
            mode: schedule.mode,
            max_concurrency: schedule.max_concurrency,
        }
    }
}

/// Whether a schedule is to fire.
#[derive(Debug, Clone, Copy, PartialEq, Eq, Structural)]
pub enum Due {
    /// It is due, and its window would still be open.
    Fire { occurrence: Instant, closes_at: Option<Instant> },
    /// It was due, and its window is over already.
    Expired { occurrence: Instant, closed_at: Instant },
    /// Nothing of it has come round since it last fired.
    NotDue,
}

/// What an enabled schedule says at one look.
#[derive(Debug, PartialEq, Eq)]
pub struct Reading {
    /// Whether it is due, or why its row cannot be read.
    pub due: Result<Due, Error>,
    /// When it comes round next, or why that cannot be said.
    pub next_wake: Result<Option<Instant>, Error>,
}

impl Reading {
    /// The instant this schedule is to be looked at again for.
    pub open spec fn wake(self) -> Option<Instant> {
        match self.next_wake {
            Ok(next) => next,
            Err(_) => None,
        }
    }
}

/// What one look at the schedules comes to.
#[derive(Debug, Clone, Copy, PartialEq, Eq, Structural)]
pub enum Tick {
    /// The open window is over.
    Close,
    /// This schedule came due while a window is open: record that it fired.
    Record { schedule: usize },
    /// This schedule came due: open its window.
    Open { schedule: usize, occurrence: Instant, closes_at: Option<Instant> },
    /// Nothing to do but wait.
    Wait(Step),
}

impl Tick {
    /// What a look that was carried out came to.
    pub fn step(self) -> (r: Step)
        ensures
            r == (match self {
                Tick::Wait(step) => step,
                _ => Step::Worked,
            }),
    {
        match self {
            Tick::Wait(step) => step,
            _ => Step::Worked,
        }
    }
}

/// What the schedules from `i` on come to, with `wake` the earliest instant
/// that anything before them waits for. A row that cannot be read is passed
/// over.
pub open spec fn look(
    window_open: bool,
    readings: Seq<Reading>,
    i: int,
    wake: Option<Instant>,
) -> Tick
    decreases readings.len() - i,
{
    if i < 0 || i >= readings.len() {
        Tick::Wait(Step::idle_until(wake))
    } else {
        match readings[i].due {
            Err(_) => look(window_open, readings, i + 1, wake),
            Ok(Due::Fire { occurrence, closes_at }) => if window_open {
                Tick::Record { schedule: i as usize }
            } else {
                Tick::Open { schedule: i as usize, occurrence, closes_at }
            },
            Ok(_) => look(
                window_open,
                readings,
                i + 1,
                selection::sooner(wake, readings[i].wake()),
            ),
        }
    }
}

/// What one look at the schedules comes to.
pub open spec fn tick(now: Instant, open: Option<RunWindow>, readings: Seq<Reading>) -> Tick {
    match open {
        Some(window) => if window.over(now) {
            Tick::Close
        } else {
            look(true, readings, 0, window.closes_at)
        },
        None => look(false, readings, 0, None),
    }
}

/// One look at the schedules: close a window that is over, fire the first one
/// that is due, or say when to look again. `readings` are the enabled
/// schedules', in their stable order.
pub fn try_tick_schedules(now: Instant, open: &Option<RunWindow>, readings: &Vec<Reading>) -> (r:
    Tick)
    ensures
        r == tick(now, *open, readings@),
{
    let mut wake: Option<Instant> = None;
    let mut window_open = false;
    if let Some(window) = open {
        if window.has_closed(now) {
            return Tick::Close;
        }
        wake = window.closes_at;
        window_open = true;
    }
    let n: usize = readings.len();
    let mut i: usize = 0;
    while i < n
        invariant
            i <= n,
            n == readings@.len(),
            tick(now, *open, readings@) == look(window_open, readings@, i as int, wake),
        decreases n - i,
    {
        let reading = &readings[i];
        match &reading.due {
            Err(_) => {},
            Ok(due) => match due {
                Due::Fire { occurrence, closes_at } => {
                    if window_open {
                        return Tick::Record { schedule: i };
                    }
                    return Tick::Open {
                        schedule: i,
                        occurrence: *occurrence,
                        closes_at: *closes_at,
                    };
                },
                _ => {
                    let next: Option<Instant> = match &reading.next_wake {
                        Ok(next) => *next,
                        Err(_) => None,
                    };
                    wake = earliest(wake, next);
                },
            },
        }
        i += 1;
    }
    Tick::Wait(Step::waiting(wake))
}

/// Something to be carried out, in order; the first that fails ends the rest.
#[derive(Debug, PartialEq, Eq)]
pub enum Effect {
    /// Store the switch.
    SetQueueState(QueueState),
    /// Wake the queue.
    Wake,
    /// Forget the open window, if there is one.
    CloseWindow,
    /// Remember this window as the open one.
    OpenWindow(RunWindow),
    /// Remember that a schedule fired, and when.
    RecordFire { schedule_id: String, at: Instant },
    /// Forget why the queue does not do what its switch says.
    ClearScheduleError,
    /// Remember why a scheduled start did not happen.
    RecordScheduleError(String),
    /// Announce that what the settings show has changed.
    PublishSettings,
    /// Ask every run with this owner to stop.
    CancelOwnedBy(LeaseOwner),
}

/// The stop time arrived: start nothing more, and let what is running finish.
/// The switch is stored before the window is forgotten.
pub fn close_window() -> (r: Vec<Effect>)
    ensures
        r@ == seq![Effect::SetQueueState(QueueState::Paused), Effect::CloseWindow],
{
    let mut out: Vec<Effect> = Vec::new();
    out.push(Effect::SetQueueState(QueueState::Paused));
    out.push(Effect::CloseWindow);
    out
}

/// A schedule came due while a window is open: it has fired, and opens nothing.
pub fn record_fire(schedule: &Schedule, now: Instant) -> (r: Vec<Effect>)
    ensures
        r@ == seq![Effect::RecordFire { schedule_id: schedule.id, at: now }],
{
    let mut out: Vec<Effect> = Vec::new();
    out.push(Effect::RecordFire { schedule_id: schedule.id.clone(), at: now });
    out
}

/// What opening a schedule's window takes, in order.
pub open spec fn opening(
    schedule: Schedule,
    blocking: Option<String>,
    closes_at: Option<Instant>,
    now: Instant,
) -> Seq<Effect> {
    match blocking {
        Some(summary) => seq![
            Effect::RecordFire { schedule_id: schedule.id, at: now },
            Effect::RecordScheduleError(summary),
            Effect::PublishSettings,
        ],
        None => seq![
            Effect::OpenWindow(
                RunWindow {
                    schedule_id: schedule.id,
                    schedule_name: schedule.name,
                    opened_at: now,
                    closes_at,
                    mode: schedule.mode,
                    max_concurrency: schedule.max_concurrency,
                },
            ),
            Effect::RecordFire { schedule_id: schedule.id, at: now },
            Effect::ClearScheduleError,
            Effect::SetQueueState(QueueState::Running),
        ],
    }
}

/// A schedule came due and no window is open. `blocking` is what the preflight
/// refuses the start for, if it does: the schedule has fired all the same, and
/// the switch is left alone.
pub fn open_window(
    schedule: &Schedule,
    blocking: Option<String>,
    closes_at: Option<Instant>,
    now: Instant,
) -> (r: Vec<Effect>)
    ensures
        r@ == opening(*schedule, blocking, closes_at, now),
{
    let mut out: Vec<Effect> = Vec::new();
    match blocking {
        Some(summary) => {
            out.push(Effect::RecordFire { schedule_id: schedule.id.clone(), at: now });
            out.push(Effect::RecordScheduleError(summary));
            out.push(Effect::PublishSettings);
        },
        None => {
            out.push(Effect::OpenWindow(RunWindow::opened_by(schedule, now, closes_at)));
            out.push(Effect::RecordFire { schedule_id: schedule.id.clone(), at: now });
            out.push(Effect::ClearScheduleError);
            out.push(Effect::SetQueueState(QueueState::Running));
        },
    }
    out
}

/// A window whose stop time has arrived is closed, whatever is due.
pub proof fn law_a_window_that_is_over_closes_first(
    now: Instant,
    window: RunWindow,
    readings: Seq<Reading>,
)
    requires
        window.over(now),
    ensures
        tick(now, Some(window), readings) == Tick::Close,
{
}

proof fn lemma_look(window_open: bool, readings: Seq<Reading>, i: int, wake: Option<Instant>)
    requires
        0 <= i <= readings.len(),
    ensures
        match look(window_open, readings, i, wake) {
            Tick::Close => false,
            Tick::Record { .. } => window_open,
            Tick::Open { .. } => !window_open,
            Tick::Wait(step) => {
                &&& step != Step::Worked
                &&& step is Idle <==> wake is None && forall|k: int|
                    i <= k < readings.len() && (#[trigger] readings[k]).due is Ok
                        ==> readings[k].wake() is None
                &&& step matches Step::IdleUntil(at) ==> {
                    &&& wake matches Some(w) ==> !w.earlier(at)
                    &&& forall|k: int|
                        i <= k < readings.len() && (#[trigger] readings[k]).due is Ok ==> (
                        readings[k].wake() matches Some(w) ==> !w.earlier(at))
                    &&& wake == Some(at) || exists|k: int|
                        i <= k < readings.len() && (#[trigger] readings[k]).due is Ok
                            && readings[k].wake() == Some(at)
                }
            },
        },
    decreases readings.len() - i,
{
    if i < readings.len() {
        let row = readings[i];
        match row.due {
            Err(_) => {
                lemma_look(window_open, readings, i + 1, wake);
            },
            Ok(Due::Fire { .. }) => {},
            Ok(_) => {
                let later = selection::sooner(wake, row.wake());
                lemma_look(window_open, readings, i + 1, later);
                if let Tick::Wait(Step::IdleUntil(at)) = look(window_open, readings, i, wake) {
                    assert(later == Some(at) || exists|k: int|
                        i + 1 <= k < readings.len() && (#[trigger] readings[k]).due is Ok
                            && readings[k].wake() == Some(at));
                    if later == Some(at) && wake != Some(at) {
                        assert(readings[i].due is Ok && readings[i].wake() == Some(at));
                    }
                }
            },
        }
    }
}

/// While a window is open no second one opens, and while none is open nothing
/// closes.
pub proof fn law_one_window_at_a_time(now: Instant, open: Option<RunWindow>, readings: Seq<Reading>)
    ensures
        open is Some ==> !(tick(now, open, readings) is Open),
        open is None ==> !(tick(now, open, readings) is Close) && !(tick(now, open, readings)
            is Record),
{
    lemma_look(true, readings, 0, if open is Some { open->0.closes_at } else { None });
    lemma_look(false, readings, 0, None);
}

/// A look that only waits never waits for the past: where every schedule names
/// a later instant, so does the wait, and a window's own stop time is among
/// what it waits for.
pub proof fn law_a_wait_is_for_the_future(
    now: Instant,
    open: Option<RunWindow>,
    readings: Seq<Reading>,
)
    requires
        forall|k: int|
            0 <= k < readings.len() ==> ((#[trigger] readings[k]).wake() matches Some(w)
                ==> now.earlier(w)),
    ensures
        tick(now, open, readings) matches Tick::Wait(Step::IdleUntil(at)) ==> {
            &&& now.earlier(at)
            &&& open matches Some(window) ==> (window.closes_at matches Some(w) ==> !w.earlier(at))
        },
{
    lemma_look(true, readings, 0, if open is Some { open->0.closes_at } else { None });
    lemma_look(false, readings, 0, None);
}

/// A wait is for the earliest instant that any readable schedule names or the
/// open window stops at, and for nothing but such an instant; where there is
/// none, it is for no instant.
pub proof fn law_a_wait_is_for_the_earliest(
    now: Instant,
    open: Option<RunWindow>,
    readings: Seq<Reading>,
)
    ensures
        ({
            let stop = if open is Some {
                open->0.closes_at
            } else {
                None
            };
            tick(now, open, readings) matches Tick::Wait(step) ==> match step {
                Step::Worked => false,
                Step::Idle => stop is None && forall|k: int|
                    0 <= k < readings.len() && (#[trigger] readings[k]).due is Ok
                        ==> readings[k].wake() is None,
                Step::IdleUntil(at) => {
                    &&& stop matches Some(w) ==> !w.earlier(at)
                    &&& forall|k: int|
                        0 <= k < readings.len() && (#[trigger] readings[k]).due is Ok ==> (
                        readings[k].wake() matches Some(w) ==> !w.earlier(at))
                    &&& stop == Some(at) || exists|k: int|
                        0 <= k < readings.len() && (#[trigger] readings[k]).due is Ok
                            && readings[k].wake() == Some(at)
                },
            }
        }),
{
    lemma_look(true, readings, 0, if open is Some { open->0.closes_at } else { None });
    lemma_look(false, readings, 0, None);
}

/// Whatever the preflight says, the schedule counts as fired, so that it does
/// not come due again at the next look; and the queue is started exactly where
/// the preflight refuses nothing.
pub proof fn law_a_due_schedule_fires_once(
    schedule: Schedule,
    blocking: Option<String>,
    closes_at: Option<Instant>,
    now: Instant,
)
    ensures
        opening(schedule, blocking, closes_at, now).contains(
            Effect::RecordFire { schedule_id: schedule.id, at: now },
        ),
        opening(schedule, blocking, closes_at, now).contains(
            Effect::SetQueueState(QueueState::Running),
        ) <==> blocking is None,
{
    let effects = opening(schedule, blocking, closes_at, now);
    let fired = Effect::RecordFire { schedule_id: schedule.id, at: now };
    if blocking is None {
        assert(effects[1] == fired);
        assert(effects[3] == Effect::SetQueueState(QueueState::Running));
    } else {
        assert(effects[0] == fired);
        assert(effects.len() == 3);
    }
}

spec fn fires(reading: Reading) -> bool {
    reading.due matches Ok(due) && due is Fire
}

proof fn lemma_look_fires(window_open: bool, readings: Seq<Reading>, i: int, wake: Option<Instant>)
    requires
        0 <= i <= readings.len() <= usize::MAX,
    ensures
        match look(window_open, readings, i, wake) {
            Tick::Close => false,
            Tick::Record { schedule } => i <= schedule < readings.len() && fires(
                readings[schedule as int],
            ) && forall|k: int| i <= k < schedule ==> !fires(#[trigger] readings[k]),
            Tick::Open { schedule, occurrence, closes_at } => i <= schedule < readings.len()
                && readings[schedule as int].due == Ok::<Due, Error>(
                Due::Fire { occurrence, closes_at },
            ) && forall|k: int| i <= k < schedule ==> !fires(#[trigger] readings[k]),
            Tick::Wait(_) => forall|k: int| i <= k < readings.len() ==> !fires(#[trigger] readings[k]),
        },
    decreases readings.len() - i,
{
    if i < readings.len() {
        match readings[i].due {
            Err(_) => {
                lemma_look_fires(window_open, readings, i + 1, wake);
            },
            Ok(Due::Fire { .. }) => {},
            Ok(_) => {
                lemma_look_fires(
                    window_open,
                    readings,
                    i + 1,
                    selection::sooner(wake, readings[i].wake()),
                );
            },
        }
    }
}

/// One look does one thing: it closes an open window exactly when its stop time
/// has come; else it fires the first schedule that is due, opening its window
/// where none is open and only recording it where one is; and it waits only
/// where none is due. A schedule that cannot be read does not stand in the way
/// of the ones after it.
pub proof fn law_one_look_does_one_thing(
    now: Instant,
    open: Option<RunWindow>,
    readings: Vec<Reading>,
    r: Tick,
)
    requires
        call_ensures(try_tick_schedules, (now, &open, &readings), r),
    ensures
        r == Tick::Close <==> (open matches Some(window) && (window.closes_at matches Some(at)
            && !now.earlier(at))),
        r matches Tick::Record { schedule } ==> {
            &&& open is Some
            &&& schedule < readings@.len()
            &&& readings@[schedule as int].due matches Ok(due) && due is Fire
            &&& forall|k: int|
                0 <= k < schedule ==> !((#[trigger] readings@[k]).due matches Ok(due)
                    && due is Fire)
        },
        r matches Tick::Open { schedule, occurrence, closes_at } ==> {
            &&& open is None
            &&& schedule < readings@.len()
            &&& readings@[schedule as int].due == Ok::<Due, Error>(
                Due::Fire { occurrence, closes_at },
            )
            &&& forall|k: int|
                0 <= k < schedule ==> !((#[trigger] readings@[k]).due matches Ok(due)
                    && due is Fire)
        },
        r is Wait ==> forall|k: int|
            0 <= k < readings@.len() ==> !((#[trigger] readings@[k]).due matches Ok(due)
                && due is Fire),
{
    let stop = if open is Some {
        open->0.closes_at
    } else {
        None
    };
    lemma_look(true, readings@, 0, stop);
    lemma_look(false, readings@, 0, None);
    assert(readings@.len() == readings.len());
    lemma_look_fires(true, readings@, 0, stop);
    lemma_look_fires(false, readings@, 0, None);
    assert forall|k: int| 0 <= k < readings@.len() implies fires(#[trigger] readings@[k]) == (
    readings@[k].due matches Ok(due) && due is Fire) by {}
}

/// A look that waits waits for the first thing that will come: the stop time of
/// the open window, or the next round of a schedule that can be read. It is one
/// of those, none of them is earlier, and without any it waits to be woken.
pub proof fn law_a_look_waits_for_the_first_thing_to_come(
    now: Instant,
    open: Option<RunWindow>,
    readings: Vec<Reading>,
    step: Step,
)
    requires
        call_ensures(try_tick_schedules, (now, &open, &readings), Tick::Wait(step)),
    ensures
        match step {
            Step::Worked => false,
            Step::Idle => {
                &&& open matches Some(window) ==> window.closes_at is None
                &&& forall|k: int|
                    0 <= k < readings@.len() && (#[trigger] readings@[k]).due is Ok ==> !(
                    readings@[k].next_wake matches Ok(next) && next is Some)
            },
            Step::IdleUntil(at) => {
                &&& open matches Some(window) ==> (window.closes_at matches Some(stop)
                    ==> !stop.earlier(at))
                &&& forall|k: int|
                    0 <= k < readings@.len() && (#[trigger] readings@[k]).due is Ok ==> (
                    readings@[k].next_wake matches Ok(Some(next)) ==> !next.earlier(at))
                &&& (open matches Some(window) && window.closes_at == Some(at)) || exists|k: int|
                    0 <= k < readings@.len() && (#[trigger] readings@[k]).due is Ok
                        && readings@[k].next_wake == Ok::<Option<Instant>, Error>(Some(at))
            },
        },
{
    law_a_wait_is_for_the_earliest(now, open, readings@);
    match step {
        Step::Worked => {},
        Step::Idle => {
            assert forall|k: int|
                0 <= k < readings@.len() && (#[trigger] readings@[k]).due is Ok implies !(
            readings@[k].next_wake matches Ok(next) && next is Some) by {
                assert(readings@[k].wake() is None);
            }
        },
        Step::IdleUntil(at) => {
            assert forall|k: int| 0 <= k < readings@.len() && (#[trigger] readings@[k]).due is Ok implies (
            readings@[k].next_wake matches Ok(Some(next)) ==> !next.earlier(at)) by {
                if let Ok(Some(next)) = readings@[k].next_wake {
                    assert(readings@[k].wake() == Some(next));
                }
            }
            if !(open is Some && open->0.closes_at == Some(at)) {
                let k = choose|k: int|
                    0 <= k < readings@.len() && (#[trigger] readings@[k]).due is Ok
                        && readings@[k].wake() == Some(at);
                assert(readings@[k].next_wake == Ok::<Option<Instant>, Error>(Some(at)));
            }
        },
    }
}

/// Opening a window turns the queue on last, once everything else is stored: the
/// window, as its schedule and its stop time say, that the schedule fired, and
/// that no refusal stands. A refused start opens nothing and turns nothing on;
/// it records that the schedule fired, and why it came to nothing.
pub proof fn law_a_window_opens_as_its_schedule_says(
    schedule: Schedule,
    blocking: Option<String>,
    closes_at: Option<Instant>,
    now: Instant,
    r: Vec<Effect>,
)
    requires
        call_ensures(open_window, (&schedule, blocking, closes_at, now), r),
    ensures
        blocking is None ==> {
            &&& r@.len() == 4
            &&& r@[0] matches Effect::OpenWindow(window) && window.schedule_id == schedule.id
                && window.schedule_name == schedule.name && window.opened_at == now
                && window.closes_at == closes_at && window.mode == schedule.mode
                && window.max_concurrency == schedule.max_concurrency
            &&& r@[1] == (Effect::RecordFire { schedule_id: schedule.id, at: now })
            &&& r@[2] == Effect::ClearScheduleError
            &&& r@[3] == Effect::SetQueueState(QueueState::Running)
        },
        blocking matches Some(summary) ==> {
            &&& r@.len() == 3
            &&& r@[0] == (Effect::RecordFire { schedule_id: schedule.id, at: now })
            &&& r@[1] == Effect::RecordScheduleError(summary)
            &&& r@[2] == Effect::PublishSettings
        },
{
}

/// A step waits for the instant it was made with, and for none where it was made
/// with none.
pub proof fn law_a_step_waits_for_what_it_was_given(
    at: Option<Instant>,
    step: Step,
    deadline: Option<Instant>,
)
    requires
        call_ensures(Step::waiting, (at,), step),
        call_ensures(Step::deadline, (step,), deadline),
    ensures
        deadline == at,
        step != Step::Worked,
        at is None <==> step == Step::Idle,
{
}

/// A look that was carried out has worked, unless it only waits; the stop time
/// closes a window by turning the queue off first, and a schedule that fires
/// while one is open is recorded and does nothing more.
pub proof fn law_what_a_look_comes_to(
    tick: Tick,
    step: Step,
    closing: Vec<Effect>,
    schedule: Schedule,
    now: Instant,
    fired: Vec<Effect>,
)
    requires
        call_ensures(Tick::step, (tick,), step),
        call_ensures(close_window, (), closing),
        call_ensures(record_fire, (&schedule, now), fired),
    ensures
        tick matches Tick::Wait(waits) ==> step == waits,
        !(tick is Wait) ==> step == Step::Worked,
        closing@.len() == 2 && closing@[0] == Effect::SetQueueState(QueueState::Paused)
            && closing@[1] == Effect::CloseWindow,
        fired@.len() == 1 && fired@[0] == (Effect::RecordFire {
            schedule_id: schedule.id,
            at: now,
        }),
{
}

/// A window is over once its stop time has come, and one without a stop time
/// never is.
pub proof fn law_when_a_window_is_over(window: RunWindow, now: Instant, r: bool)
    requires
        call_ensures(RunWindow::has_closed, (&window, now), r),
    ensures
        window.closes_at is None ==> !r,
        window.closes_at matches Some(at) ==> (r <==> at == now || at.earlier(now)),
{
}

} // verus!
