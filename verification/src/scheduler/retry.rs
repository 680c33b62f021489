//! When a failed attempt is tried again, and when it stops being tried.
//!
//! Two tasks that hit one wall read the same reset and would otherwise resume
//! in the same instant, so a usage-limit resume is spread by an offset that the
//! run's own id decides: the same run always waits the same time.

use vstd::prelude::*;
use vstd::string::*;

use crate::db::ExitClass;
use crate::instant::Instant;
use crate::scheduler::spread;

verus! {

/// How many attempts the transient budget holds before the task is left for a
/// human.
pub const MAX_TRANSIENT_ATTEMPTS: u32 = 5;

/// The first waits of the back-off, in seconds.
pub const TRANSIENT_BACKOFF_STEPS: [i64; 3] = [60, 300, 900];

/// What every wait after those takes, in seconds.
pub const TRANSIENT_BACKOFF_TAIL: i64 = 900;

/// How long to wait for a limit that reported no reset time, in seconds.
pub const USAGE_LIMIT_FALLBACK_POLL: i64 = 900;

/// The widest offset added to a usage-limit resume, in seconds.
pub const USAGE_LIMIT_MAX_JITTER: i64 = 60;

/// Where the spreading hash starts.
pub const FNV_OFFSET_BASIS: u64 = 0xcbf2_9ce4_8422_2325;

/// What the spreading hash multiplies by at each byte.
pub const FNV_PRIME: u64 = 0x0000_0100_0000_01b3;

/// What a task's current session has already spent, and how its latest attempt
/// ended.
#[derive(Debug, Clone, PartialEq, Eq)]
pub struct AttemptHistory {
    /// How the attempt that just ended ended.
    pub exit_class: ExitClass,
    /// The session every attempt in this budget shares.
    pub session_id: String,
    /// Every attempt of this session, including the one that just ended.
    pub attempts_in_session: u32,
    /// How many of them ended transiently.
    pub transient_attempts: u32,
    /// How many of them were interrupted.
    pub interrupted_attempts: u32,
    /// When the usage window reopens, if the latest attempt hit one that said.
    pub usage_limit_resets_at: Option<Instant>,
}

/// Why an attempt is resumed.
#[derive(Debug, Clone, Copy, PartialEq, Eq, Structural)]
pub enum RetryKind {
    /// Waiting out a window that is closed.
    UsageLimit,
    /// Backing off from something that may well work next time.
    Transient,
    /// The one resume that waits for nothing.
    Interrupted,
}

/// Why a task will not be tried again.
#[derive(Debug, Clone, Copy, PartialEq, Eq, Structural)]
pub enum GiveUpReason {
    /// An ending that trying again does not improve, or that was no failure.
    NotRetryable(ExitClass),
    /// The transient budget is spent, by this many attempts.
    AttemptsExhausted { attempts: u32 },
}

/// What to do after an attempt ended.
#[derive(Debug, Clone, Copy, PartialEq, Eq, Structural)]
pub enum RetryDecision {
    /// Resume the session at `at`.
    ResumeAt { at: Instant, kind: RetryKind },
    /// Do not try again.
    GiveUp { reason: GiveUpReason },
}

impl RetryDecision {
    /// The instant a decision stores, if it stores one.
    pub open spec fn deadline(self) -> Option<Instant> {
        match self {
            RetryDecision::ResumeAt { at, .. } => Some(at),
            RetryDecision::GiveUp { .. } => None,
        }
    }

    /// The instant to store with the run, or nothing for a task that is done
    /// being tried.
    pub fn resume_after(self) -> (r: Option<Instant>)
        ensures
            r == self.deadline(),
    {
        match self {
            RetryDecision::ResumeAt { at, .. } => Some(at),
            RetryDecision::GiveUp { .. } => None,
        }
    }
}

/// The 64-bit FNV-1a hash of `bytes`.
pub open spec fn fnv(bytes: Seq<u8>) -> u64
    decreases bytes.len(),
{
    if bytes.len() == 0 {
        FNV_OFFSET_BASIS
    } else {
        (fnv(bytes.drop_last()) ^ (bytes.last() as u64)).wrapping_mul(FNV_PRIME)
    }
}

/// The offset that `seed` gets out of `0..=span` seconds.
pub open spec fn offset(seed: Seq<char>, span: int) -> int {
    if span <= 0 {
        0
    } else {
        fnv(vstd::utf8::encode_utf8(seed)) as int % (span + 1)
    }
}

/// A stable offset in `0..=span_seconds`, derived from `seed`. A span that is
/// not positive gives no offset.
pub fn jitter(seed: &str, span_seconds: i64) -> (r: i64)
    ensures
        r == offset(seed@, span_seconds as int),
{
    if span_seconds <= 0 {
        return 0;
    }
    let bytes = seed.as_bytes();
    let mut hash: u64 = FNV_OFFSET_BASIS;
    let mut i: usize = 0;
    assert(bytes@.take(0).len() == 0);
    while i < bytes.len()
        invariant
            i <= bytes.len(),
            hash == fnv(bytes@.take(i as int)),
        decreases bytes.len() - i,
    {
        proof {
            assert(bytes@.take(i + 1).drop_last() =~= bytes@.take(i as int));
            assert(bytes@.take(i + 1).last() == bytes@[i as int]);
        }
        hash = (hash ^ (bytes[i] as u64)).wrapping_mul(FNV_PRIME);
        i += 1;
    }
    assert(bytes@.take(bytes@.len() as int) =~= bytes@);
    let span: u64 = span_seconds as u64 + 1;
    (hash % span) as i64
}

/// How much of the transient budget is spent: every transient ending, and every
/// interruption after the first.
pub open spec fn spent(history: AttemptHistory) -> int {
    history.transient_attempts + if history.interrupted_attempts > 0 {
        history.interrupted_attempts - 1
    } else {
        0
    }
}

/// The wait that follows when `spent` of the budget is gone, in seconds.
pub open spec fn backoff(spent: int) -> i64 {
    if spent <= 1 {
        60
    } else if spent == 2 {
        300
    } else {
        900
    }
}

/// When the window the latest attempt hit is taken to reopen: as reported, else
/// a fixed poll away, and never before `now`.
pub open spec fn reopening(history: AttemptHistory, now: Instant) -> Instant {
    (match history.usage_limit_resets_at {
        Some(at) => at,
        None => now.after(USAGE_LIMIT_FALLBACK_POLL as int),
    }).later_of(now)
}

/// Whether the calendar reaches every instant the decision computes, and the
/// spent budget can be counted.
pub open spec fn decidable(history: AttemptHistory, now: Instant, seed: Seq<char>) -> bool {
    match history.exit_class {
        ExitClass::UsageLimit => {
            &&& history.usage_limit_resets_at is None ==> now.has_after(
                USAGE_LIMIT_FALLBACK_POLL as int,
            )
            &&& reopening(history, now).has_after(offset(seed, USAGE_LIMIT_MAX_JITTER as int))
        },
        ExitClass::Transient | ExitClass::Interrupted => {
            (history.exit_class == ExitClass::Interrupted && history.interrupted_attempts <= 1) || {
                &&& spent(history) <= u32::MAX
                &&& spent(history) < MAX_TRANSIENT_ATTEMPTS ==> now.has_after(
                    backoff(spent(history)) as int,
                )
            }
        },
        _ => true,
    }
}

/// What is done after an attempt ended.
pub open spec fn decision(history: AttemptHistory, now: Instant, seed: Seq<char>) -> RetryDecision {
    match history.exit_class {
        ExitClass::UsageLimit => RetryDecision::ResumeAt {
            at: reopening(history, now).after(offset(seed, USAGE_LIMIT_MAX_JITTER as int)),
            kind: RetryKind::UsageLimit,
        },
        ExitClass::Transient | ExitClass::Interrupted => if history.exit_class
            == ExitClass::Interrupted && history.interrupted_attempts <= 1 {
            RetryDecision::ResumeAt { at: now, kind: RetryKind::Interrupted }
        } else if spent(history) >= MAX_TRANSIENT_ATTEMPTS {
            RetryDecision::GiveUp {
                reason: GiveUpReason::AttemptsExhausted { attempts: spent(history) as u32 },
            }
        } else {
            RetryDecision::ResumeAt {
                at: now.after(backoff(spent(history)) as int),
                kind: RetryKind::Transient,
            }
        },
        class => RetryDecision::GiveUp { reason: GiveUpReason::NotRetryable(class) },
    }
}

/// What to do after an attempt ended.
///
/// | Ending | What follows |
/// | --- | --- |
/// | usage limit | a resume once the window reopens, spread by up to a minute; unbounded |
/// | transient | a resume after 1, 5, 15, 15 minutes; given up when the budget is spent |
/// | interrupted | a resume at once, the first time; then as transient |
/// | fatal, cancelled, success | nothing |
///
/// `seed` is the id of the run that ended.
pub fn decide(history: &AttemptHistory, now: Instant, seed: &str) -> (r: RetryDecision)
    requires
        decidable(*history, now, seed@),
    ensures
        r == decision(*history, now, seed@),
{
    match history.exit_class {
        ExitClass::UsageLimit => {
            let reported = match history.usage_limit_resets_at {
                Some(at) => at,
                None => now.plus_seconds(USAGE_LIMIT_FALLBACK_POLL),
            };
            let reset = reported.latest(now);
            RetryDecision::ResumeAt {
                at: reset.plus_seconds(jitter(seed, USAGE_LIMIT_MAX_JITTER)),
                kind: RetryKind::UsageLimit,
            }
        },
        ExitClass::Transient => back_off(history, now),
        ExitClass::Interrupted => if history.interrupted_attempts <= 1 {
            RetryDecision::ResumeAt { at: now, kind: RetryKind::Interrupted }
        } else {
            back_off(history, now)
        },
        ExitClass::Fatal => not_retryable(ExitClass::Fatal),
        ExitClass::Cancelled => not_retryable(ExitClass::Cancelled),
        ExitClass::Success => not_retryable(ExitClass::Success),
    }
}

fn not_retryable(class: ExitClass) -> (r: RetryDecision)
    ensures
        r == (RetryDecision::GiveUp { reason: GiveUpReason::NotRetryable(class) }),
{
    RetryDecision::GiveUp { reason: GiveUpReason::NotRetryable(class) }
}

/// The transient row: a growing wait, and a cap.
fn back_off(history: &AttemptHistory, now: Instant) -> (r: RetryDecision)
    requires
        spent(*history) <= u32::MAX,
        spent(*history) < MAX_TRANSIENT_ATTEMPTS ==> now.has_after(backoff(spent(*history)) as int),
    ensures
        r == (if spent(*history) >= MAX_TRANSIENT_ATTEMPTS {
            RetryDecision::GiveUp {
                reason: GiveUpReason::AttemptsExhausted { attempts: spent(*history) as u32 },
            }
        } else {
            RetryDecision::ResumeAt {
                at: now.after(backoff(spent(*history)) as int),
                kind: RetryKind::Transient,
            }
        }),
{
    let spent: u32 = history.transient_attempts + history.interrupted_attempts.saturating_sub(1);
    if spent >= MAX_TRANSIENT_ATTEMPTS {
        return RetryDecision::GiveUp {
            reason: GiveUpReason::AttemptsExhausted { attempts: spent },
        };
    }
    let steps = TRANSIENT_BACKOFF_STEPS;
    let index: usize = spent.saturating_sub(1) as usize;
    let step: i64 = if index < 3 {
        steps[index]
    } else {
        TRANSIENT_BACKOFF_TAIL
    };
    RetryDecision::ResumeAt { at: now.plus_seconds(step), kind: RetryKind::Transient }
}

/// A usage limit is retried however much the session has already been through,
/// at or after `now` and at or after the reported reset, and at most a minute
/// past the later of the two.
pub proof fn law_a_usage_limit_is_always_retried(
    history: AttemptHistory,
    now: Instant,
    seed: Seq<char>,
)
    requires
        history.exit_class == ExitClass::UsageLimit,
        decidable(history, now, seed),
    ensures
        decision(history, now, seed) matches RetryDecision::ResumeAt { at, kind } && {
            &&& kind == RetryKind::UsageLimit
            &&& at.seconds >= now.seconds
            &&& history.usage_limit_resets_at matches Some(reset) ==> at.seconds >= reset.seconds
            &&& at.seconds <= reopening(history, now).seconds + USAGE_LIMIT_MAX_JITTER
        },
{
    law_an_offset_stays_in_its_span(seed, USAGE_LIMIT_MAX_JITTER as int);
}

/// An offset never leaves the span it was given.
pub proof fn law_an_offset_stays_in_its_span(seed: Seq<char>, span: int)
    ensures
        0 <= offset(seed, span),
        span > 0 ==> offset(seed, span) <= span,
        span <= 0 ==> offset(seed, span) == 0,
{
    if span > 0 {
        vstd::arithmetic::div_mod::lemma_mod_bound(
            fnv(vstd::utf8::encode_utf8(seed)) as int,
            span + 1,
        );
    }
}

/// No offset of a span is left out: each is some seed's.
pub proof fn law_every_offset_has_a_seed(span: i64, seconds: int)
    requires
        0 <= seconds <= span,
    ensures
        exists|seed: Seq<char>| #[trigger] offset(seed, span as int) == seconds,
{
    if span > 0 {
        spread::law_every_hash_has_a_text(seconds as u64);
        let seed = choose|text: Seq<char>|
            fnv(#[trigger] vstd::utf8::encode_utf8(text)) == seconds as u64;
        vstd::arithmetic::div_mod::lemma_small_mod(seconds as nat, (span + 1) as nat);
        assert(offset(seed, span as int) == seconds);
    } else {
        assert(offset(Seq::empty(), span as int) == seconds);
    }
}

/// Both ends of every span are reached: some seed waits no longer, and some
/// seed waits the whole span.
pub proof fn law_both_ends_of_a_span_are_reached(span: i64)
    requires
        span > 0,
    ensures
        exists|seed: Seq<char>| #[trigger] offset(seed, span as int) == 0,
        exists|seed: Seq<char>| #[trigger] offset(seed, span as int) == span,
{
    law_every_offset_has_a_seed(span, 0);
    law_every_offset_has_a_seed(span, span as int);
}

/// A session that keeps failing is given up: once the budget is spent no
/// transient or interrupted ending is resumed, but for the first interruption.
pub proof fn law_a_spent_budget_is_given_up(history: AttemptHistory, now: Instant, seed: Seq<char>)
    requires
        history.exit_class == ExitClass::Transient || (history.exit_class == ExitClass::Interrupted
            && history.interrupted_attempts > 1),
        spent(history) >= MAX_TRANSIENT_ATTEMPTS,
    ensures
        decision(history, now, seed).deadline() is None,
{
}

/// No resume is scheduled before `now`.
pub proof fn law_no_resume_is_scheduled_into_the_past(
    history: AttemptHistory,
    now: Instant,
    seed: Seq<char>,
)
    requires
        now.valid(),
        history.usage_limit_resets_at matches Some(at) ==> at.valid(),
        decidable(history, now, seed),
    ensures
        decision(history, now, seed).deadline() matches Some(at) ==> !at.earlier(now),
{
    law_an_offset_stays_in_its_span(seed, USAGE_LIMIT_MAX_JITTER as int);
}

/// Trying again does not improve a fatal ending, and neither a cancelled nor a
/// successful one is a failure: whatever else the session has been through, none
/// of them is resumed, and the decision names the ending. Every other ending is
/// worth a decision of its own.
pub proof fn law_a_final_ending_is_never_resumed(
    history: AttemptHistory,
    now: Instant,
    seed: &str,
    r: RetryDecision,
)
    requires
        call_ensures(decide, (&history, now, seed), r),
    ensures
        history.exit_class == ExitClass::Fatal || history.exit_class == ExitClass::Cancelled
            || history.exit_class == ExitClass::Success <==> r == (RetryDecision::GiveUp {
            reason: GiveUpReason::NotRetryable(history.exit_class),
        }),
        r matches RetryDecision::GiveUp { reason: GiveUpReason::NotRetryable(class) } ==> class
            == history.exit_class,
        history.exit_class == ExitClass::Fatal || history.exit_class == ExitClass::Cancelled
            || history.exit_class == ExitClass::Success ==> r.deadline() is None,
{
}

/// A transient ending is tried again after one, five, fifteen and fifteen
/// minutes, and given up with the fifth. An interruption counts as one from the
/// second on; the first is resumed at once and counts for nothing.
pub proof fn law_a_transient_ending_backs_off(
    history: AttemptHistory,
    now: Instant,
    seed: &str,
    r: RetryDecision,
    counted: int,
)
    requires
        call_ensures(decide, (&history, now, seed), r),
        history.exit_class == ExitClass::Transient || history.exit_class == ExitClass::Interrupted,
        history.interrupted_attempts == 0 ==> counted == history.transient_attempts,
        history.interrupted_attempts > 0 ==> counted == history.transient_attempts
            + history.interrupted_attempts - 1,
        counted <= u32::MAX,
    ensures
        history.exit_class == ExitClass::Interrupted && history.interrupted_attempts <= 1 ==> r == (
        RetryDecision::ResumeAt { at: now, kind: RetryKind::Interrupted }),
        history.exit_class == ExitClass::Transient || history.interrupted_attempts > 1 ==> {
            &&& counted <= 1 ==> r == (RetryDecision::ResumeAt {
                at: now.after(60),
                kind: RetryKind::Transient,
            })
            &&& counted == 2 ==> r == (RetryDecision::ResumeAt {
                at: now.after(300),
                kind: RetryKind::Transient,
            })
            &&& counted == 3 || counted == 4 ==> r == (RetryDecision::ResumeAt {
                at: now.after(900),
                kind: RetryKind::Transient,
            })
            &&& counted >= 5 ==> r == (RetryDecision::GiveUp {
                reason: GiveUpReason::AttemptsExhausted { attempts: counted as u32 },
            })
        },
{
}

/// A usage limit is waited out until the window reopens, as it was reported or
/// else a quarter of an hour from now, and never into the past, plus a spread
/// of at most a minute that the seed alone decides: neither what the session
/// has spent nor when it is asked moves it.
pub proof fn law_a_usage_limit_is_waited_out(
    history: AttemptHistory,
    now: Instant,
    seed: &str,
    r: RetryDecision,
    reset: Instant,
)
    requires
        call_ensures(decide, (&history, now, seed), r),
        history.exit_class == ExitClass::UsageLimit,
        decidable(history, now, seed@),
        history.usage_limit_resets_at matches Some(at) ==> reset == at,
        history.usage_limit_resets_at is None ==> reset == now.after(900),
    ensures
        r matches RetryDecision::ResumeAt { at, kind } && {
            &&& kind == RetryKind::UsageLimit
            &&& !reset.earlier(now) ==> at == reset.after(offset(seed@, 60))
            &&& reset.earlier(now) ==> at == now.after(offset(seed@, 60))
        },
        0 <= offset(seed@, 60) <= 60,
{
    law_an_offset_stays_in_its_span(seed@, 60);
}

/// What a usage limit is answered with does not depend on how often the session
/// has been tried.
pub proof fn law_a_usage_limit_spends_no_budget(
    history: AttemptHistory,
    other: AttemptHistory,
    now: Instant,
    seed: Seq<char>,
)
    requires
        history.exit_class == ExitClass::UsageLimit,
        other.exit_class == ExitClass::UsageLimit,
        history.usage_limit_resets_at == other.usage_limit_resets_at,
    ensures
        decision(history, now, seed) == decision(other, now, seed),
{
}

/// The more of the budget is spent, the longer the wait; and once a session is
/// given up, spending more does not bring it back.
pub proof fn law_the_back_off_never_shrinks(
    history: AttemptHistory,
    more: AttemptHistory,
    now: Instant,
    seed: Seq<char>,
)
    requires
        history.exit_class == ExitClass::Transient,
        more.exit_class == ExitClass::Transient,
        more.transient_attempts >= history.transient_attempts,
        more.interrupted_attempts >= history.interrupted_attempts,
        now.has_after(900),
        now.valid(),
    ensures
        match (decision(history, now, seed), decision(more, now, seed)) {
            (
                RetryDecision::ResumeAt { at, .. },
                RetryDecision::ResumeAt { at: later, .. },
            ) => !later.earlier(at),
            (RetryDecision::GiveUp { .. }, RetryDecision::ResumeAt { .. }) => false,
            _ => true,
        },
{
}

} // verus!
