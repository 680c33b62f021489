//! How much of a task's retry budget is spent, counted off its attempts.
//!
//! The session is the boundary of a budget: counting stops at the first attempt
//! of another session, so a task somebody queued again starts a new one.

use vstd::prelude::*;
use vstd::string::*;

use crate::db::ExitClass;
use crate::instant::Instant;
use crate::scheduler::retry::AttemptHistory;

verus! {

/// What the attempt that just ended says of itself before its row is closed.
#[derive(Debug, Clone, Copy, PartialEq, Eq, Structural)]
pub struct Ending {
    pub exit_class: ExitClass,
    /// When the usage window was reported to reopen.
    pub usage_limit_resets_at: Option<Instant>,
}

/// One attempt, as far as the budget is concerned.
#[derive(Debug, Clone, PartialEq, Eq)]
pub struct AttemptRow {
    pub session_id: String,
    /// Nothing for an attempt that has not been closed.
    pub exit_class: Option<ExitClass>,
}

/// How many of `rows`, from the first on, belong to `session`.
pub open spec fn in_session(rows: Seq<AttemptRow>, session: Seq<char>) -> nat
    decreases rows.len(),
{
    if rows.len() == 0 || rows[0].session_id@ != session {
        0
    } else {
        1 + in_session(rows.subrange(1, rows.len() as int), session)
    }
}

/// How many of `rows` ended as `class`.
pub open spec fn ended_as(rows: Seq<AttemptRow>, class: ExitClass) -> nat
    decreases rows.len(),
{
    if rows.len() == 0 {
        0
    } else {
        ended_as(rows.drop_last(), class) + if rows.last().exit_class == Some(class) {
            1nat
        } else {
            0
        }
    }
}

/// The attempts before the newest that share its session.
pub open spec fn budget(rows: Seq<AttemptRow>) -> Seq<AttemptRow> {
    let older = rows.subrange(1, rows.len() as int);
    older.take(in_session(older, rows[0].session_id@) as int)
}

/// The number that counting `class` gives: the budget's attempts that ended so,
/// and the ending one.
pub open spec fn counted(rows: Seq<AttemptRow>, ending: Ending, class: ExitClass) -> nat {
    ended_as(budget(rows), class) + if ending.exit_class == class {
        1nat
    } else {
        0
    }
}

/// What the current session has spent, with `ending` as its latest attempt.
pub open spec fn folded(rows: Seq<AttemptRow>, ending: Ending) -> AttemptHistory {
    AttemptHistory {
        exit_class: ending.exit_class,
        session_id: rows[0].session_id,
        attempts_in_session: (1 + budget(rows).len()) as u32,
        transient_attempts: counted(rows, ending, ExitClass::Transient) as u32,
        interrupted_attempts: counted(rows, ending, ExitClass::Interrupted) as u32,
        usage_limit_resets_at: ending.usage_limit_resets_at,
    }
}

proof fn lemma_in_session(rows: Seq<AttemptRow>, session: Seq<char>)
    ensures
        in_session(rows, session) <= rows.len(),
        forall|i: int| 0 <= i < in_session(rows, session) ==> (#[trigger] rows[i]).session_id@ == session,
        in_session(rows, session) < rows.len() ==> rows[in_session(rows, session) as int].session_id@
            != session,
    decreases rows.len(),
{
    if rows.len() > 0 && rows[0].session_id@ == session {
        let rest = rows.subrange(1, rows.len() as int);
        lemma_in_session(rest, session);
        assert forall|i: int| 0 <= i < in_session(rows, session) implies (#[trigger] rows[i]).session_id@
            == session by {
            if i > 0 {
                assert(rest[i - 1] == rows[i]);
            }
        }
    }
}

proof fn lemma_in_session_unique(rows: Seq<AttemptRow>, session: Seq<char>, n: int)
    requires
        0 <= n <= rows.len(),
        forall|i: int| 0 <= i < n ==> (#[trigger] rows[i]).session_id@ == session,
        n < rows.len() ==> rows[n].session_id@ != session,
    ensures
        in_session(rows, session) == n,
{
    lemma_in_session(rows, session);
    let m = in_session(rows, session) as int;
    if m < n {
        assert(rows[m].session_id@ == session);
    }
    if n < m {
        assert(rows[n].session_id@ == session);
    }
}

/// What the current session has spent, with `ending` as its latest attempt.
///
/// `rows` is newest first; the newest row is the attempt that is ending, whose
/// class comes from `ending`. A task that has never been run has no history.
pub fn fold(rows: &Vec<AttemptRow>, ending: Ending) -> (r: Option<AttemptHistory>)
    requires
        rows.len() <= u32::MAX,
    ensures
        match r {
            None => rows.len() == 0,
            Some(history) => rows.len() > 0 && history == folded(rows@, ending) && {
                &&& history.exit_class == ending.exit_class
                &&& history.session_id == rows@[0].session_id
                &&& history.attempts_in_session == 1 + budget(rows@).len()
                &&& history.transient_attempts == counted(rows@, ending, ExitClass::Transient)
                &&& history.interrupted_attempts == counted(rows@, ending, ExitClass::Interrupted)
                &&& history.usage_limit_resets_at == ending.usage_limit_resets_at
            },
        },
{
    if rows.len() == 0 {
        return None;
    }
    let session_id = rows[0].session_id.clone();
    let mut attempts: u32 = 1;
    let mut transient: u32 = if ending.exit_class == ExitClass::Transient {
        1
    } else {
        0
    };
    let mut interrupted: u32 = if ending.exit_class == ExitClass::Interrupted {
        1
    } else {
        0
    };
    let ghost older = rows@.subrange(1, rows@.len() as int);
    assert(older.take(0).len() == 0);
    let mut i: usize = 1;
    while i < rows.len() && rows[i].session_id == session_id
        invariant
            1 <= i <= rows.len() <= u32::MAX,
            session_id == rows@[0].session_id,
            older == rows@.subrange(1, rows@.len() as int),
            forall|j: int| 0 <= j < i - 1 ==> (#[trigger] older[j]).session_id@ == session_id@,
            attempts == i,
            transient == ended_as(older.take(i - 1), ExitClass::Transient) + (if ending.exit_class
                == ExitClass::Transient {
                1nat
            } else {
                0
            }),
            interrupted == ended_as(older.take(i - 1), ExitClass::Interrupted) + (
            if ending.exit_class == ExitClass::Interrupted {
                1nat
            } else {
                0
            }),
            transient <= i,
            interrupted <= i,
        decreases rows.len() - i,
    {
        proof {
            assert(older[i - 1] == rows@[i as int]);
            assert(older.take(i as int).drop_last() =~= older.take(i - 1));
            assert(older.take(i as int).last() == rows@[i as int]);
        }
        attempts += 1;
        match rows[i].exit_class {
            Some(ExitClass::Transient) => {
                transient += 1;
            },
            Some(ExitClass::Interrupted) => {
                interrupted += 1;
            },
            _ => {},
        }
        i += 1;
    }
    proof {
        if i < rows.len() {
            assert(older[i - 1] == rows@[i as int]);
        }
        lemma_in_session_unique(older, session_id@, i - 1);
    }
    Some(
        AttemptHistory {
            exit_class: ending.exit_class,
            session_id,
            attempts_in_session: attempts,
            transient_attempts: transient,
            interrupted_attempts: interrupted,
            usage_limit_resets_at: ending.usage_limit_resets_at,
        },
    )
}

/// The session a resume would continue: the newest attempt's.
pub fn resumable_session(rows: &Vec<AttemptRow>) -> (r: Option<String>)
    ensures
        r == (if rows.len() > 0 {
            Some(rows@[0].session_id)
        } else {
            None
        }),
{
    if rows.len() > 0 {
        Some(rows[0].session_id.clone())
    } else {
        None
    }
}

/// The budget is the session's: attempts of another session, and all that came
/// before them, change nothing of what a history counts.
pub proof fn law_another_session_is_not_this_budget(
    current: Seq<AttemptRow>,
    earlier: Seq<AttemptRow>,
)
    requires
        current.len() > 0,
        forall|i: int|
            0 <= i < current.len() ==> (#[trigger] current[i]).session_id@ == current[0].session_id@,
        earlier.len() > 0 ==> earlier[0].session_id@ != current[0].session_id@,
    ensures
        budget(current + earlier) == budget(current),
        budget(current) == current.subrange(1, current.len() as int),
{
    let session = current[0].session_id@;
    let all = current + earlier;
    let older_all = all.subrange(1, all.len() as int);
    let older = current.subrange(1, current.len() as int);
    assert(older_all =~= older + earlier);
    assert forall|i: int| 0 <= i < older.len() implies (#[trigger] older_all[i]).session_id@ == session by {
        assert(older_all[i] == current[i + 1]);
    }
    assert forall|i: int| 0 <= i < older.len() implies (#[trigger] older[i]).session_id@ == session by {
        assert(older[i] == current[i + 1]);
    }
    if earlier.len() > 0 {
        assert(older_all[older.len() as int] == earlier[0]);
    }
    lemma_in_session_unique(older_all, session, older.len() as int);
    lemma_in_session_unique(older, session, older.len() as int);
    assert(all[0] == current[0]);
    assert(older_all.take(older.len() as int) =~= older);
    assert(older.take(older.len() as int) =~= older);
}

/// The budget is what stands between the newest attempt and the first of another
/// session.
pub proof fn lemma_budget(rows: Seq<AttemptRow>, n: int)
    requires
        1 <= n <= rows.len(),
        forall|i: int| 0 <= i < n ==> (#[trigger] rows[i]).session_id@ == rows[0].session_id@,
        n < rows.len() ==> rows[n].session_id@ != rows[0].session_id@,
    ensures
        budget(rows) == rows.subrange(1, n),
{
    let older = rows.subrange(1, rows.len() as int);
    assert forall|i: int| 0 <= i < n - 1 implies (#[trigger] older[i]).session_id@
        == rows[0].session_id@ by {
        assert(older[i] == rows[i + 1]);
    }
    if n < rows.len() {
        assert(older[n - 1] == rows[n]);
    }
    lemma_in_session_unique(older, rows[0].session_id@, n - 1);
    assert(budget(rows) =~= rows.subrange(1, n));
}

/// What ended as `class` is counted one by one.
pub proof fn lemma_ended_as(rows: Seq<AttemptRow>, class: ExitClass, ended: spec_fn(AttemptRow) -> bool)
    requires
        forall|row: AttemptRow| #[trigger] ended(row) <==> row.exit_class == Some(class),
    ensures
        ended_as(rows, class) == rows.filter(ended).len(),
    decreases rows.len(),
{
    reveal(Seq::filter);
    if rows.len() > 0 {
        lemma_ended_as(rows.drop_last(), class, ended);
    }
}

/// A history counts the attempts from the newest back to the last that another
/// session made: all of them, those that ended transiently, and those that were
/// interrupted. The newest counts as what it ends as, whatever its row says.
pub proof fn law_a_history_counts_its_own_session(
    rows: Vec<AttemptRow>,
    ending: Ending,
    r: Option<AttemptHistory>,
    n: int,
)
    requires
        call_ensures(fold, (&rows, ending), r),
        1 <= n <= rows@.len() <= u32::MAX,
        forall|i: int| 0 <= i < n ==> (#[trigger] rows@[i]).session_id@ == rows@[0].session_id@,
        n < rows@.len() ==> rows@[n].session_id@ != rows@[0].session_id@,
    ensures
        r matches Some(history) && {
            &&& history.exit_class == ending.exit_class
            &&& history.usage_limit_resets_at == ending.usage_limit_resets_at
            &&& history.session_id == rows@[0].session_id
            &&& history.attempts_in_session == n
            &&& history.transient_attempts == rows@.subrange(1, n).filter(
                |row: AttemptRow| row.exit_class == Some(ExitClass::Transient),
            ).len() + (if ending.exit_class == ExitClass::Transient {
                1int
            } else {
                0
            })
            &&& history.interrupted_attempts == rows@.subrange(1, n).filter(
                |row: AttemptRow| row.exit_class == Some(ExitClass::Interrupted),
            ).len() + (if ending.exit_class == ExitClass::Interrupted {
                1int
            } else {
                0
            })
        },
{
    lemma_budget(rows@, n);
    lemma_ended_as(
        rows@.subrange(1, n),
        ExitClass::Transient,
        |row: AttemptRow| row.exit_class == Some(ExitClass::Transient),
    );
    lemma_ended_as(
        rows@.subrange(1, n),
        ExitClass::Interrupted,
        |row: AttemptRow| row.exit_class == Some(ExitClass::Interrupted),
    );
}

/// A task that was never run has no history, and every other has one.
pub proof fn law_only_a_run_makes_history(
    rows: Vec<AttemptRow>,
    ending: Ending,
    r: Option<AttemptHistory>,
)
    requires
        call_ensures(fold, (&rows, ending), r),
    ensures
        r is Some <==> rows@.len() > 0,
{
}

/// The session to resume is the newest attempt's, and there is none without one.
pub proof fn law_the_session_to_resume_is_the_newest(rows: Vec<AttemptRow>, r: Option<String>)
    requires
        call_ensures(resumable_session, (&rows,), r),
    ensures
        r is None <==> rows@.len() == 0,
        r matches Some(session) ==> session == rows@[0].session_id,
{
}

} // verus!
