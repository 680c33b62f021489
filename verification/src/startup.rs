//! What a crash may have left behind, found and not acted on.

use vstd::prelude::*;

use crate::db::RunState;

verus! {

/// What was found.
#[derive(Debug, Clone, PartialEq, Eq)]
pub struct ReconciliationReport {
    /// Tasks that were still running when this process started.
    pub tasks_left_running: Vec<String>,
    /// Tasks whose worktree is set and gone.
    pub missing_worktrees: Vec<String>,
    /// Runs whose transcript is gone.
    pub missing_run_logs: Vec<String>,
}

impl ReconciliationReport {
    /// Whether there is nothing to report.
    pub fn is_empty(&self) -> (r: bool)
        ensures
            r == (self.tasks_left_running@.len() == 0 && self.missing_worktrees@.len() == 0
                && self.missing_run_logs@.len() == 0),
    {
        self.tasks_left_running.len() == 0 && self.missing_worktrees.len() == 0
            && self.missing_run_logs.len() == 0
    }
}

/// What looking for a path came to.
#[derive(Debug, Clone, Copy, PartialEq, Eq, Structural)]
pub enum PathCheck {
    Present,
    /// The path is cleanly not there.
    Absent,
    /// The path could not be looked at, which says nothing of it.
    Unreadable,
}

/// A task, as far as the survey is concerned.
#[derive(Debug, Clone, PartialEq, Eq)]
pub struct SurveyedTask {
    pub id: String,
    pub run_state: RunState,
    /// What looking for its worktree came to, for a task that has one.
    pub worktree: Option<PathCheck>,
}

/// A run, as far as the survey is concerned.
#[derive(Debug, Clone, PartialEq, Eq)]
pub struct SurveyedRun {
    pub id: String,
    pub log: PathCheck,
}

/// Whether a path is gone: only where that was seen cleanly.
pub fn path_is_missing(check: PathCheck) -> (r: bool)
    ensures
        r == (check == PathCheck::Absent),
{
    match check {
        PathCheck::Absent => true,
        PathCheck::Present => false,
        PathCheck::Unreadable => false,
    }
}

/// The tasks that were still running.
pub open spec fn running(tasks: Seq<SurveyedTask>) -> Seq<String>
    decreases tasks.len(),
{
    if tasks.len() == 0 {
        seq![]
    } else if tasks.last().run_state == RunState::Running {
        running(tasks.drop_last()).push(tasks.last().id)
    } else {
        running(tasks.drop_last())
    }
}

/// The tasks whose worktree is gone.
pub open spec fn without_worktree(tasks: Seq<SurveyedTask>) -> Seq<String>
    decreases tasks.len(),
{
    if tasks.len() == 0 {
        seq![]
    } else if tasks.last().worktree == Some(PathCheck::Absent) {
        without_worktree(tasks.drop_last()).push(tasks.last().id)
    } else {
        without_worktree(tasks.drop_last())
    }
}

/// The runs whose transcript is gone.
pub open spec fn without_log(runs: Seq<SurveyedRun>) -> Seq<String>
    decreases runs.len(),
{
    if runs.len() == 0 {
        seq![]
    } else if runs.last().log == PathCheck::Absent {
        without_log(runs.drop_last()).push(runs.last().id)
    } else {
        without_log(runs.drop_last())
    }
}

/// The tasks that were still running.
pub fn tasks_left_running(tasks: &Vec<SurveyedTask>) -> (r: Vec<String>)
    ensures
        r@ == running(tasks@),
{
    let mut out: Vec<String> = Vec::new();
    let n: usize = tasks.len();
    let mut i: usize = 0;
    assert(tasks@.take(0).len() == 0);
    while i < n
        invariant
            i <= n,
            n == tasks.len(),
            out@ == running(tasks@.take(i as int)),
        decreases n - i,
    {
        proof {
            assert(tasks@.take(i + 1).drop_last() =~= tasks@.take(i as int));
            assert(tasks@.take(i + 1).last() == tasks@[i as int]);
        }
        if tasks[i].run_state == RunState::Running {
            out.push(tasks[i].id.clone());
        }
        i += 1;
    }
    assert(tasks@.take(n as int) =~= tasks@);
    out
}

/// The tasks whose worktree is set and gone.
pub fn missing_worktrees(tasks: &Vec<SurveyedTask>) -> (r: Vec<String>)
    ensures
        r@ == without_worktree(tasks@),
{
    let mut out: Vec<String> = Vec::new();
    let n: usize = tasks.len();
    let mut i: usize = 0;
    assert(tasks@.take(0).len() == 0);
    while i < n
        invariant
            i <= n,
            n == tasks.len(),
            out@ == without_worktree(tasks@.take(i as int)),
        decreases n - i,
    {
        proof {
            assert(tasks@.take(i + 1).drop_last() =~= tasks@.take(i as int));
            assert(tasks@.take(i + 1).last() == tasks@[i as int]);
        }
        if let Some(check) = tasks[i].worktree {
            if path_is_missing(check) {
                out.push(tasks[i].id.clone());
            }
        }
        i += 1;
    }
    assert(tasks@.take(n as int) =~= tasks@);
    out
}

/// The runs whose transcript is gone.
pub fn missing_run_logs(runs: &Vec<SurveyedRun>) -> (r: Vec<String>)
    ensures
        r@ == without_log(runs@),
{
    let mut out: Vec<String> = Vec::new();
    let n: usize = runs.len();
    let mut i: usize = 0;
    assert(runs@.take(0).len() == 0);
    while i < n
        invariant
            i <= n,
            n == runs.len(),
            out@ == without_log(runs@.take(i as int)),
        decreases n - i,
    {
        proof {
            assert(runs@.take(i + 1).drop_last() =~= runs@.take(i as int));
            assert(runs@.take(i + 1).last() == runs@[i as int]);
        }
        if path_is_missing(runs[i].log) {
            out.push(runs[i].id.clone());
        }
        i += 1;
    }
    assert(runs@.take(n as int) =~= runs@);
    out
}

/// Everything a crash may have left behind.
pub fn survey(tasks: &Vec<SurveyedTask>, runs: &Vec<SurveyedRun>) -> (r: ReconciliationReport)
    ensures
        r.tasks_left_running@ == running(tasks@),
        r.missing_worktrees@ == without_worktree(tasks@),
        r.missing_run_logs@ == without_log(runs@),
{
    ReconciliationReport {
        tasks_left_running: tasks_left_running(tasks),
        missing_worktrees: missing_worktrees(tasks),
        missing_run_logs: missing_run_logs(runs),
    }
}

/// A board where nothing runs, every worktree that is set can be seen or cannot
/// be looked at, and every transcript likewise, surveys to nothing.
pub proof fn law_a_clean_state_surveys_to_nothing(tasks: Seq<SurveyedTask>, runs: Seq<SurveyedRun>)
    requires
        forall|i: int|
            0 <= i < tasks.len() ==> (#[trigger] tasks[i]).run_state != RunState::Running
                && tasks[i].worktree != Some(PathCheck::Absent),
        forall|i: int| 0 <= i < runs.len() ==> (#[trigger] runs[i]).log != PathCheck::Absent,
    ensures
        running(tasks).len() == 0,
        without_worktree(tasks).len() == 0,
        without_log(runs).len() == 0,
    decreases tasks.len() + runs.len(),
{
    if tasks.len() > 0 {
        assert(tasks[tasks.len() - 1].run_state != RunState::Running);
        law_a_clean_state_surveys_to_nothing(tasks.drop_last(), runs);
    } else if runs.len() > 0 {
        assert(runs[runs.len() - 1].log != PathCheck::Absent);
        law_a_clean_state_surveys_to_nothing(tasks, runs.drop_last());
    }
}

proof fn lemma_running(tasks: Seq<SurveyedTask>)
    ensures
        running(tasks) == tasks.filter(
            |task: SurveyedTask| task.run_state == RunState::Running,
        ).map_values(|task: SurveyedTask| task.id),
    decreases tasks.len(),
{
    reveal(Seq::filter);
    let kept = |task: SurveyedTask| task.run_state == RunState::Running;
    let name = |task: SurveyedTask| task.id;
    if tasks.len() > 0 {
        lemma_running(tasks.drop_last());
        if kept(tasks.last()) {
            assert(tasks.filter(kept).map_values(name) =~= tasks.drop_last().filter(
                kept,
            ).map_values(name).push(name(tasks.last())));
        }
    }
    assert(running(tasks) =~= tasks.filter(kept).map_values(name));
}

proof fn lemma_without_worktree(tasks: Seq<SurveyedTask>)
    ensures
        without_worktree(tasks) == tasks.filter(
            |task: SurveyedTask| task.worktree == Some(PathCheck::Absent),
        ).map_values(|task: SurveyedTask| task.id),
    decreases tasks.len(),
{
    reveal(Seq::filter);
    let kept = |task: SurveyedTask| task.worktree == Some(PathCheck::Absent);
    let name = |task: SurveyedTask| task.id;
    if tasks.len() > 0 {
        lemma_without_worktree(tasks.drop_last());
        if kept(tasks.last()) {
            assert(tasks.filter(kept).map_values(name) =~= tasks.drop_last().filter(
                kept,
            ).map_values(name).push(name(tasks.last())));
        }
    }
    assert(without_worktree(tasks) =~= tasks.filter(kept).map_values(name));
}

proof fn lemma_without_log(runs: Seq<SurveyedRun>)
    ensures
        without_log(runs) == runs.filter(
            |run: SurveyedRun| run.log == PathCheck::Absent,
        ).map_values(|run: SurveyedRun| run.id),
    decreases runs.len(),
{
    reveal(Seq::filter);
    let kept = |run: SurveyedRun| run.log == PathCheck::Absent;
    let name = |run: SurveyedRun| run.id;
    if runs.len() > 0 {
        lemma_without_log(runs.drop_last());
        if kept(runs.last()) {
            assert(runs.filter(kept).map_values(name) =~= runs.drop_last().filter(
                kept,
            ).map_values(name).push(name(runs.last())));
        }
    }
    assert(without_log(runs) =~= runs.filter(kept).map_values(name));
}

/// Every task that was left running is reported, once for each and in order,
/// and no other is: whatever the survey came to for the rest.
pub proof fn law_every_task_left_running_is_reported(tasks: Vec<SurveyedTask>, r: Vec<String>)
    requires
        call_ensures(tasks_left_running, (&tasks,), r),
    ensures
        r@ == tasks@.filter(
            |task: SurveyedTask| task.run_state == RunState::Running,
        ).map_values(|task: SurveyedTask| task.id),
        forall|id: String| #[trigger]
            r@.contains(id) <==> exists|i: int|
                0 <= i < tasks@.len() && (#[trigger] tasks@[i]).run_state == RunState::Running
                    && tasks@[i].id == id,
{
    lemma_running(tasks@);
    let kept = |task: SurveyedTask| task.run_state == RunState::Running;
    assert forall|id: String| #[trigger] r@.contains(id) <==> exists|i: int|
        0 <= i < tasks@.len() && (#[trigger] tasks@[i]).run_state == RunState::Running
            && tasks@[i].id == id by {
        lemma_named(tasks@, kept, id);
        if exists|i: int| 0 <= i < tasks@.len() && kept(#[trigger] tasks@[i]) && tasks@[i].id == id {
            let i = choose|i: int|
                0 <= i < tasks@.len() && kept(#[trigger] tasks@[i]) && tasks@[i].id == id;
            assert(tasks@[i].run_state == RunState::Running);
        }
        if exists|i: int|
            0 <= i < tasks@.len() && (#[trigger] tasks@[i]).run_state == RunState::Running
                && tasks@[i].id == id {
            let i = choose|i: int|
                0 <= i < tasks@.len() && (#[trigger] tasks@[i]).run_state == RunState::Running
                    && tasks@[i].id == id;
            assert(kept(tasks@[i]));
        }
    }
}

proof fn lemma_named(tasks: Seq<SurveyedTask>, kept: spec_fn(SurveyedTask) -> bool, id: String)
    ensures
        tasks.filter(kept).map_values(|task: SurveyedTask| task.id).contains(id) <==> exists|i: int|
            0 <= i < tasks.len() && kept(#[trigger] tasks[i]) && tasks[i].id == id,
{
    let found = tasks.filter(kept);
    let names = found.map_values(|task: SurveyedTask| task.id);
    if names.contains(id) {
        let k = choose|k: int| 0 <= k < names.len() && names[k] == id;
        tasks.lemma_filter_pred(kept, k);
        assert(found.contains(found[k]));
        tasks.lemma_filter_contains_rev(kept, found[k]);
        let i = choose|i: int| 0 <= i < tasks.len() && tasks[i] == found[k];
        assert(kept(tasks[i]) && tasks[i].id == id);
    }
    if exists|i: int| 0 <= i < tasks.len() && kept(#[trigger] tasks[i]) && tasks[i].id == id {
        let i = choose|i: int| 0 <= i < tasks.len() && kept(#[trigger] tasks[i]) && tasks[i].id == id;
        tasks.lemma_filter_contains(kept, i);
        let k = choose|k: int| 0 <= k < found.len() && found[k] == tasks[i];
        assert(names[k] == id);
    }
}

/// A worktree is reported as missing exactly where the task has one and it was
/// seen to be gone, once for each such task and in order.
pub proof fn law_every_lost_worktree_is_reported(tasks: Vec<SurveyedTask>, r: Vec<String>)
    requires
        call_ensures(missing_worktrees, (&tasks,), r),
    ensures
        r@ == tasks@.filter(
            |task: SurveyedTask| task.worktree == Some(PathCheck::Absent),
        ).map_values(|task: SurveyedTask| task.id),
{
    lemma_without_worktree(tasks@);
}

/// A transcript is reported as missing exactly where it was seen to be gone,
/// once for each such run and in order.
pub proof fn law_every_lost_transcript_is_reported(runs: Vec<SurveyedRun>, r: Vec<String>)
    requires
        call_ensures(missing_run_logs, (&runs,), r),
    ensures
        r@ == runs@.filter(|run: SurveyedRun| run.log == PathCheck::Absent).map_values(
            |run: SurveyedRun| run.id,
        ),
{
    lemma_without_log(runs@);
}

/// The survey is the three reports, each of everything it was given: what is
/// running, what has lost its worktree, and what has lost its transcript.
pub proof fn law_the_survey_leaves_nothing_out(
    tasks: Vec<SurveyedTask>,
    runs: Vec<SurveyedRun>,
    r: ReconciliationReport,
)
    requires
        call_ensures(survey, (&tasks, &runs), r),
    ensures
        r.tasks_left_running@ == tasks@.filter(
            |task: SurveyedTask| task.run_state == RunState::Running,
        ).map_values(|task: SurveyedTask| task.id),
        r.missing_worktrees@ == tasks@.filter(
            |task: SurveyedTask| task.worktree == Some(PathCheck::Absent),
        ).map_values(|task: SurveyedTask| task.id),
        r.missing_run_logs@ == runs@.filter(
            |run: SurveyedRun| run.log == PathCheck::Absent,
        ).map_values(|run: SurveyedRun| run.id),
{
    lemma_running(tasks@);
    lemma_without_worktree(tasks@);
    lemma_without_log(runs@);
}

/// There is nothing to report exactly where none of the three lists holds
/// anything; and a path is missing only where it was looked for and not there.
pub proof fn law_when_there_is_nothing_to_report(
    report: ReconciliationReport,
    empty: bool,
    check: PathCheck,
    missing: bool,
)
    requires
        call_ensures(ReconciliationReport::is_empty, (&report,), empty),
        call_ensures(path_is_missing, (check,), missing),
    ensures
        !empty <==> report.tasks_left_running@.len() > 0 || report.missing_worktrees@.len() > 0
            || report.missing_run_logs@.len() > 0,
        missing <==> check is Absent,
{
}

} // verus!
