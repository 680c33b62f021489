//! A task's recorded strategy, and the only rules by which it changes.
//!
//! A recorded proposal stops further planning whether it succeeded or failed:
//! otherwise a task whose planner fails would be planned again on every pass.

use vstd::prelude::*;
use vstd::string::*;

use crate::db::{Cost, StrategyMode, StrategySource, Task};
use crate::error;
use crate::error::{missing_task, Error, ErrorCode};
use crate::instant::Instant;
use crate::strategy::resolve;
use crate::strategy::resolve::effective_strategy;
use crate::strategy::settings::StrategyDefaults;
use crate::text;
use crate::text::{find, without_trailing_space};

verus! {

/// The version of the envelope that is written.
pub const STRATEGY_PLAN_VERSION: u32 = 1;

/// Whether a planner produced a proposal or failed trying.
#[derive(Debug, Clone, Copy, PartialEq, Eq, Hash, Structural)]
pub enum StrategyPlanStatus {
    Proposed,
    Failed,
}

/// Whether a planner thinks the work fans out.
#[derive(Debug, Clone, Copy, PartialEq, Eq, Hash, Structural)]
pub enum StrategyWorkflow {
    SingleAgent,
    MultiAgent,
}

/// One phase of a proposal.
#[derive(Debug, Clone, PartialEq, Eq)]
pub struct StrategyPhase {
    pub name: String,
    pub model: Option<String>,
    pub effort: Option<String>,
    pub agents: u32,
    pub summary: String,
}

/// How many agents a phase wants where it does not say.
pub fn one_agent() -> (r: u32)
    ensures
        r == 1,
{
    1
}

/// The planner's own accounting.
#[derive(Debug, Clone, PartialEq, Eq)]
pub struct StrategyPlanRun {
    pub session_id: Option<String>,
    pub num_turns: Option<i64>,
    pub cost: Option<Cost>,
    /// Why the planner failed.
    pub error: Option<String>,
}

/// The document a planner leaves on a task.
#[derive(Debug, Clone, PartialEq, Eq)]
pub struct StrategyPlan {
    pub version: u32,
    pub status: StrategyPlanStatus,
    pub model: Option<String>,
    pub effort: Option<String>,
    pub workflow: Option<StrategyWorkflow>,
    pub phases: Vec<StrategyPhase>,
    pub rationale: Option<String>,
    pub run: Option<StrategyPlanRun>,
}

/// The version a document that names none is read as.
pub fn current_version() -> (r: u32)
    ensures
        r == STRATEGY_PLAN_VERSION,
{
    STRATEGY_PLAN_VERSION
}

/// A tool call's debris starts at `i` of a text.
pub open spec fn debris_at(s: Seq<char>, i: int) -> bool {
    text::occurs_at(s, "<parameter"@, i) || text::occurs_at(s, "</"@, i)
}

/// `i` is where a tool call's debris first starts.
pub open spec fn first_debris(s: Seq<char>, i: int) -> bool {
    debris_at(s, i) && forall|j: int| 0 <= j < i ==> !debris_at(s, j)
}

/// `s` without a tool call's debris and the white space before it; a text
/// without any is left as it is.
pub open spec fn sanitized(s: Seq<char>) -> Seq<char> {
    if exists|i: int| first_debris(s, i) {
        text::trim_end(s.take(choose|i: int| first_debris(s, i)))
    } else {
        s
    }
}

/// Cuts a rationale off at the first sign of a tool call's debris.
pub fn sanitize_rationale(s: &str) -> (r: String)
    ensures
        r@ == sanitized(s@),
{
    let opening = find(s, "<parameter");
    let closing = find(s, "</");
    let cut = match (opening, closing) {
        (Some(a), Some(b)) => if a < b {
            Some(a)
        } else {
            Some(b)
        },
        (Some(a), None) => Some(a),
        (None, found) => found,
    };
    match cut {
        Some(at) => {
            proof {
                reveal_strlit("<parameter");
                reveal_strlit("</");
                assert(first_debris(s@, at as int));
                let chosen = choose|i: int| first_debris(s@, i);
                if chosen < at {
                    assert(!debris_at(s@, chosen));
                }
                if at < chosen {
                    assert(!debris_at(s@, at as int));
                }
                assert(s@.subrange(0, at as int) =~= s@.take(at as int));
            }
            without_trailing_space(s.substring_char(0, at)).to_owned()
        },
        None => {
            assert forall|i: int| !first_debris(s@, i) by {
                assert(!text::occurs_at(s@, "<parameter"@, i));
                assert(!text::occurs_at(s@, "</"@, i));
            }
            s.to_owned()
        },
    }
}

proof fn lemma_trim_end_is_a_prefix(s: Seq<char>)
    ensures
        text::trim_end(s).len() <= s.len(),
        text::trim_end(s) == s.take(text::trim_end(s).len() as int),
    decreases s.len(),
{
    if s.len() > 0 && text::white_space(s.last()) {
        lemma_trim_end_is_a_prefix(s.drop_last());
        let n = text::trim_end(s).len() as int;
        assert(s.drop_last().take(n) =~= s.take(n));
    } else {
        assert(s.take(s.len() as int) =~= s);
    }
}

proof fn lemma_first_debris_exists(s: Seq<char>, i: int)
    requires
        debris_at(s, i),
    ensures
        exists|j: int| first_debris(s, j),
    decreases i,
{
    if !first_debris(s, i) {
        let j = choose|j: int| 0 <= j < i && debris_at(s, j);
        lemma_first_debris_exists(s, j);
    }
}

/// What is left holds no debris, so cutting it again changes nothing.
pub proof fn law_sanitizing_settles(s: Seq<char>)
    ensures
        forall|i: int| !debris_at(sanitized(s), i),
        sanitized(sanitized(s)) == sanitized(s),
{
    let left = sanitized(s);
    assert forall|i: int| !debris_at(left, i) by {
        if debris_at(left, i) {
            if exists|k: int| first_debris(s, k) {
                let at = choose|k: int| first_debris(s, k);
                reveal_strlit("<parameter");
                reveal_strlit("</");
                lemma_trim_end_is_a_prefix(s.take(at));
                assert(left =~= s.take(left.len() as int));
                if text::occurs_at(left, "<parameter"@, i) {
                    assert(s.subrange(i, i + "<parameter"@.len()) =~= left.subrange(
                        i,
                        i + "<parameter"@.len(),
                    ));
                } else {
                    assert(s.subrange(i, i + "</"@.len()) =~= left.subrange(i, i + "</"@.len()));
                }
                assert(debris_at(s, i));
                assert(i < at);
            } else {
                lemma_first_debris_exists(s, i);
            }
        }
    }
    assert(!exists|i: int| first_debris(left, i));
}

/// The workflow a proposal means: phases with no workflow are a fan-out.
pub open spec fn meant_workflow(
    workflow: Option<StrategyWorkflow>,
    phases: Seq<StrategyPhase>,
) -> Option<StrategyWorkflow> {
    if workflow is None && phases.len() > 0 {
        Some(StrategyWorkflow::MultiAgent)
    } else {
        workflow
    }
}

/// `r` is `plan` with the workflow it means and without debris in its
/// rationale.
pub open spec fn repaired(r: StrategyPlan, plan: StrategyPlan) -> bool {
    &&& r == (StrategyPlan { workflow: r.workflow, rationale: r.rationale, ..plan })
    &&& r.workflow == meant_workflow(plan.workflow, plan.phases@)
    &&& match plan.rationale {
        Some(rationale) => r.rationale matches Some(kept) && kept@ == sanitized(rationale@),
        None => r.rationale is None,
    }
}

/// `r` is the document that is stored for `plan`: `plan` repaired, with this
/// build's version.
pub open spec fn storable(r: StrategyPlan, plan: StrategyPlan) -> bool {
    &&& r.version == STRATEGY_PLAN_VERSION
    &&& repaired(StrategyPlan { version: plan.version, ..r }, plan)
}

impl StrategyPlan {
    /// A proposal, before anything is known of the run that produced it.
    pub fn proposed(model: Option<String>, effort: Option<String>) -> (r: StrategyPlan)
        ensures
            r.version == STRATEGY_PLAN_VERSION,
            r.status == StrategyPlanStatus::Proposed,
            r.model == model,
            r.effort == effort,
            r.workflow is None,
            r.phases@.len() == 0,
            r.rationale is None,
            r.run is None,
    {
        StrategyPlan {
            version: STRATEGY_PLAN_VERSION,
            status: StrategyPlanStatus::Proposed,
            model,
            effort,
            workflow: None,
            phases: Vec::new(),
            rationale: None,
            run: None,
        }
    }

    /// A failure, with the sentence a reader sees. It names no model and no
    /// effort.
    pub fn failed(error: String) -> (r: StrategyPlan)
        ensures
            r.version == STRATEGY_PLAN_VERSION,
            r.status == StrategyPlanStatus::Failed,
            r.model is None,
            r.effort is None,
            r.workflow is None,
            r.phases@.len() == 0,
            r.rationale is None,
            r.run == Some(
                StrategyPlanRun {
                    session_id: None,
                    num_turns: None,
                    cost: None,
                    error: Some(error),
                },
            ),
    {
        StrategyPlan {
            version: STRATEGY_PLAN_VERSION,
            status: StrategyPlanStatus::Failed,
            model: None,
            effort: None,
            workflow: None,
            phases: Vec::new(),
            rationale: None,
            run: Some(
                StrategyPlanRun {
                    session_id: None,
                    num_turns: None,
                    cost: None,
                    error: Some(error),
                },
            ),
        }
    }

    /// Repairs a proposal that was serialized badly.
    pub fn repaired(self) -> (r: StrategyPlan)
        ensures
            repaired(r, self),
    {
        let workflow = if self.workflow.is_none() && self.phases.len() > 0 {
            Some(StrategyWorkflow::MultiAgent)
        } else {
            self.workflow
        };
        let rationale = match self.rationale {
            Some(ref rationale) => Some(sanitize_rationale(rationale.as_str())),
            None => None,
        };
        StrategyPlan {
            version: self.version,
            status: self.status,
            model: self.model,
            effort: self.effort,
            workflow,
            phases: self.phases,
            rationale,
            run: self.run,
        }
    }

    /// The document that is stored for a proposal: repaired, and with this
    /// build's version, whatever the caller had in the field.
    pub fn for_storage(self) -> (r: StrategyPlan)
        ensures
            storable(r, self),
    {
        self.repaired().stamped()
    }

    /// The document as it is stored: this build's version, whatever the caller
    /// had in the field.
    pub fn stamped(self) -> (r: StrategyPlan)
        ensures
            r == (StrategyPlan { version: STRATEGY_PLAN_VERSION, ..self }),
    {
        StrategyPlan {
            version: STRATEGY_PLAN_VERSION,
            status: self.status,
            model: self.model,
            effort: self.effort,
            workflow: self.workflow,
            phases: self.phases,
            rationale: self.rationale,
            run: self.run,
        }
    }
}

/// Repairing twice is repairing once, up to the rationale's own text.
pub proof fn law_repairing_settles(plan: StrategyPlan, once: StrategyPlan, twice: StrategyPlan)
    requires
        repaired(once, plan),
        repaired(twice, once),
    ensures
        twice.workflow == once.workflow,
        match once.rationale {
            Some(kept) => twice.rationale matches Some(again) && again@ == kept@,
            None => twice.rationale is None,
        },
        twice == (StrategyPlan { rationale: twice.rationale, ..once }),
{
    if let Some(rationale) = plan.rationale {
        law_sanitizing_settles(rationale@);
    }
}

/// What is stored for a proposal is the repaired proposal under this build's
/// version, with its status and phases as they were; and recording it makes the
/// task run with the very model and effort that were proposed.
pub proof fn law_storing_a_proposal_keeps_what_it_runs_with(
    plan: StrategyPlan,
    document: StrategyPlan,
    task: Task,
    stored: String,
    source: StrategySource,
    now: Instant,
)
    requires
        storable(document, plan),
    ensures
        document.status == plan.status,
        document.phases == plan.phases,
        recorded(task, document, stored, source, now) == recorded(task, plan, stored, source, now),
        exists|mid: StrategyPlan| #[trigger]
            repaired(mid, plan) && document == (StrategyPlan {
                version: STRATEGY_PLAN_VERSION,
                ..mid
            }),
{
    let mid = StrategyPlan { version: plan.version, ..document };
    assert(repaired(mid, plan));
}

/// The task's next run has to be preceded by a planner run.
pub open spec fn wants_planning(task: Task, mode: StrategyMode) -> bool {
    mode == StrategyMode::Planned && task.strategy_plan is None
}

/// Whether a task's next run has to be preceded by a planner run. `mode` is the
/// resolved mode.
pub fn needs_planning(task: &Task, mode: StrategyMode) -> (r: bool)
    ensures
        r == wants_planning(*task, mode),
{
    mode == StrategyMode::Planned && task.strategy_plan.is_none()
}

/// The word for a mode.
pub open spec fn word(mode: StrategyMode) -> Seq<char> {
    match mode {
        StrategyMode::Default => "default"@,
        StrategyMode::Manual => "manual"@,
        StrategyMode::Planned => "planned"@,
    }
}

/// The word for a mode, as it is stored.
pub fn mode_word(mode: StrategyMode) -> (r: &'static str)
    ensures
        r@ == word(mode),
{
    match mode {
        StrategyMode::Default => "default",
        StrategyMode::Manual => "manual",
        StrategyMode::Planned => "planned",
    }
}

/// The refusal of a planner's strategy for a task whose strategy is the user's.
pub open spec fn planner_refused(title: Seq<char>, mode: StrategyMode) -> Seq<char> {
    "cannot record a planner's strategy for \""@ + title + "\": it is in "@ + word(mode)
        + " mode, so its strategy is the user's"@
}

/// The row after a strategy was recorded on it.
pub open spec fn recorded(
    task: Task,
    plan: StrategyPlan,
    stored: String,
    source: StrategySource,
    now: Instant,
) -> Task {
    Task {
        strategy_plan: Some(stored),
        strategy_source: Some(source),
        strategy_updated_at: Some(now),
        model: plan.model,
        effort: plan.effort,
        updated_at: now,
        ..task
    }
}

/// Records a strategy on a task: the row to write, or why it is refused.
///
/// `row` is the task `task_id` names, if there is one; `plan` is the document
/// from [`StrategyPlan::for_storage`] and `stored` its text. A planner may write only where the
/// resolved mode says that a planner decides; a user may write anywhere. The
/// task's own mode is never written.
pub fn set_task_strategy(
    task_id: &str,
    row: Option<Task>,
    repository_default: &StrategyDefaults,
    global_default: &StrategyDefaults,
    plan: StrategyPlan,
    stored: String,
    source: StrategySource,
    now: Instant,
) -> (r: Result<Task, Error>)
    ensures
        match row {
            None => r matches Err(e) && e.says(ErrorCode::NotFound, error::no_task(task_id@)),
            Some(task) => {
                let mode = resolve::effective(task, *repository_default, *global_default).mode;
                if source == StrategySource::Planner && mode != StrategyMode::Planned {
                    r matches Err(e) && e.says(
                        ErrorCode::Invalid,
                        planner_refused(task.title@, mode),
                    )
                } else {
                    r == Ok::<Task, Error>(recorded(task, plan, stored, source, now))
                }
            },
        },
{
    let task = match row {
        Some(task) => task,
        None => return Err(missing_task(task_id)),
    };
    if source == StrategySource::Planner {
        let mode = effective_strategy(&task, repository_default, global_default).mode;
        if mode != StrategyMode::Planned {
            let mut message = "cannot record a planner's strategy for \"".to_owned();
            message.append(task.title.as_str());
            message.append("\": it is in ");
            message.append(mode_word(mode));
            message.append(" mode, so its strategy is the user's");
            return Err(Error::invalid(message));
        }
    }
    let mut written = task;
    written.strategy_plan = Some(stored);
    written.strategy_source = Some(source);
    written.strategy_updated_at = Some(now);
    written.model = plan.model;
    written.effort = plan.effort;
    written.updated_at = now;
    Ok(written)
}

/// Takes authorship of a recorded proposal: the row to write, or why there is
/// nothing to accept.
pub fn accept_task_strategy(task_id: &str, row: Option<Task>, now: Instant) -> (r: Result<
    Task,
    Error,
>)
    ensures
        match row {
            None => r matches Err(e) && e.says(ErrorCode::NotFound, error::no_task(task_id@)),
            Some(task) => if task.strategy_plan is None {
                r matches Err(e) && e.says(
                    ErrorCode::Invalid,
                    "there is no proposal to accept on \""@ + task.title@ + "\""@,
                )
            } else {
                r == Ok::<Task, Error>(
                    Task {
                        strategy_source: Some(StrategySource::User),
                        strategy_updated_at: Some(now),
                        updated_at: now,
                        ..task
                    },
                )
            },
        },
{
    let task = match row {
        Some(task) => task,
        None => return Err(missing_task(task_id)),
    };
    if task.strategy_plan.is_none() {
        let mut message = "there is no proposal to accept on \"".to_owned();
        message.append(task.title.as_str());
        message.append("\"");
        return Err(Error::invalid(message));
    }
    let mut written = task;
    written.strategy_source = Some(StrategySource::User);
    written.strategy_updated_at = Some(now);
    written.updated_at = now;
    Ok(written)
}

/// The row after its recorded proposal was forgotten.
pub open spec fn forgotten(task: Task, now: Instant) -> Task {
    Task {
        strategy_plan: None,
        strategy_source: None,
        strategy_updated_at: Some(now),
        updated_at: now,
        ..task
    }
}

/// Forgets the recorded proposal. What the task runs with stays until the next
/// planner writes.
pub fn clear_task_strategy(task_id: &str, row: Option<Task>, now: Instant) -> (r: Result<
    Task,
    Error,
>)
    ensures
        match row {
            None => r matches Err(e) && e.says(ErrorCode::NotFound, error::no_task(task_id@)),
            Some(task) => r == Ok::<Task, Error>(forgotten(task, now)),
        },
{
    let mut written = match row {
        Some(task) => task,
        None => return Err(missing_task(task_id)),
    };
    written.strategy_plan = None;
    written.strategy_source = None;
    written.strategy_updated_at = Some(now);
    written.updated_at = now;
    Ok(written)
}

/// Any recorded strategy, a failed one too, stops the task being planned again,
/// whatever the mode; forgetting it makes a planned task planned again.
pub proof fn law_only_forgetting_lifts_the_planning_guard(
    task: Task,
    plan: StrategyPlan,
    stored: String,
    source: StrategySource,
    now: Instant,
    later: Instant,
    mode: StrategyMode,
)
    ensures
        !wants_planning(recorded(task, plan, stored, source, now), mode),
        wants_planning(
            forgotten(recorded(task, plan, stored, source, now), later),
            StrategyMode::Planned,
        ),
{
}

/// Recording a failure leaves the task with no model and no effort of its own,
/// so it runs with what the defaults say; and it leaves the mode alone.
pub proof fn law_a_recorded_failure_falls_back_to_the_defaults(
    task: Task,
    failure: StrategyPlan,
    stored: String,
    now: Instant,
    repository: StrategyDefaults,
    global: StrategyDefaults,
)
    requires
        failure.model is None && failure.effort is None,
    ensures
        ({
            let written = recorded(task, failure, stored, StrategySource::Planner, now);
            let e = resolve::effective(written, repository, global);
            &&& written.strategy_mode == task.strategy_mode
            &&& e.model == resolve::stated(None, repository.model, global.model).0
            &&& e.effort == resolve::stated(None, repository.effort, global.effort).0
        }),
{
}

proof fn lemma_trim_end_cuts_only_space(s: Seq<char>)
    ensures
        text::trim_end(s).len() <= s.len(),
        forall|j: int|
            text::trim_end(s).len() <= j < s.len() ==> text::white_space(#[trigger] s[j]),
        text::trim_end(s).len() > 0 ==> !text::white_space(text::trim_end(s).last()),
    decreases s.len(),
{
    if s.len() > 0 && text::white_space(s.last()) {
        lemma_trim_end_cuts_only_space(s.drop_last());
        assert forall|j: int| text::trim_end(s).len() <= j < s.len() implies text::white_space(
            #[trigger] s[j],
        ) by {
            if j < s.len() - 1 {
                assert(s.drop_last()[j] == s[j]);
            }
        }
    }
}

/// A rationale is cut where a tool call's debris first starts: what is kept is
/// what stood before it, without the white space it ended in.
pub proof fn law_a_rationale_is_cut_at_the_first_debris(s: &str, r: String, i: int)
    requires
        call_ensures(sanitize_rationale, (s,), r),
        text::occurs_at(s@, "<parameter"@, i) || text::occurs_at(s@, "</"@, i),
        forall|j: int|
            0 <= j < i ==> !(#[trigger] text::occurs_at(s@, "<parameter"@, j)) && !text::occurs_at(
                s@,
                "</"@,
                j,
            ),
    ensures
        r@.len() <= i,
        r@ == s@.take(r@.len() as int),
        forall|j: int| r@.len() <= j < i ==> text::white_space(#[trigger] s@[j]),
        r@.len() > 0 ==> !text::white_space(r@.last()),
{
    assert forall|j: int| 0 <= j < i implies !debris_at(s@, j) by {
        assert(!text::occurs_at(s@, "<parameter"@, j));
    }
    assert(debris_at(s@, i));
    assert(first_debris(s@, i));
    let at = choose|k: int| first_debris(s@, k);
    assert(at == i) by {
        if at < i {
            assert(!debris_at(s@, at));
        }
        if i < at {
            assert(!debris_at(s@, i));
        }
    }
    let kept = s@.take(i);
    assert(r@ == text::trim_end(kept));
    lemma_trim_end_is_a_prefix(kept);
    lemma_trim_end_cuts_only_space(kept);
    assert(kept.take(r@.len() as int) =~= s@.take(r@.len() as int));
    assert forall|j: int| r@.len() <= j < i implies text::white_space(#[trigger] s@[j]) by {
        assert(kept[j] == s@[j]);
    }
}

/// A rationale without a tool call's debris is kept as it is.
pub proof fn law_a_clean_rationale_is_kept(s: &str, r: String)
    requires
        call_ensures(sanitize_rationale, (s,), r),
        forall|j: int|
            !(#[trigger] text::occurs_at(s@, "<parameter"@, j)) && !text::occurs_at(s@, "</"@, j),
    ensures
        r@ == s@,
{
    assert forall|j: int| !first_debris(s@, j) by {
        assert(!text::occurs_at(s@, "<parameter"@, j));
    }
}

/// What is stored for a proposal is the proposal under this build's version: all
/// of it as it was, but that phases without a workflow are a fan-out, and that
/// its rationale is cut.
pub proof fn law_a_proposal_is_stored_as_it_was_meant(plan: StrategyPlan, r: StrategyPlan)
    requires
        call_ensures(StrategyPlan::for_storage, (plan,), r),
    ensures
        r.version == STRATEGY_PLAN_VERSION,
        r.status == plan.status,
        r.model == plan.model,
        r.effort == plan.effort,
        r.phases == plan.phases,
        r.run == plan.run,
        plan.workflow is Some ==> r.workflow == plan.workflow,
        plan.workflow is None && plan.phases@.len() > 0 ==> r.workflow == Some(
            StrategyWorkflow::MultiAgent,
        ),
        plan.workflow is None && plan.phases@.len() == 0 ==> r.workflow is None,
        r.rationale is Some <==> plan.rationale is Some,
        r.rationale matches Some(kept) ==> kept@.len() <= plan.rationale->0@.len(),
        plan.rationale matches Some(said) ==> ((forall|j: int|
            !(#[trigger] text::occurs_at(said@, "<parameter"@, j)) && !text::occurs_at(
                said@,
                "</"@,
                j,
            )) ==> r.rationale->0@ == said@),
{
    if let Some(said) = plan.rationale {
        if forall|j: int|
            !(#[trigger] text::occurs_at(said@, "<parameter"@, j)) && !text::occurs_at(
                said@,
                "</"@,
                j,
            ) {
            assert forall|j: int| !first_debris(said@, j) by {
                assert(!text::occurs_at(said@, "<parameter"@, j));
            }
        }
        if exists|i: int| first_debris(said@, i) {
            let at = choose|i: int| first_debris(said@, i);
            lemma_trim_end_is_a_prefix(said@.take(at));
        }
    }
}

/// Recording a strategy makes the task run with the model and the effort that
/// were proposed, keeps the document, who wrote it and when, and touches nothing
/// else of the task, its mode least of all. A planner is let through only where
/// the resolved mode says that a planner decides; a user always is.
pub proof fn law_a_recorded_strategy_is_what_the_task_runs_with(
    task_id: &str,
    row: Option<Task>,
    repository: StrategyDefaults,
    global: StrategyDefaults,
    plan: StrategyPlan,
    stored: String,
    source: StrategySource,
    now: Instant,
    r: Result<Task, Error>,
    effective: resolve::EffectiveStrategy,
)
    requires
        call_ensures(
            set_task_strategy,
            (task_id, row, &repository, &global, plan, stored, source, now),
            r,
        ),
        row matches Some(task) ==> call_ensures(
            effective_strategy,
            (&task, &repository, &global),
            effective,
        ),
    ensures
        row is None ==> (r matches Err(e) && e.code == ErrorCode::NotFound),
        row matches Some(task) ==> {
            &&& r is Ok <==> source == StrategySource::User || effective.mode
                == StrategyMode::Planned
            &&& r matches Err(e) ==> e.code == ErrorCode::Invalid
            &&& r matches Ok(written) ==> {
                &&& written.model == plan.model
                &&& written.effort == plan.effort
                &&& written.strategy_plan == Some(stored)
                &&& written.strategy_source == Some(source)
                &&& written.strategy_updated_at == Some(now)
                &&& written.updated_at == now
                &&& task == (Task {
                    model: task.model,
                    effort: task.effort,
                    strategy_plan: task.strategy_plan,
                    strategy_source: task.strategy_source,
                    strategy_updated_at: task.strategy_updated_at,
                    updated_at: task.updated_at,
                    ..written
                })
            }
        },
{
}

/// Accepting a proposal makes it the user's, and forgetting one takes it away:
/// both stamp the task, and neither changes what it runs with. There is nothing
/// to accept where nothing was proposed.
pub proof fn law_accepting_and_forgetting_leave_what_runs(
    task_id: &str,
    task: Task,
    now: Instant,
    accepted: Result<Task, Error>,
    cleared: Result<Task, Error>,
)
    requires
        call_ensures(accept_task_strategy, (task_id, Some(task), now), accepted),
        call_ensures(clear_task_strategy, (task_id, Some(task), now), cleared),
    ensures
        accepted is Ok <==> task.strategy_plan is Some,
        accepted matches Ok(written) ==> {
            &&& written.strategy_source == Some(StrategySource::User)
            &&& written.strategy_updated_at == Some(now) && written.updated_at == now
            &&& task == (Task {
                strategy_source: task.strategy_source,
                strategy_updated_at: task.strategy_updated_at,
                updated_at: task.updated_at,
                ..written
            })
        },
        cleared matches Ok(written) && {
            &&& written.strategy_plan is None && written.strategy_source is None
            &&& written.strategy_updated_at == Some(now) && written.updated_at == now
            &&& task == (Task {
                strategy_plan: task.strategy_plan,
                strategy_source: task.strategy_source,
                strategy_updated_at: task.strategy_updated_at,
                updated_at: task.updated_at,
                ..written
            })
        },
{
}

/// A task's run is preceded by a planner's exactly where a planner decides and
/// no document was left yet.
pub proof fn law_a_task_is_planned_once(task: Task, mode: StrategyMode, r: bool)
    requires
        call_ensures(needs_planning, (&task, mode), r),
    ensures
        r <==> mode == StrategyMode::Planned && task.strategy_plan is None,
{
}

} // verus!
