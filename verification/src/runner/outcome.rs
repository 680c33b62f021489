//! What is recorded of a run that ended.

use vstd::prelude::*;

use crate::db::{Cost, ExitClass, RunStatus};
use crate::instant::Instant;
use crate::runner::events::TokenUsage;

verus! {

/// What a run was started as.
#[derive(Debug, Clone, PartialEq, Eq)]
pub struct SpawnedAs {
    pub model: Option<String>,
    pub effort: Option<String>,
    pub run_environment: Option<String>,
}

/// How a run ended, and what is known of it.
#[derive(Debug, Clone, PartialEq, Eq)]
pub struct RunOutcome {
    pub exit_class: ExitClass,
    pub status: RunStatus,
    pub error_message: Option<String>,
    pub num_turns: Option<i64>,
    pub cost: Option<Cost>,
    pub duration_ms: Option<i64>,
    pub pr_url: Option<String>,
    pub usage_limit_resets_at: Option<Instant>,
    pub resume_after: Option<Instant>,
    pub spawned_as: SpawnedAs,
    pub usage: TokenUsage,
}

} // verus!
