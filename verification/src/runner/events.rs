//! What a run reports while it is alive, whoever's agent it runs.

use vstd::prelude::*;

use crate::json::Json;

verus! {

/// How many tokens a run spent, as far as it said.
#[derive(Debug, Clone, Copy, PartialEq, Eq, Structural)]
pub struct TokenUsage {
    pub input_tokens: Option<i64>,
    pub output_tokens: Option<i64>,
    pub cache_read_tokens: Option<i64>,
    pub cache_creation_tokens: Option<i64>,
}

/// A run announced itself.
#[derive(Debug, Clone, PartialEq, Eq)]
pub struct InitEvent {
    pub session_id: Option<String>,
    pub cwd: Option<String>,
    pub model: Option<String>,
    pub permission_mode: Option<String>,
    pub api_key_source: Option<String>,
    pub agent_version: Option<String>,
    pub tools: Vec<String>,
    pub mcp_servers: Vec<String>,
}

/// One piece of a message.
#[derive(Debug, PartialEq, Eq)]
pub enum ContentBlock {
    Text(String),
    ToolUse { id: String, name: String, input: Json },
    ToolResult { tool_use_id: String, is_error: bool },
    Other(Json),
}

/// The agent said or did something.
#[derive(Debug, PartialEq, Eq)]
pub struct AssistantEvent {
    pub session_id: Option<String>,
    pub message_id: Option<String>,
    pub content: Vec<ContentBlock>,
}

/// Something came back to the agent.
#[derive(Debug, PartialEq, Eq)]
pub struct UserEvent {
    pub session_id: Option<String>,
    pub content: Vec<ContentBlock>,
}

/// Whether a usage window lets work through.
#[derive(Debug, Clone, Copy, PartialEq, Eq, Structural)]
pub enum UsageState {
    Allowed,
    Exhausted,
    Unknown,
}

/// When a usage window reopens.
#[derive(Debug, Clone, Copy, PartialEq, Eq, Structural)]
pub enum WindowReopen {
    /// So many seconds after the line that says so was read.
    After(i64),
}

/// What a run says of its usage window.
#[derive(Debug, Clone, PartialEq, Eq)]
pub struct UsageWindow {
    pub state: UsageState,
    pub reopens: Option<WindowReopen>,
    pub label: Option<String>,
    /// How much of the window is used, as the number that was written.
    pub used_percent: Option<String>,
}

/// Why a run ended.
#[derive(Debug, Clone, PartialEq, Eq)]
pub enum EndReason {
    Completed,
    Interrupted,
    TurnBudgetExhausted,
    Refused,
    Errored { detail: Option<String> },
    Unknown,
}

/// A run ended.
#[derive(Debug, Clone, PartialEq, Eq)]
pub struct ResultEvent {
    pub end: EndReason,
    pub num_turns: Option<i64>,
    /// What the run cost, as the number that was written.
    pub total_cost: Option<String>,
    pub duration_ms: Option<i64>,
    pub session_id: Option<String>,
    pub stop_reason: Option<String>,
    pub result: Option<String>,
    pub errors: Vec<String>,
    pub permission_denials: Vec<String>,
    pub usage: TokenUsage,
    pub usage_window: Option<UsageWindow>,
}

/// A run reported something that has no meaning here.
#[derive(Debug, PartialEq, Eq)]
pub struct OtherEvent {
    pub event_type: String,
    pub subtype: Option<String>,
    pub raw: Json,
}

/// One line of what a run reports.
#[derive(Debug, PartialEq, Eq)]
pub enum RunEvent {
    Init(InitEvent),
    Assistant(AssistantEvent),
    User(UserEvent),
    Usage(UsageWindow),
    Result(ResultEvent),
    Other(OtherEvent),
}

} // verus!
