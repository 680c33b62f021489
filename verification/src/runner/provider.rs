//! What tells one agent's command line from another's.

use vstd::prelude::*;

verus! {

/// Whose agent it is.
#[derive(Debug, Clone, Copy, PartialEq, Eq, Hash, Structural)]
pub enum ProviderId {
    ClaudeCode,
    Ledger,
}

/// A version: major, minor, patch.
#[derive(Debug, Clone, Copy, PartialEq, Eq, Structural)]
pub struct Version {
    pub major: u32,
    pub minor: u32,
    pub patch: u32,
}

/// What a run may do without asking.
#[derive(Debug, Clone, Copy, PartialEq, Eq, Structural)]
pub enum PermissionMode {
    BypassPermissions,
    AcceptEdits,
}

/// How a conversation is continued.
#[derive(Debug, Clone, Copy, PartialEq, Eq, Structural)]
pub enum ResumeStyle {
    /// The last one in the agent's home.
    LastInHome,
    Unsupported,
}

/// Who names a session.
#[derive(Debug, Clone, Copy, PartialEq, Eq, Structural)]
pub enum SessionCapability {
    /// The agent does, and announces it.
    SelfMinted { resume: ResumeStyle },
}

/// How the orchestrator's facts reach the agent.
#[derive(Debug, Clone, Copy, PartialEq, Eq, Structural)]
pub enum OrchestratorChannel {
    HandedFile { inside_workspace: bool },
}

/// How the handle back to the orchestrator reaches the agent.
#[derive(Debug, Clone, PartialEq, Eq)]
pub enum HandleInjection {
    /// By a home that is taken over, which this variable names.
    ConfigHome { env: String },
}

/// Whether a run can be kept from the operator's own configuration.
#[derive(Debug, Clone, Copy, PartialEq, Eq, Structural)]
pub enum IsolationSupport {
    InheritExceptWhenHandleInjected,
}

/// Who stops a run that takes too many turns.
#[derive(Debug, Clone, PartialEq, Eq)]
pub enum TurnBudget {
    ProviderEnforced { flag: String },
}

/// Whether an agent says what it was allowed.
#[derive(Debug, Clone, Copy, PartialEq, Eq, Structural)]
pub enum PostureEcho {
    Silent,
}

/// What an agent can do.
#[derive(Debug, Clone, PartialEq, Eq)]
pub struct Capabilities {
    pub id: ProviderId,
    pub session: SessionCapability,
    pub orchestrator_channel: OrchestratorChannel,
    pub handle_injection: HandleInjection,
    pub isolation: IsolationSupport,
    pub turn_budget: TurnBudget,
    pub posture_echo: PostureEcho,
    /// The tool denials the agent can be held to.
    pub enforceable: Vec<String>,
    /// How the variables start that say which agent is running.
    pub identity_prefixes: Vec<String>,
}

/// The conversation a run belongs to.
#[derive(Debug, Clone, PartialEq, Eq)]
pub struct SessionIntent {
    /// Whether it goes on with one that was begun before.
    pub continuation: bool,
    /// The directory the agent keeps it in.
    pub home: String,
}

/// A handle back to the orchestrator.
#[derive(Debug, Clone, PartialEq, Eq)]
pub struct RunHandle {
    pub server: String,
    pub url: String,
}

/// What a run is to be, whoever's agent runs it.
#[derive(Debug, Clone, PartialEq, Eq)]
pub struct RunIntent {
    pub session: SessionIntent,
    pub permission_mode: PermissionMode,
    pub prompt: String,
    /// The orchestrator's facts.
    pub system_append: String,
    pub model: Option<String>,
    pub effort: Option<String>,
    pub max_turns: Option<u32>,
    pub rimaia_handle: Option<RunHandle>,
    pub required_tools: Vec<String>,
}

/// How a process is started.
#[derive(Debug, Clone, PartialEq, Eq)]
pub struct SpawnPlan {
    pub args: Vec<String>,
    pub env_set: Vec<(String, String)>,
    pub env_remove: Vec<String>,
    pub stdin: String,
}

/// What a probe printed.
#[derive(Debug, Clone, PartialEq, Eq)]
pub struct ProbeOutput {
    pub stdout: String,
}

/// What a version probe said.
#[derive(Debug, Clone, PartialEq, Eq)]
pub struct VersionReport {
    pub parsed: Option<Version>,
    pub raw: String,
}

/// Whether an agent is signed in.
#[derive(Debug, Clone, PartialEq, Eq)]
pub enum AuthState {
    Undetermined { detail: String },
}

} // verus!
