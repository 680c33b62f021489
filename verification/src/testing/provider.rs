//! Ledger: an agent that does not exist, and differs from a real one in every
//! way that a provider may differ.

use vstd::prelude::*;
use vstd::string::*;

use crate::db::Cost;
use crate::json;
use crate::json::{parse, Document, Json, NotJson};
use crate::path;
use crate::path::beneath;
use crate::runner::events::{
    AssistantEvent, ContentBlock, EndReason, InitEvent, OtherEvent, ResultEvent, RunEvent,
    TokenUsage, UsageState, UsageWindow, UserEvent, WindowReopen,
};
use crate::runner::provider::{
    AuthState, Capabilities, HandleInjection, IsolationSupport, OrchestratorChannel,
    PermissionMode, PostureEcho, ProbeOutput, ProviderId, ResumeStyle, RunHandle, RunIntent,
    SessionCapability, SpawnPlan, TurnBudget, Version, VersionReport,
};
use crate::strategy::catalogue;
use crate::strategy::catalogue::{Catalogue, CatalogueEntry, PlannerBudget};
use crate::text;
use crate::text::{decimal_text, join, same, trim};

verus! {

/// What an operator would type.
pub const LEDGER_CLI: &'static str = "ledger";

/// The name a sentence would use.
pub const DISPLAY_NAME: &'static str = "Ledger";

/// The variable that names the agent's home.
pub const LEDGER_HOME: &'static str = "LEDGER_HOME";

/// Set where the home was not taken over.
pub const LEDGER_INHERIT: &'static str = "LEDGER_INHERIT";

/// The handle, as a file in the home.
pub const TOOLS_FILE: &'static str = "tools.toml";

/// The orchestrator's facts, as a file beside the run.
pub const PREAMBLE_FILE: &'static str = "preamble.md";

/// The oldest version that will do.
pub open spec fn oldest() -> Version {
    Version { major: 0, minor: 3, patch: 0 }
}

/// The agent.
#[derive(Debug, Clone, Copy, PartialEq, Eq, Structural)]
pub struct Ledger;

/// The same agent, which cannot continue a conversation.
#[derive(Debug, Clone, Copy, PartialEq, Eq, Structural)]
pub struct LedgerWithoutResume;

impl Default for Ledger {
    fn default() -> (r: Ledger)
        ensures
            r == Ledger,
    {
        Ledger
    }
}

impl Default for LedgerWithoutResume {
    fn default() -> (r: LedgerWithoutResume)
        ensures
            r == LedgerWithoutResume,
    {
        LedgerWithoutResume
    }
}

/// The text an optional string holds.
pub open spec fn said(text: Option<String>) -> Option<Seq<char>> {
    match text {
        Some(value) => Some(value@),
        None => None,
    }
}

/// What Ledger can do, with one way to resume or another.
pub open spec fn can_do(r: Capabilities, resume: ResumeStyle) -> bool {
    &&& r.id == ProviderId::Ledger
    &&& r.session == (SessionCapability::SelfMinted { resume })
    &&& r.orchestrator_channel == (OrchestratorChannel::HandedFile { inside_workspace: false })
    &&& r.handle_injection matches HandleInjection::ConfigHome { env } && env@ == "LEDGER_HOME"@
    &&& r.isolation == IsolationSupport::InheritExceptWhenHandleInjected
    &&& r.turn_budget matches TurnBudget::ProviderEnforced { flag } && flag@ == "--step-budget"@
    &&& r.posture_echo == PostureEcho::Silent
    &&& r.enforceable@.len() == 0
    &&& text::views(r.identity_prefixes@) == seq!["LEDGER"@, "LGR_"@]
}

/// What Ledger can do, with one way to resume or another.
fn capabilities_with(resume: ResumeStyle) -> (r: Capabilities)
    ensures
        can_do(r, resume),
{
    let mut identity_prefixes: Vec<String> = Vec::new();
    identity_prefixes.push("LEDGER".to_owned());
    identity_prefixes.push("LGR_".to_owned());
    assert(text::views(identity_prefixes@) =~= seq!["LEDGER"@, "LGR_"@]);
    Capabilities {
        id: ProviderId::Ledger,
        session: SessionCapability::SelfMinted { resume },
        orchestrator_channel: OrchestratorChannel::HandedFile { inside_workspace: false },
        handle_injection: HandleInjection::ConfigHome { env: LEDGER_HOME.to_owned() },
        isolation: IsolationSupport::InheritExceptWhenHandleInjected,
        turn_budget: TurnBudget::ProviderEnforced { flag: "--step-budget".to_owned() },
        posture_echo: PostureEcho::Silent,
        enforceable: Vec::new(),
        identity_prefixes,
    }
}

/// Every table of capabilities that Ledger has.
pub fn all_capabilities() -> (r: Vec<Capabilities>)
    ensures
        r@.len() == 2,
        can_do(r@[0], ResumeStyle::LastInHome),
        can_do(r@[1], ResumeStyle::Unsupported),
{
    let mut out: Vec<Capabilities> = Vec::new();
    out.push(capabilities_with(ResumeStyle::LastInHome));
    out.push(capabilities_with(ResumeStyle::Unsupported));
    out
}

/// The plan starts a process that prints its version.
pub open spec fn asks_version(plan: SpawnPlan) -> bool {
    &&& text::views(plan.args@) == seq!["--version"@]
    &&& plan.env_set@.len() == 0
    &&& plan.env_remove@.len() == 0
    &&& plan.stdin@ == ""@
}

/// How the agent is asked for its version.
fn version_probe() -> (r: SpawnPlan)
    ensures
        asks_version(r),
{
    let mut args: Vec<String> = Vec::new();
    args.push("--version".to_owned());
    assert(text::views(args@) =~= seq!["--version"@]);
    SpawnPlan { args, env_set: Vec::new(), env_remove: Vec::new(), stdin: "".to_owned() }
}

/// The version that was printed, where `parsed` is what the trimmed text reads
/// as.
fn read_version(output: &ProbeOutput, parsed: Option<Version>) -> (r: VersionReport)
    ensures
        r.raw@ == text::trimmed(output.stdout@),
        r.parsed == parsed,
{
    VersionReport { parsed, raw: trim(output.stdout.as_str()).to_owned() }
}

/// What is known of the sign-in: nothing, whatever was printed.
fn read_auth() -> (r: AuthState)
    ensures
        r matches AuthState::Undetermined { detail } && detail@
            == "Ledger has no out-of-band sign-in check"@,
{
    AuthState::Undetermined { detail: "Ledger has no out-of-band sign-in check".to_owned() }
}

/// The agent's own name for a tool of a server.
fn tool_handle(server: &str, tool: &str) -> (r: String)
    ensures
        r@ == server@ + "."@ + tool@,
{
    let mut name = server.to_owned();
    name.append(".");
    name.append(tool);
    name
}

fn entry(id: &str, label: &str) -> (r: CatalogueEntry)
    ensures
        r.id@ == id@,
        r.label@ == label@,
{
    CatalogueEntry { id: id.to_owned(), label: label.to_owned() }
}

/// The entry offers `label` for `id`.
pub open spec fn offers(entry: CatalogueEntry, id: Seq<char>, label: Seq<char>) -> bool {
    entry.id@ == id && entry.label@ == label
}

/// The agent's own choices.
pub open spec fn ledger_catalogue(r: Catalogue) -> bool {
    &&& r.models@.len() == 2
    &&& offers(r.models@[0], "steady"@, "Steady"@)
    &&& offers(r.models@[1], "swift"@, "Swift"@)
    &&& r.efforts@.len() == 2
    &&& offers(r.efforts@[0], "careful"@, "Careful"@)
    &&& offers(r.efforts@[1], "quick"@, "Quick"@)
    &&& said(r.planner.model) == Some("steady"@)
    &&& said(r.planner.effort) == Some("careful"@)
    &&& r.planner.max_turns == catalogue::DEFAULT_PLANNER_MAX_TURNS
}

/// The agent's own choices.
fn default_catalogue() -> (r: Catalogue)
    ensures
        ledger_catalogue(r),
{
    let mut models: Vec<CatalogueEntry> = Vec::new();
    models.push(entry("steady", "Steady"));
    models.push(entry("swift", "Swift"));
    let mut efforts: Vec<CatalogueEntry> = Vec::new();
    efforts.push(entry("careful", "Careful"));
    efforts.push(entry("quick", "Quick"));
    let planner = PlannerBudget {
        model: Some("steady".to_owned()),
        effort: Some("careful".to_owned()),
        max_turns: PlannerBudget::default().max_turns,
    };
    Catalogue { models, efforts, planner }
}

/// A flag and its value, where there is a value.
pub open spec fn flag(name: Seq<char>, value: Option<Seq<char>>) -> Seq<Seq<char>> {
    match value {
        Some(value) => seq![name, value],
        None => seq![],
    }
}

/// The word for what a run may do without asking.
pub open spec fn trust(mode: PermissionMode) -> Seq<char> {
    match mode {
        PermissionMode::BypassPermissions => "full"@,
        PermissionMode::AcceptEdits => "edits-only"@,
    }
}

/// The turn budget, in decimal.
pub open spec fn budget(max_turns: Option<u32>) -> Option<Seq<char>> {
    match max_turns {
        Some(n) => Some(text::decimal(n as nat)),
        None => None,
    }
}

/// The arguments a run is started with.
pub open spec fn arguments(intent: RunIntent, scratch: Seq<char>, can_continue: bool) -> Seq<
    Seq<char>,
> {
    seq!["run"@, "--emit"@, "ndjson"@] + (if can_continue && intent.session.continuation {
        seq!["--continue"@]
    } else {
        seq![]
    }) + seq!["--trust"@, trust(intent.permission_mode)] + seq![
        "--preamble-file"@,
        path::under(scratch, "preamble.md"@),
    ] + flag("--engine"@, said(intent.model)) + flag("--diligence"@, said(intent.effort)) + flag(
        "--step-budget"@,
        budget(intent.max_turns),
    )
}

/// The environment a run is started with. A home that carries the handle is
/// taken over; one that does not still reads the operator's own configuration.
pub open spec fn environment(intent: RunIntent) -> Seq<(Seq<char>, Seq<char>)> {
    seq![("LEDGER_HOME"@, intent.session.home@)] + if intent.rimaia_handle is Some {
        seq![]
    } else {
        seq![("LEDGER_INHERIT"@, "1"@)]
    }
}

/// The variables and values of a list.
pub open spec fn assignments(env: Seq<(String, String)>) -> Seq<(Seq<char>, Seq<char>)> {
    env.map_values(|pair: (String, String)| (pair.0@, pair.1@))
}

/// Each of `tools` in quotes.
pub open spec fn quoted(tools: Seq<String>) -> Seq<Seq<char>> {
    tools.map_values(|tool: String| "\""@ + tool@ + "\""@)
}

/// What the handle's file holds.
pub open spec fn tools_text(handle: RunHandle, tools: Seq<String>) -> Seq<char> {
    "[servers."@ + handle.server@ + "]\nkind = \"http\"\nurl = \""@ + handle.url@
        + "\"\ntools = ["@ + text::joined(quoted(tools), ", "@) + "]\n"@
}

/// What the handle's file holds.
fn write_tools(handle: &RunHandle, tools: &Vec<String>) -> (r: String)
    ensures
        r@ == tools_text(*handle, tools@),
{
    let n: usize = tools.len();
    let mut names: Vec<String> = Vec::new();
    let mut i: usize = 0;
    while i < n
        invariant
            i <= n,
            n == tools@.len(),
            text::views(names@) == quoted(tools@.take(i as int)),
        decreases n - i,
    {
        let mut name = "\"".to_owned();
        name.append(tools[i].as_str());
        name.append("\"");
        let ghost before = names@;
        let ghost wanted = quoted(tools@.take(i as int));
        names.push(name);
        proof {
            let word = "\""@ + tools@[i as int]@ + "\""@;
            assert(name@ == word);
            assert(text::views(names@) =~= text::views(before).push(word));
            assert(quoted(tools@.take(i + 1)) =~= wanted.push(word));
        }
        i += 1;
    }
    assert(tools@.take(n as int) =~= tools@);
    let mut out = "[servers.".to_owned();
    out.append(handle.server.as_str());
    out.append("]\nkind = \"http\"\nurl = \"");
    out.append(handle.url.as_str());
    out.append("\"\ntools = [");
    out.append(join(&names, ", ").as_str());
    out.append("]\n");
    out
}

fn push(args: &mut Vec<String>, word: &str)
    ensures
        text::views(final(args)@) == text::views(old(args)@).push(word@),
{
    args.push(word.to_owned());
    assert(text::views(args@) =~= text::views(old(args)@).push(word@));
}

fn push_flag(args: &mut Vec<String>, name: &str, value: &Option<String>)
    ensures
        text::views(final(args)@) == text::views(old(args)@) + flag(name@, said(*value)),
{
    if let Some(value) = value {
        push(args, name);
        push(args, value.as_str());
    }
    assert(text::views(args@) =~= text::views(old(args)@) + flag(name@, said(*value)));
}

/// How a run is started, and what is written before it is.
#[derive(Debug, Clone, PartialEq, Eq)]
pub struct LedgerSpawn {
    pub plan: SpawnPlan,
    /// Where the orchestrator's facts are written, and what they are.
    pub preamble_path: String,
    pub preamble: String,
    /// The home, which is made first.
    pub home: String,
    /// What the handle's file in the home is given, where there is a handle.
    pub tools: Option<String>,
}

/// `spawn` is how `intent` is started beside the directory `scratch`.
pub open spec fn starts(
    spawn: LedgerSpawn,
    intent: RunIntent,
    scratch: Seq<char>,
    can_continue: bool,
) -> bool {
    &&& text::views(spawn.plan.args@) == arguments(intent, scratch, can_continue)
    &&& assignments(spawn.plan.env_set@) == environment(intent)
    &&& spawn.plan.env_remove@.len() == 0
    &&& spawn.plan.stdin == intent.prompt
    &&& spawn.preamble_path@ == path::under(scratch, "preamble.md"@)
    &&& spawn.preamble == intent.system_append
    &&& spawn.home == intent.session.home
    &&& match intent.rimaia_handle {
        Some(handle) => said(spawn.tools) == Some(tools_text(handle, intent.required_tools@)),
        None => spawn.tools is None,
    }
}

/// How a run is started: a subcommand, a file and a variable.
fn plan_spawn(intent: &RunIntent, scratch: &str, can_continue: bool) -> (r: LedgerSpawn)
    ensures
        starts(r, *intent, scratch@, can_continue),
{
    let preamble_path = beneath(scratch, PREAMBLE_FILE);
    let mut args: Vec<String> = Vec::new();
    assert(text::views(args@) =~= seq![]);
    push(&mut args, "run");
    push(&mut args, "--emit");
    push(&mut args, "ndjson");
    if can_continue && intent.session.continuation {
        push(&mut args, "--continue");
    }
    push(&mut args, "--trust");
    push(
        &mut args,
        match intent.permission_mode {
            PermissionMode::BypassPermissions => "full",
            PermissionMode::AcceptEdits => "edits-only",
        },
    );
    push(&mut args, "--preamble-file");
    push(&mut args, preamble_path.as_str());
    let ghost head = text::views(args@);
    push_flag(&mut args, "--engine", &intent.model);
    push_flag(&mut args, "--diligence", &intent.effort);
    let turns: Option<String> = match intent.max_turns {
        Some(n) => Some(decimal_text(n as u64)),
        None => None,
    };
    push_flag(&mut args, "--step-budget", &turns);
    proof {
        assert(said(turns) == budget(intent.max_turns));
        assert(head =~= seq!["run"@, "--emit"@, "ndjson"@] + (if can_continue
            && intent.session.continuation {
            seq!["--continue"@]
        } else {
            seq![]
        }) + seq!["--trust"@, trust(intent.permission_mode)] + seq![
            "--preamble-file"@,
            path::under(scratch@, "preamble.md"@),
        ]);
    }
    let mut env_set: Vec<(String, String)> = Vec::new();
    env_set.push((LEDGER_HOME.to_owned(), intent.session.home.clone()));
    let mut tools: Option<String> = None;
    match &intent.rimaia_handle {
        Some(handle) => {
            tools = Some(write_tools(handle, &intent.required_tools));
        },
        None => {
            env_set.push((LEDGER_INHERIT.to_owned(), "1".to_owned()));
        },
    }
    assert(assignments(env_set@) =~= environment(*intent));
    LedgerSpawn {
        plan: SpawnPlan {
            args,
            env_set,
            env_remove: Vec::new(),
            stdin: intent.prompt.clone(),
        },
        preamble_path,
        preamble: intent.system_append.clone(),
        home: intent.session.home.clone(),
        tools,
    }
}

/// What a line calls itself.
pub open spec fn kind_of(raw: Document) -> Seq<char> {
    match raw.text_of("kind"@) {
        Some(kind) => kind,
        None => ""@,
    }
}

/// What a line carries.
pub open spec fn body_of(raw: Document) -> Document {
    match raw.member("body"@) {
        Some(body) => body,
        None => Document::Null,
    }
}

/// What a usage window says.
pub open spec fn window_says(window: UsageWindow, body: Document) -> bool {
    &&& window.state == (match body.text_of("state"@) {
        Some(state) => if state == "open"@ {
            UsageState::Allowed
        } else if state == "closed"@ {
            UsageState::Exhausted
        } else {
            UsageState::Unknown
        },
        None => UsageState::Unknown,
    })
    &&& window.reopens == (match body.integer_of("reopens_in_s"@) {
        Some(seconds) => Some(WindowReopen::After(seconds)),
        None => None,
    })
    &&& said(window.label) == body.text_of("window"@)
    &&& said(window.used_percent) == (match body.member("used_pct"@) {
        Some(used) => used.number(),
        None => None,
    })
}

/// Why a run ended, by the word it ended with. A word that means nothing here
/// is no failure.
pub open spec fn ended_by(end: EndReason, why: Option<Seq<char>>) -> bool {
    match why {
        Some(word) => if word == "ok"@ {
            end is Completed
        } else if word == "stopped"@ {
            end is Interrupted
        } else if word == "budget"@ {
            end is TurnBudgetExhausted
        } else if word == "declined"@ {
            end is Refused
        } else if word == "window_closed"@ {
            end matches EndReason::Errored { detail } && said(detail) == Some(
                "the usage window closed mid-run"@,
            )
        } else {
            end is Unknown
        },
        None => end is Unknown,
    }
}

/// One of the run's token counts.
pub open spec fn tokens(body: Document, name: Seq<char>) -> Option<i64> {
    match body.member("tokens"@) {
        Some(counts) => counts.integer_of(name),
        None => None,
    }
}

/// What the announcement of a run says.
pub open spec fn opened(init: InitEvent, body: Document) -> bool {
    &&& said(init.session_id) == body.text_of("conversation"@)
    &&& said(init.cwd) == body.text_of("cwd"@)
    &&& said(init.model) == body.text_of("engine"@)
    &&& init.permission_mode is None
    &&& init.api_key_source is None
    &&& said(init.agent_version) == body.text_of("version"@)
    &&& init.tools@.len() == 0
    &&& init.mcp_servers@.len() == 0
}

/// What the end of a run says. It never says what the run cost.
pub open spec fn finished(end: ResultEvent, body: Document) -> bool {
    &&& ended_by(end.end, body.text_of("why"@))
    &&& end.num_turns == body.integer_of("turns"@)
    &&& end.total_cost is None
    &&& end.duration_ms == body.integer_of("ms"@)
    &&& said(end.session_id) == body.text_of("conversation"@)
    &&& said(end.stop_reason) == body.text_of("why"@)
    &&& said(end.result) == body.text_of("summary"@)
    &&& text::views(end.errors@) == (match body.member("errors"@) {
        Some(Document::Array(items)) => json::texts(items),
        _ => seq![],
    })
    &&& end.permission_denials@.len() == 0
    &&& end.usage == (TokenUsage {
        input_tokens: tokens(body, "in"@),
        output_tokens: tokens(body, "out"@),
        cache_read_tokens: tokens(body, "cached"@),
        cache_creation_tokens: None,
    })
    &&& match body.member("window"@) {
        Some(window) => end.usage_window matches Some(reported) && window_says(reported, window),
        None => end.usage_window is None,
    }
}

/// What one piece of a tool call says: the call, or the whole of it where it
/// names no call or no tool.
pub open spec fn calls(block: ContentBlock, body: Document) -> bool {
    match (body.text_of("call"@), body.text_of("tool"@)) {
        (Some(call), Some(tool)) => block matches ContentBlock::ToolUse { id, name, input } && id@
            == call && name@ == tool && input@ == (match body.member("args"@) {
            Some(args) => args,
            None => Document::Null,
        }),
        _ => block matches ContentBlock::Other(whole) && whole@ == body,
    }
}

/// What one piece of a tool's answer says: which call it answers and whether it
/// failed, or the whole of it where it names no call.
pub open spec fn answered(block: ContentBlock, body: Document) -> bool {
    match body.text_of("call"@) {
        Some(call) => block matches ContentBlock::ToolResult { tool_use_id, is_error }
            && tool_use_id@ == call && is_error == (match body.member("failed"@) {
            Some(failed) => failed.truth() == Some(true),
            None => false,
        }),
        None => block matches ContentBlock::Other(whole) && whole@ == body,
    }
}

/// What a line of the agent's stream means.
pub open spec fn tells(event: RunEvent, raw: Document) -> bool {
    let kind = kind_of(raw);
    let body = body_of(raw);
    if kind == "conversation.opened"@ {
        event matches RunEvent::Init(init) && opened(init, body)
    } else if kind == "agent.said"@ {
        event matches RunEvent::Assistant(turn) && said(turn.session_id) == body.text_of(
            "conversation"@,
        ) && said(turn.message_id) == body.text_of("turn"@) && turn.content@.len() == 1 && (
        turn.content@[0] matches ContentBlock::Text(words) && words@ == (match body.text_of(
            "text"@,
        ) {
            Some(text) => text,
            None => ""@,
        }))
    } else if kind == "agent.tool"@ {
        event matches RunEvent::Assistant(turn) && said(turn.session_id) == body.text_of(
            "conversation"@,
        ) && said(turn.message_id) == body.text_of("turn"@) && turn.content@.len() == 1 && calls(
            turn.content@[0],
            body,
        )
    } else if kind == "tool.returned"@ {
        event matches RunEvent::User(turn) && said(turn.session_id) == body.text_of(
            "conversation"@,
        ) && turn.content@.len() == 1 && answered(turn.content@[0], body)
    } else if kind == "window"@ {
        event matches RunEvent::Usage(window) && window_says(window, body)
    } else if kind == "finished"@ {
        event matches RunEvent::Result(end) && finished(end, body)
    } else {
        event matches RunEvent::Other(other) && other.event_type@ == kind && said(other.subtype)
            == body.text_of("why"@) && other.raw@ == raw
    }
}

/// The text of a member, if there is one and it is a text.
fn string(value: &Json, key: &str) -> (r: Option<String>)
    ensures
        said(r) == value@.text_of(key@),
{
    match value.get(key) {
        Some(member) => match member.as_text() {
            Some(text) => Some(text.clone()),
            None => None,
        },
        None => None,
    }
}

/// The integer of a member, if there is one and it is one.
fn integer(value: &Json, key: &str) -> (r: Option<i64>)
    ensures
        r == value@.integer_of(key@),
{
    match value.get(key) {
        Some(member) => member.as_integer(),
        None => None,
    }
}

/// What a usage window says. How long until it reopens counts from when the
/// line is read; a percentage without a state is no wall.
fn window_from_value(body: &Json) -> (r: UsageWindow)
    ensures
        window_says(r, body@),
{
    let state = match string(body, "state") {
        Some(word) => if same(word.as_str(), "open") {
            UsageState::Allowed
        } else if same(word.as_str(), "closed") {
            UsageState::Exhausted
        } else {
            UsageState::Unknown
        },
        None => UsageState::Unknown,
    };
    let reopens = match integer(body, "reopens_in_s") {
        Some(seconds) => Some(WindowReopen::After(seconds)),
        None => None,
    };
    let used_percent = match body.get("used_pct") {
        Some(used) => match used.as_number() {
            Some(number) => Some(number.clone()),
            None => None,
        },
        None => None,
    };
    UsageWindow { state, reopens, label: string(body, "window"), used_percent }
}

/// Why a run ended, by the word it ended with.
fn end_from_word(why: &Option<String>) -> (r: EndReason)
    ensures
        ended_by(r, said(*why)),
{
    match why {
        Some(word) => {
            let word = word.as_str();
            if same(word, "ok") {
                EndReason::Completed
            } else if same(word, "stopped") {
                EndReason::Interrupted
            } else if same(word, "budget") {
                EndReason::TurnBudgetExhausted
            } else if same(word, "declined") {
                EndReason::Refused
            } else if same(word, "window_closed") {
                EndReason::Errored { detail: Some("the usage window closed mid-run".to_owned()) }
            } else {
                EndReason::Unknown
            }
        },
        None => EndReason::Unknown,
    }
}

/// What the end of a run says.
fn result_from_value(body: &Json) -> (r: ResultEvent)
    ensures
        finished(r, body@),
{
    let why = string(body, "why");
    let errors = match body.get("errors") {
        Some(errors) => errors.text_items(),
        None => {
            let none: Vec<String> = Vec::new();
            assert(text::views(none@) =~= seq![]);
            none
        },
    };
    let mut usage = TokenUsage {
        input_tokens: None,
        output_tokens: None,
        cache_read_tokens: None,
        cache_creation_tokens: None,
    };
    if let Some(counts) = body.get("tokens") {
        usage.input_tokens = integer(counts, "in");
        usage.output_tokens = integer(counts, "out");
        usage.cache_read_tokens = integer(counts, "cached");
    }
    let usage_window = match body.get("window") {
        Some(window) => Some(window_from_value(window)),
        None => None,
    };
    ResultEvent {
        end: end_from_word(&why),
        num_turns: integer(body, "turns"),
        total_cost: None,
        duration_ms: integer(body, "ms"),
        session_id: string(body, "conversation"),
        stop_reason: why,
        result: string(body, "summary"),
        errors,
        permission_denials: Vec::new(),
        usage,
        usage_window,
    }
}

/// A list of one piece.
fn only(block: ContentBlock) -> (r: Vec<ContentBlock>)
    ensures
        r@.len() == 1,
        r@[0] == block,
{
    let mut content: Vec<ContentBlock> = Vec::new();
    content.push(block);
    content
}

/// What one piece of a tool call says.
fn call_from_value(body: Json) -> (r: ContentBlock)
    ensures
        calls(r, body@),
{
    match (string(&body, "call"), string(&body, "tool")) {
        (Some(id), Some(name)) => {
            let input = match body.into_member("args") {
                Some(args) => args,
                None => Json::Null,
            };
            ContentBlock::ToolUse { id, name, input }
        },
        _ => ContentBlock::Other(body),
    }
}

/// What one piece of a tool's answer says.
fn return_from_value(body: Json) -> (r: ContentBlock)
    ensures
        answered(r, body@),
{
    match string(&body, "call") {
        Some(tool_use_id) => {
            let failed: Option<bool> = match body.get("failed") {
                Some(failed) => failed.as_truth(),
                None => None,
            };
            let is_error = match failed {
                Some(value) => value,
                None => false,
            };
            ContentBlock::ToolResult { tool_use_id, is_error }
        },
        None => ContentBlock::Other(body),
    }
}

/// What a line of the agent's stream means: its `kind` says what its `body`
/// carries. A kind that means nothing here is kept whole.
pub fn event_from_value(raw: Json) -> (r: RunEvent)
    ensures
        tells(r, raw@),
{
    let kind = match string(&raw, "kind") {
        Some(kind) => kind,
        None => "".to_owned(),
    };
    let word = kind.as_str();
    if same(word, "conversation.opened") {
        let body = match raw.into_member("body") {
            Some(body) => body,
            None => Json::Null,
        };
        return RunEvent::Init(
            InitEvent {
                session_id: string(&body, "conversation"),
                cwd: string(&body, "cwd"),
                model: string(&body, "engine"),
                permission_mode: None,
                api_key_source: None,
                agent_version: string(&body, "version"),
                tools: Vec::new(),
                mcp_servers: Vec::new(),
            },
        );
    }
    if same(word, "agent.said") || same(word, "agent.tool") {
        let spoke = same(word, "agent.said");
        let body = match raw.into_member("body") {
            Some(body) => body,
            None => Json::Null,
        };
        let session_id = string(&body, "conversation");
        let message_id = string(&body, "turn");
        let block = if spoke {
            match string(&body, "text") {
                Some(text) => ContentBlock::Text(text),
                None => ContentBlock::Text("".to_owned()),
            }
        } else {
            call_from_value(body)
        };
        proof {
            reveal_strlit("agent.said");
            reveal_strlit("agent.tool");
            assert("agent.said"@[6] != "agent.tool"@[6]);
        }
        return RunEvent::Assistant(AssistantEvent { session_id, message_id, content: only(block) });
    }
    if same(word, "tool.returned") {
        let body = match raw.into_member("body") {
            Some(body) => body,
            None => Json::Null,
        };
        let session_id = string(&body, "conversation");
        return RunEvent::User(UserEvent { session_id, content: only(return_from_value(body)) });
    }
    if same(word, "window") || same(word, "finished") {
        let ended = same(word, "finished");
        let body = match raw.into_member("body") {
            Some(body) => body,
            None => Json::Null,
        };
        proof {
            reveal_strlit("window");
            reveal_strlit("finished");
            assert("window"@.len() != "finished"@.len());
        }
        return if ended {
            RunEvent::Result(result_from_value(&body))
        } else {
            RunEvent::Usage(window_from_value(&body))
        };
    }
    let subtype = match raw.get("body") {
        Some(body) => string(body, "why"),
        None => None,
    };
    RunEvent::Other(OtherEvent { event_type: kind, subtype, raw })
}

/// What a line of the agent's stream means, or the reader's sentence on why it is
/// no document.
pub open spec fn line_tells(r: Result<RunEvent, NotJson>, line: Seq<char>) -> bool {
    match r {
        Ok(event) => json::reading_of(line) matches Ok(raw) && tells(event, raw),
        Err(error) => json::reading_of(line) == Err::<Document, Seq<char>>(error.message@),
    }
}

/// What a line of the agent's stream means, or that it is no document.
fn event_from_line(line: &str) -> (r: Result<RunEvent, NotJson>)
    ensures
        line_tells(r, line@),
{
    match parse(line) {
        Ok(raw) => Ok(event_from_value(raw)),
        Err(error) => Err(error),
    }
}

impl Ledger {
    /// Whose agent it is.
    pub fn id(&self) -> (r: ProviderId)
        ensures
            r == ProviderId::Ledger,
    {
        ProviderId::Ledger
    }

    /// What an operator would type.
    pub fn default_program(&self) -> (r: &'static str)
        ensures
            r@ == "ledger"@,
    {
        LEDGER_CLI
    }

    /// What the agent can do.
    pub fn capabilities(&self) -> (r: Capabilities)
        ensures
            can_do(r, ResumeStyle::LastInHome),
    {
        capabilities_with(ResumeStyle::LastInHome)
    }

    /// How a run is started beside the directory `scratch`.
    pub fn plan_spawn(&self, intent: &RunIntent, scratch: &str) -> (r: LedgerSpawn)
        ensures
            starts(r, *intent, scratch@, true),
    {
        plan_spawn(intent, scratch, true)
    }

    /// What a line of the agent's stream means, or that it is no document.
    pub fn parse_line(&self, line: &str) -> (r: Result<RunEvent, NotJson>)
        ensures
            line_tells(r, line@),
    {
        event_from_line(line)
    }

    /// The name a sentence would use.
    pub fn display_name(&self) -> (r: &'static str)
        ensures
            r@ == "Ledger"@,
    {
        DISPLAY_NAME
    }

    /// How the agent is asked for its version.
    pub fn version_probe(&self) -> (r: SpawnPlan)
        ensures
            asks_version(r),
    {
        version_probe()
    }

    /// The version that was printed, where `parsed` is what the trimmed text
    /// reads as.
    pub fn read_version(&self, output: &ProbeOutput, parsed: Option<Version>) -> (r: VersionReport)
        ensures
            r.raw@ == text::trimmed(output.stdout@),
            r.parsed == parsed,
    {
        read_version(output, parsed)
    }

    /// How the agent is asked whether it is signed in: it cannot be.
    pub fn auth_probe(&self) -> (r: Option<SpawnPlan>)
        ensures
            r is None,
    {
        None
    }

    /// What is known of the sign-in: nothing, whatever was printed.
    pub fn read_auth(&self, _output: &ProbeOutput) -> (r: AuthState)
        ensures
            r matches AuthState::Undetermined { detail } && detail@
                == "Ledger has no out-of-band sign-in check"@,
    {
        read_auth()
    }

    /// The oldest version that will do.
    pub fn minimum_version(&self) -> (r: Version)
        ensures
            r == oldest(),
    {
        Version { major: 0, minor: 3, patch: 0 }
    }

    /// The agent's own name for a tool of a server.
    pub fn tool_handle(&self, server: &str, tool: &str) -> (r: String)
        ensures
            r@ == server@ + "."@ + tool@,
    {
        tool_handle(server, tool)
    }

    /// What the agent calls the ones it hands work to.
    pub fn fanout_noun(&self) -> (r: &'static str)
        ensures
            r@ == "helpers"@,
    {
        "helpers"
    }

    /// What inheriting the operator's configuration costs: nothing is known.
    pub fn inherit_cost(&self) -> (r: Option<Cost>)
        ensures
            r is None,
    {
        None
    }

    /// The agent's own choices.
    pub fn default_catalogue(&self) -> (r: Catalogue)
        ensures
            ledger_catalogue(r),
    {
        default_catalogue()
    }
}

impl LedgerWithoutResume {
    /// Whose agent it is.
    pub fn id(&self) -> (r: ProviderId)
        ensures
            r == ProviderId::Ledger,
    {
        ProviderId::Ledger
    }

    /// What an operator would type.
    pub fn default_program(&self) -> (r: &'static str)
        ensures
            r@ == "ledger"@,
    {
        LEDGER_CLI
    }

    /// What the agent can do.
    pub fn capabilities(&self) -> (r: Capabilities)
        ensures
            can_do(r, ResumeStyle::Unsupported),
    {
        capabilities_with(ResumeStyle::Unsupported)
    }

    /// How a run is started beside the directory `scratch`: from the top, even
    /// where it was to go on with a conversation.
    pub fn plan_spawn(&self, intent: &RunIntent, scratch: &str) -> (r: LedgerSpawn)
        ensures
            starts(r, *intent, scratch@, false),
    {
        plan_spawn(intent, scratch, false)
    }

    /// What a line of the agent's stream means, or that it is no document.
    pub fn parse_line(&self, line: &str) -> (r: Result<RunEvent, NotJson>)
        ensures
            line_tells(r, line@),
    {
        event_from_line(line)
    }

    /// The name a sentence would use.
    pub fn display_name(&self) -> (r: &'static str)
        ensures
            r@ == "Ledger"@,
    {
        DISPLAY_NAME
    }

    /// How the agent is asked for its version.
    pub fn version_probe(&self) -> (r: SpawnPlan)
        ensures
            asks_version(r),
    {
        version_probe()
    }

    /// The version that was printed, where `parsed` is what the trimmed text
    /// reads as.
    pub fn read_version(&self, output: &ProbeOutput, parsed: Option<Version>) -> (r: VersionReport)
        ensures
            r.raw@ == text::trimmed(output.stdout@),
            r.parsed == parsed,
    {
        read_version(output, parsed)
    }

    /// How the agent is asked whether it is signed in: it cannot be.
    pub fn auth_probe(&self) -> (r: Option<SpawnPlan>)
        ensures
            r is None,
    {
        None
    }

    /// What is known of the sign-in: nothing, whatever was printed.
    pub fn read_auth(&self, _output: &ProbeOutput) -> (r: AuthState)
        ensures
            r matches AuthState::Undetermined { detail } && detail@
                == "Ledger has no out-of-band sign-in check"@,
    {
        read_auth()
    }

    /// The oldest version that will do.
    pub fn minimum_version(&self) -> (r: Version)
        ensures
            r == oldest(),
    {
        Version { major: 0, minor: 3, patch: 0 }
    }

    /// The agent's own name for a tool of a server.
    pub fn tool_handle(&self, server: &str, tool: &str) -> (r: String)
        ensures
            r@ == server@ + "."@ + tool@,
    {
        tool_handle(server, tool)
    }

    /// What the agent calls the ones it hands work to.
    pub fn fanout_noun(&self) -> (r: &'static str)
        ensures
            r@ == "helpers"@,
    {
        "helpers"
    }

    /// What inheriting the operator's configuration costs: nothing is known.
    pub fn inherit_cost(&self) -> (r: Option<Cost>)
        ensures
            r is None,
    {
        None
    }

    /// The agent's own choices.
    pub fn default_catalogue(&self) -> (r: Catalogue)
        ensures
            ledger_catalogue(r),
    {
        default_catalogue()
    }
}

/// A line whose kind means nothing here is kept whole, with its kind.
pub proof fn law_an_unknown_kind_is_kept_whole(event: RunEvent, raw: Document)
    requires
        tells(event, raw),
        event is Other,
    ensures
        event->Other_0.raw@ == raw,
        event->Other_0.event_type@ == kind_of(raw),
{
}

/// A run of this agent never says what it cost.
pub proof fn law_the_cost_is_never_reported(event: RunEvent, raw: Document)
    requires
        tells(event, raw),
        event is Result,
    ensures
        event->Result_0.total_cost is None,
{
}

/// A conversation is continued only by the agent that can, and only where the
/// run is to continue one.
pub proof fn law_only_a_continuation_continues(
    intent: RunIntent,
    scratch: Seq<char>,
    can_continue: bool,
)
    ensures
        arguments(intent, scratch, can_continue)[3] == "--continue"@ <==> can_continue
            && intent.session.continuation,
{
    reveal_strlit("--continue");
    reveal_strlit("--trust");
    assert("--continue"@.len() != "--trust"@.len());
}

/// What a run is started with, word by word: how it speaks, whether it continues
/// a conversation, how far it is trusted, where its preamble is, and then the
/// model, the effort and the number of steps, each exactly where the run names
/// one. The prompt goes in by the standard input, and nothing is taken out of
/// the environment.
pub proof fn law_a_run_is_started_as_it_is_meant(
    ledger: Ledger,
    intent: RunIntent,
    scratch: &str,
    r: LedgerSpawn,
    words: Seq<Seq<char>>,
    c: int,
    m: int,
    e: int,
)
    requires
        call_ensures(Ledger::plan_spawn, (&ledger, &intent, scratch), r),
        words == text::views(r.plan.args@),
        c == (if intent.session.continuation {
            4int
        } else {
            3
        }),
        m == c + 4 + (if intent.model is Some {
            2int
        } else {
            0
        }),
        e == m + (if intent.effort is Some {
            2int
        } else {
            0
        }),
    ensures
        words.len() == e + (if intent.max_turns is Some {
            2int
        } else {
            0
        }),
        words[0] == "run"@ && words[1] == "--emit"@ && words[2] == "ndjson"@,
        intent.session.continuation ==> words[3] == "--continue"@,
        words[c] == "--trust"@,
        intent.permission_mode == PermissionMode::BypassPermissions ==> words[c + 1] == "full"@,
        intent.permission_mode == PermissionMode::AcceptEdits ==> words[c + 1] == "edits-only"@,
        words[c + 2] == "--preamble-file"@,
        words[c + 3] == r.preamble_path@,
        r.preamble_path@ == path::under(scratch@, "preamble.md"@),
        r.preamble == intent.system_append,
        intent.model matches Some(model) ==> words[c + 4] == "--engine"@ && words[c + 5] == model@,
        intent.effort matches Some(effort) ==> words[m] == "--diligence"@ && words[m + 1]
            == effort@,
        intent.max_turns matches Some(n) ==> words[e] == "--step-budget"@ && words[e + 1]
            == text::decimal(n as nat),
        r.plan.stdin == intent.prompt,
        r.plan.env_remove@.len() == 0,
        r.home == intent.session.home,
{
    assert(words == arguments(intent, scratch@, true));
}

/// An agent that cannot continue a conversation is never asked to: it is started
/// as a fresh run of the other would be.
pub proof fn law_without_resume_every_run_is_fresh(
    one: Ledger,
    other: LedgerWithoutResume,
    intent: RunIntent,
    scratch: &str,
    fresh: LedgerSpawn,
    r: LedgerSpawn,
)
    requires
        call_ensures(Ledger::plan_spawn, (&one, &intent, scratch), fresh),
        call_ensures(LedgerWithoutResume::plan_spawn, (&other, &intent, scratch), r),
    ensures
        !intent.session.continuation ==> text::views(r.plan.args@) == text::views(
            fresh.plan.args@,
        ),
        intent.session.continuation ==> text::views(fresh.plan.args@) == text::views(
            r.plan.args@,
        ).insert(3, "--continue"@),
        r.plan.stdin == fresh.plan.stdin,
        r.preamble == fresh.preamble,
        r.home == fresh.home,
        r.tools is Some <==> fresh.tools is Some,
{
    let with = arguments(intent, scratch@, true);
    let without = arguments(intent, scratch@, false);
    if intent.session.continuation {
        assert(with =~= without.insert(3, "--continue"@));
    } else {
        assert(with =~= without);
    }
}

/// A run has the home it is meant to have. One that is handed a server is told
/// of it and of the tools it needs, and inherits nothing; one that is not
/// inherits what there is, and is told of none.
pub proof fn law_a_handle_replaces_what_is_inherited(
    ledger: Ledger,
    intent: RunIntent,
    scratch: &str,
    r: LedgerSpawn,
)
    requires
        call_ensures(Ledger::plan_spawn, (&ledger, &intent, scratch), r),
    ensures
        r.plan.env_set@.len() > 0 && r.plan.env_set@[0].0@ == "LEDGER_HOME"@
            && r.plan.env_set@[0].1@ == intent.session.home@,
        intent.rimaia_handle is Some ==> r.plan.env_set@.len() == 1 && r.tools is Some,
        intent.rimaia_handle is None ==> r.plan.env_set@.len() == 2 && r.plan.env_set@[1].0@
            == "LEDGER_INHERIT"@ && r.plan.env_set@[1].1@ == "1"@ && r.tools is None,
        intent.rimaia_handle matches Some(handle) ==> r.tools->0@ == "[servers."@ + handle.server@
            + "]\nkind = \"http\"\nurl = \""@ + handle.url@ + "\"\ntools = ["@ + text::joined(
            Seq::new(
                intent.required_tools@.len(),
                |i: int| "\""@ + intent.required_tools@[i]@ + "\""@,
            ),
            ", "@,
        ) + "]\n"@,
{
    let env = assignments(r.plan.env_set@);
    assert(env == environment(intent));
    assert(env.len() == r.plan.env_set@.len());
    assert(env[0] == (r.plan.env_set@[0].0@, r.plan.env_set@[0].1@));
    if intent.rimaia_handle is None {
        assert(env[1] == (r.plan.env_set@[1].0@, r.plan.env_set@[1].1@));
    }
    assert(quoted(intent.required_tools@) =~= Seq::new(
        intent.required_tools@.len(),
        |i: int| "\""@ + intent.required_tools@[i]@ + "\""@,
    ));
}

proof fn lemma_kinds_differ()
    ensures
        "agent.said"@ != "conversation.opened"@,
        "agent.tool"@ != "conversation.opened"@,
        "agent.tool"@ != "agent.said"@,
        "tool.returned"@ != "conversation.opened"@,
        "tool.returned"@ != "agent.said"@,
        "tool.returned"@ != "agent.tool"@,
        "window"@ != "conversation.opened"@,
        "window"@ != "agent.said"@,
        "window"@ != "agent.tool"@,
        "window"@ != "tool.returned"@,
        "finished"@ != "conversation.opened"@,
        "finished"@ != "agent.said"@,
        "finished"@ != "agent.tool"@,
        "finished"@ != "tool.returned"@,
        "finished"@ != "window"@,
{
    reveal_strlit("conversation.opened");
    reveal_strlit("agent.said");
    reveal_strlit("agent.tool");
    reveal_strlit("tool.returned");
    reveal_strlit("window");
    reveal_strlit("finished");
    assert("conversation.opened"@.len() == 19 && "tool.returned"@.len() == 13);
    assert("agent.said"@.len() == 10 && "agent.tool"@.len() == 10);
    assert("window"@.len() == 6 && "finished"@.len() == 8);
    assert("agent.said"@[6] != "agent.tool"@[6]);
}

/// Each kind of line means its own kind of event, and a line of another kind, or
/// of none, is kept whole.
pub proof fn law_each_kind_of_line_is_its_own_event(raw: Json, r: RunEvent, kind: Seq<char>)
    requires
        call_ensures(event_from_value, (raw,), r),
        raw@.text_of("kind"@) == Some(kind) || (raw@.text_of("kind"@) is None && kind == ""@),
    ensures
        kind == "conversation.opened"@ <==> r is Init,
        kind == "agent.said"@ || kind == "agent.tool"@ <==> r is Assistant,
        kind == "tool.returned"@ <==> r is User,
        kind == "window"@ <==> r is Usage,
        kind == "finished"@ <==> r is Result,
        r matches RunEvent::Other(other) ==> other.event_type@ == kind && other.raw@ == raw@,
{
    lemma_kinds_differ();
}

/// A conversation that opens says which it is, where it works, and what it runs
/// with, each as its line has it; what the line does not have is not made up.
pub proof fn law_an_opening_line_is_told_as_it_is(raw: Json, init: InitEvent, body: Document)
    requires
        call_ensures(event_from_value, (raw,), RunEvent::Init(init)),
        raw@.member("body"@) == Some(body),
    ensures
        said(init.session_id) == body.text_of("conversation"@),
        said(init.cwd) == body.text_of("cwd"@),
        said(init.model) == body.text_of("engine"@),
        said(init.agent_version) == body.text_of("version"@),
        init.permission_mode is None && init.api_key_source is None,
        init.tools@.len() == 0 && init.mcp_servers@.len() == 0,
{
    lemma_kinds_differ();
}

/// A text that is there says itself, and one that is not says nothing.
pub proof fn law_a_text_says_itself(text: String)
    ensures
        said(Some(text)) == Some(text@),
        said(None) is None,
{
}

/// A run that ends says how, by the word of its line: only the exact words mean
/// an end that is known. It tells its counts, its summary and its errors as the
/// line has them, and never a cost.
pub proof fn law_an_ending_line_is_told_as_it_is(raw: Json, end: ResultEvent, body: Document)
    requires
        call_ensures(event_from_value, (raw,), RunEvent::Result(end)),
        raw@.member("body"@) == Some(body),
    ensures
        body.text_of("why"@) == Some("ok"@) <==> end.end is Completed,
        body.text_of("why"@) == Some("stopped"@) <==> end.end is Interrupted,
        body.text_of("why"@) == Some("budget"@) <==> end.end is TurnBudgetExhausted,
        body.text_of("why"@) == Some("declined"@) <==> end.end is Refused,
        body.text_of("why"@) == Some("window_closed"@) <==> end.end is Errored,
        end.num_turns == body.integer_of("turns"@),
        end.duration_ms == body.integer_of("ms"@),
        end.total_cost is None,
        said(end.session_id) == body.text_of("conversation"@),
        said(end.stop_reason) == body.text_of("why"@),
        said(end.result) == body.text_of("summary"@),
        body.member("errors"@) matches Some(Document::Array(items)) ==> text::views(end.errors@)
            == json::texts(items),
        body.member("tokens"@) matches Some(counts) ==> end.usage.input_tokens
            == counts.integer_of("in"@) && end.usage.output_tokens == counts.integer_of("out"@)
            && end.usage.cache_read_tokens == counts.integer_of("cached"@),
        body.member("tokens"@) is None ==> end.usage.input_tokens is None
            && end.usage.output_tokens is None && end.usage.cache_read_tokens is None,
        end.usage.cache_creation_tokens is None,
        body.member("window"@) is Some <==> end.usage_window is Some,
        end.permission_denials@.len() == 0,
{
    lemma_kinds_differ();
    reveal_strlit("ok");
    reveal_strlit("stopped");
    reveal_strlit("budget");
    reveal_strlit("declined");
    reveal_strlit("window_closed");
    assert("ok"@.len() == 2 && "stopped"@.len() == 7 && "budget"@.len() == 6 && "declined"@.len()
        == 8 && "window_closed"@.len() == 13);
}

/// A usage window says whether it is open by the exact word, and when it
/// reopens, what it is called and how much of it is used as its line has it.
pub proof fn law_a_window_line_is_told_as_it_is(raw: Json, window: UsageWindow, body: Document)
    requires
        call_ensures(event_from_value, (raw,), RunEvent::Usage(window)),
        raw@.member("body"@) == Some(body),
    ensures
        body.text_of("state"@) == Some("open"@) <==> window.state == UsageState::Allowed,
        body.text_of("state"@) == Some("closed"@) <==> window.state == UsageState::Exhausted,
        body.integer_of("reopens_in_s"@) matches Some(seconds) ==> window.reopens == Some(
            WindowReopen::After(seconds),
        ),
        body.integer_of("reopens_in_s"@) is None ==> window.reopens is None,
        said(window.label) == body.text_of("window"@),
        body.member("used_pct"@) matches Some(used) ==> said(window.used_percent) == used.number(),
        body.member("used_pct"@) is None ==> window.used_percent is None,
{
    lemma_kinds_differ();
    reveal_strlit("open");
    reveal_strlit("closed");
    assert("open"@.len() != "closed"@.len());
}

/// What an agent says and what it calls is told with whose turn it was: its
/// words as they are, and a call with its name, its number and what it was given,
/// or whole where it has none of the first two.
pub proof fn law_a_turn_is_told_as_it_is(raw: Json, turn: AssistantEvent, body: Document)
    requires
        call_ensures(event_from_value, (raw,), RunEvent::Assistant(turn)),
        raw@.member("body"@) == Some(body),
    ensures
        said(turn.session_id) == body.text_of("conversation"@),
        said(turn.message_id) == body.text_of("turn"@),
        turn.content@.len() == 1,
        raw@.text_of("kind"@) == Some("agent.said"@) ==> {
            &&& turn.content@[0] is Text
            &&& body.text_of("text"@) matches Some(words) ==> turn.content@[0]->Text_0@ == words
            &&& body.text_of("text"@) is None ==> turn.content@[0]->Text_0@ == ""@
        },
        raw@.text_of("kind"@) == Some("agent.tool"@) ==> {
            &&& body.text_of("call"@) is Some && body.text_of("tool"@) is Some <==> turn.content@[0]
                is ToolUse
            &&& turn.content@[0] matches ContentBlock::ToolUse { id, name, input } ==> body.text_of(
                "call"@,
            ) == Some(id@) && body.text_of("tool"@) == Some(name@) && (body.member(
                "args"@,
            ) matches Some(args) ==> input@ == args) && (body.member("args"@) is None ==> input@
                == Document::Null)
            &&& turn.content@[0] matches ContentBlock::Other(whole) ==> whole@ == body
        },
{
    lemma_kinds_differ();
}

/// What a tool answers is told with the call it answers, and as a failure only
/// where the line says so; an answer to no call is kept whole.
pub proof fn law_an_answer_is_told_as_it_is(raw: Json, turn: UserEvent, body: Document)
    requires
        call_ensures(event_from_value, (raw,), RunEvent::User(turn)),
        raw@.member("body"@) == Some(body),
    ensures
        said(turn.session_id) == body.text_of("conversation"@),
        turn.content@.len() == 1,
        body.text_of("call"@) is Some <==> turn.content@[0] is ToolResult,
        turn.content@[0] matches ContentBlock::ToolResult { tool_use_id, is_error } ==> {
            &&& body.text_of("call"@) == Some(tool_use_id@)
            &&& is_error <==> body.member("failed"@) == Some(Document::Bool(true))
        },
        turn.content@[0] matches ContentBlock::Other(whole) ==> whole@ == body,
{
    lemma_kinds_differ();
}

} // verus!
