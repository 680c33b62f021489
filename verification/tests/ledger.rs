//! The agent that does not exist, and the documents it speaks in.

use rimaia_core::json::{parse, Json, JsonNumber, Member};
use rimaia_core::runner::events::{
    ContentBlock, EndReason, RunEvent, UsageState, UsageWindow, WindowReopen,
};
use rimaia_core::runner::provider::{
    AuthState, PermissionMode, ProbeOutput, ProviderId, ResumeStyle, RunHandle, RunIntent,
    SessionCapability, SessionIntent, Version,
};
use rimaia_core::testing::provider::{all_capabilities, Ledger, LedgerWithoutResume};

fn intent() -> RunIntent {
    RunIntent {
        session: SessionIntent { continuation: true, home: "/home/ledger".to_string() },
        permission_mode: PermissionMode::BypassPermissions,
        prompt: "do the thing".to_string(),
        system_append: "facts".to_string(),
        model: Some("steady".to_string()),
        effort: Some("careful".to_string()),
        max_turns: Some(40),
        rimaia_handle: Some(RunHandle {
            server: "rimaia".to_string(),
            url: "http://localhost:1/mcp".to_string(),
        }),
        required_tools: vec!["set_task_strategy".to_string(), "get_task".to_string()],
    }
}

#[test]
fn a_full_run_is_a_subcommand_a_file_and_a_variable() {
    let spawn = Ledger.plan_spawn(&intent(), "/scratch/run 1");

    assert_eq!(
        spawn.plan.args,
        vec![
            "run",
            "--emit",
            "ndjson",
            "--continue",
            "--trust",
            "full",
            "--preamble-file",
            "/scratch/run 1/preamble.md",
            "--engine",
            "steady",
            "--diligence",
            "careful",
            "--step-budget",
            "40",
        ],
    );
    assert_eq!(
        spawn.plan.env_set,
        vec![("LEDGER_HOME".to_string(), "/home/ledger".to_string())],
    );
    assert!(spawn.plan.env_remove.is_empty());
    assert_eq!(spawn.plan.stdin, "do the thing");
    assert_eq!(spawn.preamble_path, "/scratch/run 1/preamble.md");
    assert_eq!(spawn.preamble, "facts");
    assert_eq!(spawn.home, "/home/ledger");
    assert_eq!(
        spawn.tools.as_deref(),
        Some(
            "[servers.rimaia]\nkind = \"http\"\nurl = \"http://localhost:1/mcp\"\n\
             tools = [\"set_task_strategy\", \"get_task\"]\n"
        ),
    );
}

#[test]
fn a_bare_run_inherits_the_operators_configuration() {
    let bare = RunIntent {
        permission_mode: PermissionMode::AcceptEdits,
        model: None,
        effort: None,
        max_turns: None,
        rimaia_handle: None,
        ..intent()
    };
    let spawn = LedgerWithoutResume.plan_spawn(&bare, "/s");

    assert_eq!(
        spawn.plan.args,
        vec![
            "run",
            "--emit",
            "ndjson",
            "--trust",
            "edits-only",
            "--preamble-file",
            "/s/preamble.md",
        ],
        "an agent that cannot continue starts from the top",
    );
    assert_eq!(
        spawn.plan.env_set,
        vec![
            ("LEDGER_HOME".to_string(), "/home/ledger".to_string()),
            ("LEDGER_INHERIT".to_string(), "1".to_string()),
        ],
    );
    assert_eq!(spawn.tools, None);
}

#[test]
fn the_agent_says_who_it_is() {
    assert_eq!(Ledger.id(), ProviderId::Ledger);
    assert_eq!(Ledger.default_program(), "ledger");
    assert_eq!(Ledger.display_name(), "Ledger");
    assert_eq!(Ledger.minimum_version(), Version { major: 0, minor: 3, patch: 0 });
    assert_eq!(Ledger.tool_handle("rimaia", "get_task"), "rimaia.get_task");
    assert_eq!(Ledger.fanout_noun(), "helpers");
    assert_eq!(Ledger.inherit_cost(), None);
    assert_eq!(Ledger.version_probe().args, vec!["--version"]);
    assert_eq!(Ledger.auth_probe(), None);
    let output = ProbeOutput { stdout: " 0.9.4 (ledger)\n".to_string() };
    assert_eq!(
        Ledger.read_auth(&output),
        AuthState::Undetermined {
            detail: "Ledger has no out-of-band sign-in check".to_string()
        },
    );
    let version = Version { major: 0, minor: 9, patch: 4 };
    let report = Ledger.read_version(&output, Some(version));
    assert_eq!(report.raw, "0.9.4 (ledger)");
    assert_eq!(report.parsed, Some(version));

    let tables = all_capabilities();
    assert_eq!(tables[0], Ledger.capabilities());
    assert_eq!(tables[1], LedgerWithoutResume.capabilities());
    assert_eq!(
        tables[1].session,
        SessionCapability::SelfMinted { resume: ResumeStyle::Unsupported },
    );
    assert_eq!(tables[0].identity_prefixes, vec!["LEDGER", "LGR_"]);
}

fn event(line: &str) -> RunEvent {
    Ledger.parse_line(line).expect("a document")
}

#[test]
fn a_conversation_announces_itself() {
    let line = r#"{"kind":"conversation.opened","body":{"conversation":"c1","cwd":"/w",
        "engine":"steady","version":"0.9.4"}}"#;
    match event(line) {
        RunEvent::Init(init) => {
            assert_eq!(init.session_id.as_deref(), Some("c1"));
            assert_eq!(init.cwd.as_deref(), Some("/w"));
            assert_eq!(init.model.as_deref(), Some("steady"));
            assert_eq!(init.agent_version.as_deref(), Some("0.9.4"));
            assert_eq!(init.permission_mode, None);
            assert!(init.tools.is_empty());
        }
        other => panic!("an announcement: {other:?}"),
    }
}

#[test]
fn what_the_agent_says_and_calls_is_an_assistants_turn() {
    match event(r#"{"kind":"agent.said","body":{"conversation":"c","turn":"t","text":"hi"}}"#) {
        RunEvent::Assistant(turn) => {
            assert_eq!(turn.session_id.as_deref(), Some("c"));
            assert_eq!(turn.message_id.as_deref(), Some("t"));
            assert_eq!(turn.content, vec![ContentBlock::Text("hi".to_string())]);
        }
        other => panic!("a turn: {other:?}"),
    }
    match event(r#"{"kind":"agent.said"}"#) {
        RunEvent::Assistant(turn) => {
            assert_eq!(turn.content, vec![ContentBlock::Text(String::new())]);
        }
        other => panic!("a turn: {other:?}"),
    }
    match event(r#"{"kind":"agent.tool","body":{"call":"1","tool":"grep","args":{"q":[1,true]}}}"#)
    {
        RunEvent::Assistant(turn) => assert_eq!(
            turn.content,
            vec![ContentBlock::ToolUse {
                id: "1".to_string(),
                name: "grep".to_string(),
                input: parse(r#"{"q":[1,true]}"#).expect("a document"),
            }],
        ),
        other => panic!("a turn: {other:?}"),
    }
    match event(r#"{"kind":"agent.tool","body":{"call":"1"}}"#) {
        RunEvent::Assistant(turn) => assert_eq!(
            turn.content,
            vec![ContentBlock::Other(parse(r#"{"call":"1"}"#).expect("a document"))],
        ),
        other => panic!("a turn: {other:?}"),
    }
}

#[test]
fn what_a_tool_returns_is_a_users_turn() {
    match event(r#"{"kind":"tool.returned","body":{"call":"1","failed":true}}"#) {
        RunEvent::User(turn) => assert_eq!(
            turn.content,
            vec![ContentBlock::ToolResult { tool_use_id: "1".to_string(), is_error: true }],
        ),
        other => panic!("a turn: {other:?}"),
    }
    match event(r#"{"kind":"tool.returned","body":{"call":"1"}}"#) {
        RunEvent::User(turn) => assert_eq!(
            turn.content,
            vec![ContentBlock::ToolResult { tool_use_id: "1".to_string(), is_error: false }],
        ),
        other => panic!("a turn: {other:?}"),
    }
    match event(r#"{"kind":"tool.returned","body":null}"#) {
        RunEvent::User(turn) => assert_eq!(turn.content, vec![ContentBlock::Other(Json::Null)]),
        other => panic!("a turn: {other:?}"),
    }
}

#[test]
fn a_usage_window_reopens_relative_to_when_its_line_is_read() {
    let line =
        r#"{"kind":"window","body":{"used_pct":93.5,"window":"5h","reopens_in_s":3600,"state":"closed"}}"#;
    assert_eq!(
        event(line),
        RunEvent::Usage(UsageWindow {
            state: UsageState::Exhausted,
            reopens: Some(WindowReopen::After(3600)),
            label: Some("5h".to_string()),
            used_percent: Some("93.5".to_string()),
        }),
    );
    assert_eq!(
        event(r#"{"kind":"window","body":{"used_pct":12}}"#),
        RunEvent::Usage(UsageWindow {
            state: UsageState::Unknown,
            reopens: None,
            label: None,
            used_percent: Some("12".to_string()),
        }),
        "a percentage without a state is no wall",
    );
}

#[test]
fn every_ending_has_its_word() {
    for (why, end) in [
        ("ok", EndReason::Completed),
        ("stopped", EndReason::Interrupted),
        ("budget", EndReason::TurnBudgetExhausted),
        ("declined", EndReason::Refused),
        (
            "window_closed",
            EndReason::Errored { detail: Some("the usage window closed mid-run".to_string()) },
        ),
        ("exploded", EndReason::Unknown),
    ] {
        match event(&format!("{{\"kind\":\"finished\",\"body\":{{\"why\":\"{why}\"}}}}")) {
            RunEvent::Result(result) => {
                assert_eq!(result.end, end, "{why}");
                assert_eq!(result.stop_reason.as_deref(), Some(why));
                assert_eq!(result.total_cost, None);
                assert_eq!(result.usage_window, None);
            }
            other => panic!("an ending: {other:?}"),
        }
    }
}

#[test]
fn an_ending_carries_its_numbers_and_its_window() {
    let line = r#"{"kind":"finished","body":{"why":"ok","turns":4,"ms":1200,"conversation":"c",
        "summary":"done","errors":["one",2,"three"],"tokens":{"in":10,"out":20,"cached":5},
        "window":{"state":"open"}}}"#;
    match event(line) {
        RunEvent::Result(result) => {
            assert_eq!(result.num_turns, Some(4));
            assert_eq!(result.duration_ms, Some(1200));
            assert_eq!(result.session_id.as_deref(), Some("c"));
            assert_eq!(result.result.as_deref(), Some("done"));
            assert_eq!(result.errors, vec!["one", "three"]);
            assert_eq!(result.usage.input_tokens, Some(10));
            assert_eq!(result.usage.output_tokens, Some(20));
            assert_eq!(result.usage.cache_read_tokens, Some(5));
            assert_eq!(result.usage.cache_creation_tokens, None);
            let window = result.usage_window.expect("the window rides on the ending");
            assert_eq!(window.state, UsageState::Allowed);
        }
        other => panic!("an ending: {other:?}"),
    }
}

#[test]
fn an_unknown_kind_is_kept_whole() {
    let line = r#"{"kind":"mystery","body":{"why":"x"},"extra":1}"#;
    match event(line) {
        RunEvent::Other(other) => {
            assert_eq!(other.event_type, "mystery");
            assert_eq!(other.subtype.as_deref(), Some("x"));
            assert_eq!(other.raw, parse(line).expect("a document"));
        }
        other => panic!("something else: {other:?}"),
    }
    match event(r#"{"type":"result"}"#) {
        RunEvent::Other(other) => assert_eq!(other.event_type, ""),
        other => panic!("another agent's line means nothing here: {other:?}"),
    }
}

#[test]
fn a_line_that_is_no_document_is_an_error() {
    let error = LedgerWithoutResume.parse_line("{ not json").expect_err("no document");
    assert_eq!(error.message, "key must be a string at line 1 column 3");
    assert!(LedgerWithoutResume.parse_line(r#"{"kind":"window"}"#).is_ok());
}

#[test]
fn a_document_is_read_part_by_part() {
    let document = parse(r#"{"a":null,"b":[true,-3,1.5,"x"],"c":18446744073709551615}"#)
        .expect("a document");
    let number = |integer: Option<i64>, text: &str| {
        Json::Number(JsonNumber { integer, text: text.to_string() })
    };
    let member = |name: &str, value: Json| Member { name: name.to_string(), value };
    assert_eq!(
        document,
        Json::Object(vec![
            member("a", Json::Null),
            member(
                "b",
                Json::Array(vec![
                    Json::Bool(true),
                    number(Some(-3), "-3"),
                    number(None, "1.5"),
                    Json::Text("x".to_string()),
                ]),
            ),
            member("c", number(None, "18446744073709551615")),
        ]),
    );
    assert_eq!(document.get("a"), Some(&Json::Null));
    assert_eq!(document.get("z"), None);
    assert_eq!(document.into_member("a"), Some(Json::Null));
}
