//! The stand-in command line and the repository for tests.

use rimaia_core::runner::provider::ProviderId;
use rimaia_core::testing::cli::{
    agent_stand_in, argv, attempts, ledger_stand_in, never_two_at_once, open_gate, overlapped, peak_overlap,
    spawns, started, unhandled_subcommands, FakeCli,
};
use rimaia_core::testing::repo::{git, TempRepo};

const ROOT: &str = "/core";

fn cli() -> FakeCli {
    FakeCli::new("/tmp/fake".to_string(), agent_stand_in("agent", "Agent"))
}

#[test]
fn every_attempt_replays_a_scenario_unless_told_otherwise() {
    let plan = cli().replays("t", ROOT, "success", 0);
    assert_eq!(plan.path, "/tmp/fake/plan-t");
    assert_eq!(plan.contents, "replay\n/core/tests/fixtures/cli/success.jsonl\n0\n\n\n");
    assert!(!plan.executable);

    let second = cli().replays_on_attempt("t", 2, ROOT, "max-turns", -1);
    assert_eq!(second.path, "/tmp/fake/plan-t-2");
    assert_eq!(second.contents, "replay\n/core/tests/fixtures/cli/max-turns.jsonl\n-1\n\n\n");

    let elsewhere = cli().replays_path("t", "/r.jsonl", 143);
    assert_eq!(elsewhere.contents, "replay\n/r.jsonl\n143\n\n\n");

    let commit = cli().commits_on_attempt("t", 1, "a message", ROOT, "success", 0);
    assert_eq!(
        commit.contents,
        "commit\n/core/tests/fixtures/cli/success.jsonl\n0\na message\n\n",
    );
}

#[test]
fn a_gated_run_hands_its_recording_over_in_two_pieces() {
    let recording = "one\n\ntwo\nthree\n";
    let gated = cli().gates_path("t", recording, 1, 7);
    assert_eq!(gated.gate, "/tmp/fake/gate-t");
    assert_eq!(gated.files[0].path, "/tmp/fake/head-t.jsonl");
    assert_eq!(gated.files[0].contents, "one\n");
    assert_eq!(gated.files[1].path, "/tmp/fake/rest-t.jsonl");
    assert_eq!(gated.files[1].contents, "two\nthree\n");
    assert_eq!(
        gated.files[2].contents,
        "gate\n/tmp/fake/head-t.jsonl\n/tmp/fake/rest-t.jsonl\n/tmp/fake/gate-t\n7\n",
    );
    assert!(cli().resists_sigterm("t", recording, 0, 0).files[2].contents.starts_with("resist\n"));
    assert!(cli().gates("t", recording, 2).files[2].contents.ends_with("\n0\n"));
    assert_eq!(cli().hangs("t", recording, 1)[2].contents, "hang\n/tmp/fake/head-t.jsonl\n\n\n\n");
    assert_eq!(open_gate(&gated.gate).contents, "go\n");
    assert_eq!(cli().hold_version_probe().path, "/tmp/fake/version-hold");
    assert_eq!(cli().release_version_probe().path, "/tmp/fake/version-go");
}

#[test]
fn a_new_stand_in_has_a_default_and_both_programs() {
    let files = cli().files(ROOT);
    assert_eq!(files[0].path, "/tmp/fake/plan-default");
    assert_eq!(files[1].path, cli().program());
    assert_eq!(files[1].path, "/tmp/fake/agent");
    assert_eq!(files[2].path, cli().program_for(ProviderId::Ledger));
    assert!(files[1].executable && files[2].executable);
}

#[test]
fn a_script_answers_its_probes_and_refuses_what_it_does_not_know() {
    let agent = cli().write_script(&cli().agent).contents;
    let dir = "/tmp/fake";
    let head = format!(
        "#!/bin/sh\n\
         if [ \"$1\" = '--version' ]; then\n\
         if [ -f '{dir}/version-hold' ] && [ -f '{dir}/auth-seen' ]; then\n\
         while [ ! -f '{dir}/version-go' ]; do sleep 0.02; done\n\
         fi\n\
         echo '2.1.234 (Agent)'; exit 0\n\
         fi\n\
         if [ \"$1\" = 'auth' ]; then\n\
         : > '{dir}/auth-seen'\n\
         echo '{{\"loggedIn\": true}}'; exit 0\n\
         fi\n\
         known='--version --output-format "
    );
    assert!(agent.starts_with(&head), "{agent}");
    assert!(agent.contains("*) printf 'unhandled %s\\n' \"$arg\" >> '/tmp/fake/unhandled';;\n"));
    assert!(agent.contains("if [ \"$1\" != '-p' ]; then\n"));
    assert!(agent.contains("\ndir='/tmp/fake'\ntask=\"$(basename \"$(pwd -P)\")\"\n"));
    assert!(agent.contains("printf '%s\\n' \"$@\" > \"$dir/argv-$task-$attempt\"\n"));
    assert!(agent.contains("exit \"${four:-0}\"\n"));
    assert!(agent.ends_with("hang)\ncat \"$one\"\nsleep 300\n;;\nesac\n"));

    let ledger = cli().write_script(&ledger_stand_in()).contents;
    assert!(!ledger.contains("loggedIn"), "this one has no sign-in to ask about");
    assert!(ledger.contains("echo '0.9.4 (ledger)'; exit 0\nfi\nknown='--version --emit "));
    assert!(ledger.contains("if [ \"$1\" != 'run' ]; then\n"));
}

fn log(text: &str) -> Vec<String> {
    spawns(&Some(text.to_string()))
}

#[test]
fn the_log_says_what_ran_and_how_much_at_once() {
    let apart = log("start a\nend a\nstart b\nend b\nstart a\n");
    assert_eq!(started(&apart), vec!["a", "b", "a"]);
    assert_eq!(attempts(&apart, "a"), 2);
    assert_eq!(attempts(&apart, "c"), 0);
    assert_eq!(peak_overlap(&apart), 1);
    assert!(never_two_at_once(&apart));

    let together = log("start a\nstart b\nend a\nstart c\n");
    assert_eq!(peak_overlap(&together), 2);
    assert!(!never_two_at_once(&together));
    assert!(overlapped(&together, 2));
    assert!(!overlapped(&together, 3));

    assert!(spawns(&None).is_empty());
    assert!(unhandled_subcommands(&None).is_empty());
    assert_eq!(argv("-p\n--verbose\n"), vec!["-p", "--verbose"]);
}

#[test]
fn a_repository_is_made_by_argument_lists() {
    let mut repo = TempRepo::new("/tmp/rimaia-repo-1".to_string());
    assert_eq!(repo.path(), "/tmp/rimaia-repo-1/work tree");
    assert_eq!(repo.init()[0], vec!["init", "-b", "main"]);
    assert_eq!(repo.init().len(), 5);
    assert_eq!(
        repo.commit("src/lib.rs", "Add slugify"),
        vec![vec!["add", "--", "src/lib.rs"], vec!["commit", "-m", "Add slugify"]],
    );
    assert_eq!(repo.file("src/lib.rs"), "/tmp/rimaia-repo-1/work tree/src/lib.rs");
    assert_eq!(repo.branch("feature/parser"), vec!["switch", "-c", "feature/parser"]);
    assert_eq!(repo.remote_path(), None);

    let remote = "/tmp/rimaia-repo-1/origin.git";
    assert_eq!(
        repo.with_remote(),
        vec![
            vec!["clone", "--bare", ".", remote],
            vec!["remote", "add", "origin", remote],
            vec!["fetch", "origin"],
        ],
    );
    assert_eq!(repo.remote_path(), Some(remote));
    assert_eq!(
        repo.track("main"),
        vec!["branch", "--set-upstream-to", "origin/main", "main"],
    );
    assert_eq!(repo.head_sha(), vec!["rev-parse", "HEAD"]);
    assert_eq!(repo.current_branch(), vec!["rev-parse", "--abbrev-ref", "HEAD"]);
}

#[test]
fn a_failed_command_reports_both_streams() {
    let args = vec!["rev-parse".to_string(), "HEAD".to_string()];
    assert_eq!(git(&args, "/w", true, " abc \n", ""), Ok("abc".to_string()));
    assert_eq!(
        git(&args, "/w", false, "out", "err"),
        Err("git rev-parse HEAD failed in /w\n--- stdout ---\nout\n--- stderr ---\nerr"
            .to_string()),
    );
}

#[test]
fn the_preflight_stand_in_reports_a_version_and_a_sign_in() {
    let file = rimaia_core::testing::doctor::standin_claude("/tmp/queue", "agent", "Agent");
    assert_eq!(file.path, "/tmp/queue/agent-standin");
    assert!(file.executable);
    assert_eq!(
        file.contents,
        "#!/bin/sh\n\
         if [ \"$1\" = '--version' ]; then echo '2.1.234 (Agent)'; exit 0; fi\n\
         if [ \"$1\" = 'auth' ]; then echo '{\"loggedIn\": true}'; exit 0; fi\n\
         exit 0\n",
    );
}

#[test]
fn the_agent_that_there_is_has_a_row_of_its_own() {
    let agent = agent_stand_in("agent", "Agent");
    assert_eq!(agent.program, "agent");
    assert_eq!(agent.version, "2.1.234 (Agent)");
    assert!(agent.answers_auth);
    assert_eq!(agent.run_token, "-p");
    assert_eq!(
        agent.known_flags,
        "--version --output-format --verbose --session-id --resume --permission-mode \
         --strict-mcp-config --setting-sources --append-system-prompt --model --effort \
         --allowedTools --disallowedTools --mcp-config --max-turns",
    );
}
