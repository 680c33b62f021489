//! A stand-in for an agent's command line: a script that replays recordings,
//! differently for each task and attempt.
//!
//! What is here is the words: the script, the directives it reads, and what its
//! own log says. Writing and running it happens elsewhere.

use vstd::prelude::*;
use vstd::string::*;

use crate::path;
use crate::path::beneath;
use crate::runner::provider::ProviderId;
use crate::testing::fixtures;
use crate::testing::fixtures::{fixture_path, read_lines};
use crate::text;
use crate::text::{decimal_text, join, lines, same, strip_prefix};

verus! {

/// Up to the file that holds the version probe.
pub const HEAD: &'static str = "#!/bin/sh\nif [ \"$1\" = '--version' ]; then\nif [ -f '";

/// Up to the file that says the sign-in was asked about.
pub const AND_SEEN: &'static str = "/version-hold' ] && [ -f '";

/// Up to the file that lets a held probe go.
pub const WAIT: &'static str = "/auth-seen' ]; then\nwhile [ ! -f '";

/// Up to the version.
pub const SAY_VERSION: &'static str = "/version-go' ]; do sleep 0.02; done\nfi\necho '";

/// Up to the sign-in branch.
pub const AFTER_VERSION: &'static str = "'; exit 0\nfi\n";

/// Up to the flags the stand-in knows.
pub const KNOWN: &'static str = "known='";

/// Up to the list of what fell through.
pub const FLAGS: &'static str = "'\n\
    for arg in \"$@\"; do\n\
    case \"$arg\" in\n\
    --*)\n\
    case \" $known \" in\n\
    *\" $arg \"*) ;;\n\
    *) printf 'unhandled %s\\n' \"$arg\" >> '";

/// Up to the word that starts a run.
pub const RUN_CHECK: &'static str = "/unhandled';;\nesac\n;;\nesac\ndone\nif [ \"$1\" != '";

/// Up to the list of what fell through, once more.
pub const NOT_A_RUN: &'static str = "' ]; then\nprintf 'unhandled %s\\n' \"$1\" >> '";

/// Up to the name of the program.
pub const UNKNOWN_WORD: &'static str = "/unhandled'\necho \"the stand-in ";

/// Up to the directory.
pub const REFUSAL: &'static str = " was asked for \\\"$1\\\", which it does not implement; teach it that subcommand in crates/core/src/testing/cli.rs rather than letting it fall through to a run\" >&2\n\
    exit 64\n\
    fi\n\
    dir='";

/// The run itself: count the attempt, note what came in, and do what the directive says.
pub const DISPATCH: &'static str = "'\n\
    task=\"$(basename \"$(pwd -P)\")\"\n\
    if [ -f \"$dir/spawns\" ]; then\n\
    attempt=$(( $(grep -c \"^start $task$\" \"$dir/spawns\") + 1 ))\n\
    else\n\
    attempt=1\n\
    fi\n\
    printf '%s\\n' \"$@\" > \"$dir/argv-$task-$attempt\"\n\
    cat > \"$dir/stdin-$task-$attempt\"\n\
    printf 'start %s\\n' \"$task\" >> \"$dir/spawns\"\n\
    plan=\"$dir/plan-$task-$attempt\"\n\
    if [ ! -f \"$plan\" ]; then plan=\"$dir/plan-$task\"; fi\n\
    if [ ! -f \"$plan\" ]; then plan=\"$dir/plan-default\"; fi\n\
    { read -r mode; read -r one; read -r two; read -r three; read -r four; } < \"$plan\"\n\
    case \"$mode\" in\n\
    replay)\n\
    cat \"$one\"\n\
    printf 'end %s\\n' \"$task\" >> \"$dir/spawns\"\n\
    exit \"$two\"\n\
    ;;\n\
    commit)\n\
    git commit --allow-empty -q -m \"$three\" >&2\n\
    cat \"$one\"\n\
    printf 'end %s\\n' \"$task\" >> \"$dir/spawns\"\n\
    exit \"$two\"\n\
    ;;\n\
    gate)\n\
    cat \"$one\"\n\
    while [ ! -f \"$three\" ]; do sleep 0.02; done\n\
    cat \"$two\"\n\
    printf 'end %s\\n' \"$task\" >> \"$dir/spawns\"\n\
    exit \"${four:-0}\"\n\
    ;;\n\
    resist)\n\
    trap '' TERM\n\
    cat \"$one\"\n\
    while [ ! -f \"$three\" ]; do sleep 0.02; done\n\
    cat \"$two\"\n\
    printf 'end %s\\n' \"$task\" >> \"$dir/spawns\"\n\
    exit \"${four:-0}\"\n\
    ;;\n\
    hang)\n\
    cat \"$one\"\n\
    sleep 300\n\
    ;;\n\
    esac\n";

/// One stand-in: what it is called, what it says its version is, whether it
/// answers a question about the sign-in, which word starts a run, and which
/// flags it knows.
#[derive(Debug, Clone, PartialEq, Eq)]
pub struct StandIn {
    pub program: String,
    pub version: String,
    pub answers_auth: bool,
    pub run_token: &'static str,
    pub known_flags: &'static str,
}

/// The version that the stand-in for the agent that there is reports.
pub const AGENT_VERSION: &'static str = "2.1.234";

/// The word that starts a run of the agent that there is.
pub const AGENT_RUN_TOKEN: &'static str = "-p";

/// The flags of the agent that there is.
pub const AGENT_FLAGS: &'static str = "--version --output-format --verbose --session-id --resume \
    --permission-mode --strict-mcp-config --setting-sources --append-system-prompt --model \
    --effort --allowedTools --disallowedTools --mcp-config --max-turns";

/// The flags of the agent that does not exist.
pub const LEDGER_FLAGS: &'static str = "--version --emit --continue --trust --preamble-file --engine \
    --diligence --step-budget";

/// How the agent that there is reports its version, under the name of the
/// product.
pub open spec fn reported(product: Seq<char>) -> Seq<char> {
    AGENT_VERSION@ + " ("@ + product + ")"@
}

/// How the agent that there is reports its version, under the name of the
/// product.
pub fn report_version(product: &str) -> (r: String)
    ensures
        r@ == reported(product@),
{
    let mut out = AGENT_VERSION.to_owned();
    out.append(" (");
    out.append(product);
    out.append(")");
    out
}

/// The stand-in for the agent that there is, whose program is called `program`
/// and whose product `product`.
pub open spec fn plays_agent(stand_in: StandIn, program: Seq<char>, product: Seq<char>) -> bool {
    &&& stand_in.program@ == program
    &&& stand_in.version@ == reported(product)
    &&& stand_in.answers_auth
    &&& stand_in.run_token@ == AGENT_RUN_TOKEN@
    &&& stand_in.known_flags@ == AGENT_FLAGS@
}

/// The stand-in for the agent that there is. It answers a question about the
/// sign-in, which a queue asks before it starts.
pub fn agent_stand_in(program: &str, product: &str) -> (r: StandIn)
    ensures
        plays_agent(r, program@, product@),
{
    StandIn {
        program: program.to_owned(),
        version: report_version(product),
        answers_auth: true,
        run_token: AGENT_RUN_TOKEN,
        known_flags: AGENT_FLAGS,
    }
}

/// The stand-in for the agent that does not exist.
pub open spec fn plays_ledger(stand_in: StandIn) -> bool {
    &&& stand_in.program@ == "ledger"@
    &&& stand_in.version@ == "0.9.4 (ledger)"@
    &&& !stand_in.answers_auth
    &&& stand_in.run_token@ == "run"@
    &&& stand_in.known_flags@ == LEDGER_FLAGS@
}

/// The stand-in for the agent that does not exist.
pub fn ledger_stand_in() -> (r: StandIn)
    ensures
        plays_ledger(r),
{
    StandIn {
        program: "ledger".to_owned(),
        version: "0.9.4 (ledger)".to_owned(),
        answers_auth: false,
        run_token: "run",
        known_flags: LEDGER_FLAGS,
    }
}

/// The branch that answers a question about the sign-in.
pub open spec fn auth_branch(dir: Seq<char>, answers: bool) -> Seq<char> {
    if answers {
        "if [ \"$1\" = 'auth' ]; then\n: > '"@ + dir
            + "/auth-seen'\necho '{\"loggedIn\": true}'; exit 0\nfi\n"@
    } else {
        ""@
    }
}

/// The whole script of a stand-in that works in `dir`.
pub open spec fn script(dir: Seq<char>, stand_in: StandIn) -> Seq<char> {
    HEAD@ + dir + AND_SEEN@ + dir + WAIT@ + dir + SAY_VERSION@ + stand_in.version@
        + AFTER_VERSION@ + auth_branch(dir, stand_in.answers_auth) + KNOWN@
        + stand_in.known_flags@ + FLAGS@ + dir + RUN_CHECK@ + stand_in.run_token@ + NOT_A_RUN@
        + dir + UNKNOWN_WORD@ + stand_in.program@ + REFUSAL@ + dir + DISPATCH@
}

fn auth_text(dir: &str, answers: bool) -> (r: String)
    ensures
        r@ == auth_branch(dir@, answers),
{
    if answers {
        let mut out = "if [ \"$1\" = 'auth' ]; then\n: > '".to_owned();
        out.append(dir);
        out.append("/auth-seen'\necho '{\"loggedIn\": true}'; exit 0\nfi\n");
        out
    } else {
        "".to_owned()
    }
}

fn script_text(dir: &str, stand_in: &StandIn) -> (r: String)
    ensures
        r@ == script(dir@, *stand_in),
{
    let mut out = HEAD.to_owned();
    out.append(dir);
    out.append(AND_SEEN);
    out.append(dir);
    out.append(WAIT);
    out.append(dir);
    out.append(SAY_VERSION);
    out.append(stand_in.version.as_str());
    out.append(AFTER_VERSION);
    out.append(auth_text(dir, stand_in.answers_auth).as_str());
    out.append(KNOWN);
    out.append(stand_in.known_flags);
    out.append(FLAGS);
    out.append(dir);
    out.append(RUN_CHECK);
    out.append(stand_in.run_token);
    out.append(NOT_A_RUN);
    out.append(dir);
    out.append(UNKNOWN_WORD);
    out.append(stand_in.program.as_str());
    out.append(REFUSAL);
    out.append(dir);
    out.append(DISPATCH);
    out
}

/// A file to be written.
#[derive(Debug, Clone, PartialEq, Eq)]
pub struct WrittenFile {
    pub path: String,
    pub contents: String,
    pub executable: bool,
}

/// `file` is an ordinary file at `path` that holds `contents`.
pub open spec fn holds(file: WrittenFile, path: Seq<char>, contents: Seq<char>) -> bool {
    file.path@ == path && file.contents@ == contents && !file.executable
}

/// A whole number in decimal, with a sign where it is negative.
pub open spec fn signed(n: int) -> Seq<char> {
    if n < 0 {
        "-"@ + text::decimal((-n) as nat)
    } else {
        text::decimal(n as nat)
    }
}

fn signed_text(n: i32) -> (r: String)
    ensures
        r@ == signed(n as int),
{
    let wide: i64 = n as i64;
    if wide < 0 {
        let mut out = "-".to_owned();
        out.append(decimal_text((-wide) as u64).as_str());
        out
    } else {
        decimal_text(wide as u64)
    }
}

/// A directive of five fields, one to a line.
pub open spec fn directive(
    mode: Seq<char>,
    one: Seq<char>,
    two: Seq<char>,
    three: Seq<char>,
    four: Seq<char>,
) -> Seq<char> {
    mode + "\n"@ + one + "\n"@ + two + "\n"@ + three + "\n"@ + four + "\n"@
}

fn directive_text(mode: &str, one: &str, two: &str, three: &str, four: &str) -> (r: String)
    ensures
        r@ == directive(mode@, one@, two@, three@, four@),
{
    let mut out = mode.to_owned();
    out.append("\n");
    out.append(one);
    out.append("\n");
    out.append(two);
    out.append("\n");
    out.append(three);
    out.append("\n");
    out.append(four);
    out.append("\n");
    out
}

/// Where the recording of a scenario lies.
pub open spec fn recording(root: Seq<char>, fixture: Seq<char>) -> Seq<char> {
    path::under(
        fixtures::directory(root, ProviderId::ClaudeCode),
        fixtures::file_name(fixture),
    )
}

/// One attempt of a task.
pub open spec fn attempt_key(task: Seq<char>, attempt: nat) -> Seq<char> {
    task + "-"@ + text::decimal(attempt)
}

fn attempt_text(task_id: &str, attempt: usize) -> (r: String)
    ensures
        r@ == attempt_key(task_id@, attempt as nat),
{
    let mut key = task_id.to_owned();
    key.append("-");
    key.append(decimal_text(attempt as u64).as_str());
    key
}

/// The first `head` of some lines, or the rest of them, each line ended.
pub open spec fn ended(lines: Seq<Seq<char>>) -> Seq<char> {
    text::joined(lines, "\n"@) + "\n"@
}

/// The files of a recording that is handed over in two pieces, and where its
/// gate is.
#[derive(Debug, Clone, PartialEq, Eq)]
pub struct Gated {
    pub files: Vec<WrittenFile>,
    pub gate: String,
}

/// The lines of a recording that say something.
pub open spec fn recorded_lines(contents: Seq<char>) -> Seq<Seq<char>> {
    fixtures::told(text::lines_spec(contents))
}

/// A stand-in in a directory of its own.
#[derive(Debug, Clone, PartialEq, Eq)]
pub struct FakeCli {
    pub dir: String,
    /// What stands in for the agent that there is.
    pub agent: StandIn,
}

impl FakeCli {
    /// A path in the stand-in's directory.
    pub open spec fn at(self, name: Seq<char>) -> Seq<char> {
        path::under(self.dir@, name)
    }

    /// The path of a task's first piece.
    pub open spec fn head_at(self, task: Seq<char>) -> Seq<char> {
        self.at("head-"@ + task + ".jsonl"@)
    }

    /// The path of a task's second piece.
    pub open spec fn rest_at(self, task: Seq<char>) -> Seq<char> {
        self.at("rest-"@ + task + ".jsonl"@)
    }

    /// The name of an agent's program.
    pub open spec fn program_name(self, provider: ProviderId) -> Seq<char> {
        match provider {
            ProviderId::ClaudeCode => self.agent.program@,
            ProviderId::Ledger => "ledger"@,
        }
    }

    /// A stand-in that works in `dir`.
    pub fn new(dir: String, agent: StandIn) -> (r: FakeCli)
        ensures
            r.dir == dir,
            r.agent == agent,
    {
        FakeCli { dir, agent }
    }

    /// What a stand-in starts with: the directive that holds where nothing else
    /// was said, and each agent's script.
    pub fn files(&self, root: &str) -> (r: Vec<WrittenFile>)
        ensures
            r@.len() == 3,
            holds(
                r@[0],
                self.at("plan-"@ + "default"@),
                directive("replay"@, recording(root@, "success"@), signed(0), ""@, ""@),
            ),
            r@[1].path@ == self.at(self.agent.program@),
            r@[1].contents@ == script(self.dir@, self.agent),
            r@[1].executable,
            exists|s: StandIn| #[trigger]
                plays_ledger(s) && r@[2].path@ == self.at("ledger"@) && r@[2].contents@ == script(
                    self.dir@,
                    s,
                ) && r@[2].executable,
    {
        let mut out: Vec<WrittenFile> = Vec::new();
        out.push(self.replays("default", root, "success", 0));
        out.push(self.write_script(&self.agent));
        out.push(self.write_script(&ledger_stand_in()));
        out
    }

    /// A path in the stand-in's directory.
    pub fn path(&self, name: &str) -> (r: String)
        ensures
            r@ == self.at(name@),
    {
        beneath(self.dir.as_str(), name)
    }

    /// The program to run.
    pub fn program(&self) -> (r: String)
        ensures
            r@ == self.at(self.agent.program@),
    {
        self.program_for(ProviderId::ClaudeCode)
    }

    /// The program that stands in for an agent's.
    pub fn program_for(&self, provider: ProviderId) -> (r: String)
        ensures
            r@ == self.at(self.program_name(provider)),
    {
        self.path(
            match provider {
                ProviderId::ClaudeCode => self.agent.program.as_str(),
                ProviderId::Ledger => "ledger",
            },
        )
    }

    /// A stand-in's script.
    pub fn write_script(&self, stand_in: &StandIn) -> (r: WrittenFile)
        ensures
            r.path@ == self.at(stand_in.program@),
            r.contents@ == script(self.dir@, *stand_in),
            r.executable,
    {
        WrittenFile {
            path: self.path(stand_in.program.as_str()),
            contents: script_text(self.dir.as_str(), stand_in),
            executable: true,
        }
    }

    fn named(&self, prefix: &str, key: &str, suffix: &str) -> (r: String)
        ensures
            r@ == self.at(prefix@ + key@ + suffix@),
    {
        let mut name = prefix.to_owned();
        name.append(key);
        name.append(suffix);
        self.path(name.as_str())
    }

    fn write_plan(&self, key: &str, mode: &str, one: &str, two: &str, three: &str, four: &str) -> (r:
        WrittenFile)
        ensures
            holds(
                r,
                self.at("plan-"@ + key@),
                directive(mode@, one@, two@, three@, four@),
            ),
    {
        let mut name = "plan-".to_owned();
        name.append(key);
        WrittenFile {
            path: self.path(name.as_str()),
            contents: directive_text(mode, one, two, three, four),
            executable: false,
        }
    }

    /// Replays a scenario for every attempt of a task, and exits with `code`.
    pub fn replays(&self, task_id: &str, root: &str, fixture: &str, code: i32) -> (r: WrittenFile)
        ensures
            holds(
                r,
                self.at("plan-"@ + task_id@),
                directive(
                    "replay"@,
                    recording(root@, fixture@),
                    signed(code as int),
                    ""@,
                    ""@,
                ),
            ),
    {
        self.replays_path(task_id, fixture_path(root, fixture).as_str(), code)
    }

    /// The same for a recording that lies anywhere.
    pub fn replays_path(&self, task_id: &str, recording: &str, code: i32) -> (r: WrittenFile)
        ensures
            holds(
                r,
                self.at("plan-"@ + task_id@),
                directive("replay"@, recording@, signed(code as int), ""@, ""@),
            ),
    {
        self.write_plan(task_id, "replay", recording, signed_text(code).as_str(), "", "")
    }

    /// Replays a scenario for one attempt of a task; attempts count from one.
    pub fn replays_on_attempt(
        &self,
        task_id: &str,
        attempt: usize,
        root: &str,
        fixture: &str,
        code: i32,
    ) -> (r: WrittenFile)
        ensures
            holds(
                r,
                self.at("plan-"@ + attempt_key(task_id@, attempt as nat)),
                directive(
                    "replay"@,
                    recording(root@, fixture@),
                    signed(code as int),
                    ""@,
                    ""@,
                ),
            ),
    {
        self.replays(attempt_text(task_id, attempt).as_str(), root, fixture, code)
    }

    /// Makes an empty commit for one attempt of a task, and then replays a
    /// scenario.
    pub fn commits_on_attempt(
        &self,
        task_id: &str,
        attempt: usize,
        message: &str,
        root: &str,
        fixture: &str,
        code: i32,
    ) -> (r: WrittenFile)
        ensures
            holds(
                r,
                self.at("plan-"@ + attempt_key(task_id@, attempt as nat)),
                directive(
                    "commit"@,
                    recording(root@, fixture@),
                    signed(code as int),
                    message@,
                    ""@,
                ),
            ),
    {
        self.write_plan(
            attempt_text(task_id, attempt).as_str(),
            "commit",
            fixture_path(root, fixture).as_str(),
            signed_text(code).as_str(),
            message,
            "",
        )
    }

    /// The two pieces of a recording: its first `head` lines, and the rest.
    pub fn split_path(&self, task_id: &str, contents: &str, head: usize) -> (r: (
        WrittenFile,
        WrittenFile,
    ))
        requires
            head < recorded_lines(contents@).len(),
        ensures
            holds(
                r.0,
                self.head_at(task_id@),
                ended(recorded_lines(contents@).take(head as int)),
            ),
            holds(
                r.1,
                self.rest_at(task_id@),
                ended(recorded_lines(contents@).skip(head as int)),
            ),
    {
        let all = read_lines(contents);
        let n: usize = all.len();
        let mut first: Vec<String> = Vec::new();
        let mut rest: Vec<String> = Vec::new();
        let ghost seen = text::views(all@);
        let mut i: usize = 0;
        while i < n
            invariant
                i <= n,
                n == all@.len(),
                head < n,
                seen == text::views(all@),
                i <= head ==> text::views(first@) == seen.take(i as int) && rest@.len() == 0,
                i > head ==> text::views(first@) == seen.take(head as int) && text::views(rest@)
                    == seen.subrange(head as int, i as int),
            decreases n - i,
        {
            let line = all[i].clone();
            if i < head {
                first.push(line);
                assert(text::views(first@) =~= seen.take(i + 1));
            } else {
                let ghost before = text::views(rest@);
                rest.push(line);
                assert(text::views(rest@) =~= before.push(line@));
                assert(text::views(rest@) =~= seen.subrange(head as int, i + 1));
            }
            i += 1;
        }
        assert(seen.subrange(head as int, n as int) =~= seen.skip(head as int));
        let mut head_text = join(&first, "\n");
        head_text.append("\n");
        let mut rest_text = join(&rest, "\n");
        rest_text.append("\n");
        (
            WrittenFile {
                path: self.named("head-", task_id, ".jsonl"),
                contents: head_text,
                executable: false,
            },
            WrittenFile {
                path: self.named("rest-", task_id, ".jsonl"),
                contents: rest_text,
                executable: false,
            },
        )
    }

    /// `gated` hands over the first `head` lines of a recording, waits for its
    /// gate, and hands over the rest.
    pub open spec fn waits_at(
        self,
        gated: Gated,
        mode: Seq<char>,
        task: Seq<char>,
        contents: Seq<char>,
        head: int,
        code: int,
    ) -> bool {
        let gate = self.at("gate-"@ + task);
        &&& gated.gate@ == gate
        &&& gated.files@.len() == 3
        &&& holds(gated.files@[0], self.head_at(task), ended(recorded_lines(contents).take(head)))
        &&& holds(gated.files@[1], self.rest_at(task), ended(recorded_lines(contents).skip(head)))
        &&& holds(
            gated.files@[2],
            self.at("plan-"@ + task),
            directive(mode, self.head_at(task), self.rest_at(task), gate, signed(code)),
        )
    }

    fn gated(&self, mode: &str, task_id: &str, contents: &str, head: usize, code: i32) -> (r: Gated)
        requires
            head < recorded_lines(contents@).len(),
        ensures
            self.waits_at(r, mode@, task_id@, contents@, head as int, code as int),
    {
        let (first, rest) = self.split_path(task_id, contents, head);
        let mut name = "gate-".to_owned();
        name.append(task_id);
        let gate = self.path(name.as_str());
        let plan = self.write_plan(
            task_id,
            mode,
            first.path.as_str(),
            rest.path.as_str(),
            gate.as_str(),
            signed_text(code).as_str(),
        );
        let mut files: Vec<WrittenFile> = Vec::new();
        files.push(first);
        files.push(rest);
        files.push(plan);
        Gated { files, gate }
    }

    /// Replays the first `head` lines of a recording, and the rest once its
    /// gate is open.
    pub fn gates(&self, task_id: &str, contents: &str, head: usize) -> (r: Gated)
        requires
            head < recorded_lines(contents@).len(),
        ensures
            self.waits_at(r, "gate"@, task_id@, contents@, head as int, 0),
    {
        self.gates_path(task_id, contents, head, 0)
    }

    /// The same, with the code that the run exits with.
    pub fn gates_path(&self, task_id: &str, contents: &str, head: usize, code: i32) -> (r: Gated)
        requires
            head < recorded_lines(contents@).len(),
        ensures
            self.waits_at(r, "gate"@, task_id@, contents@, head as int, code as int),
    {
        self.gated("gate", task_id, contents, head, code)
    }

    /// The same, for a run that a request to stop does not end.
    pub fn resists_sigterm(&self, task_id: &str, contents: &str, head: usize, code: i32) -> (r:
        Gated)
        requires
            head < recorded_lines(contents@).len(),
        ensures
            self.waits_at(r, "resist"@, task_id@, contents@, head as int, code as int),
    {
        self.gated("resist", task_id, contents, head, code)
    }

    /// Replays the first `head` lines of a recording, and goes nowhere from
    /// there.
    pub fn hangs(&self, task_id: &str, contents: &str, head: usize) -> (r: Vec<WrittenFile>)
        requires
            head < recorded_lines(contents@).len(),
        ensures
            r@.len() == 3,
            holds(
                r@[0],
                self.head_at(task_id@),
                ended(recorded_lines(contents@).take(head as int)),
            ),
            holds(
                r@[1],
                self.rest_at(task_id@),
                ended(recorded_lines(contents@).skip(head as int)),
            ),
            holds(
                r@[2],
                self.at("plan-"@ + task_id@),
                directive("hang"@, self.head_at(task_id@), ""@, ""@, ""@),
            ),
    {
        let (first, rest) = self.split_path(task_id, contents, head);
        let plan = self.write_plan(task_id, "hang", first.path.as_str(), "", "", "");
        let mut files: Vec<WrittenFile> = Vec::new();
        files.push(first);
        files.push(rest);
        files.push(plan);
        files
    }

    /// What holds every version probe from now on.
    pub fn hold_version_probe(&self) -> (r: WrittenFile)
        ensures
            holds(r, self.at("version-hold"@), ""@),
    {
        WrittenFile {
            path: self.path("version-hold"),
            contents: "".to_owned(),
            executable: false,
        }
    }

    /// What lets a held version probe go.
    pub fn release_version_probe(&self) -> (r: WrittenFile)
        ensures
            holds(r, self.at("version-go"@), ""@),
    {
        WrittenFile { path: self.path("version-go"), contents: "".to_owned(), executable: false }
    }
}

/// What opens a gate.
pub fn open_gate(gate: &str) -> (r: WrittenFile)
    ensures
        holds(r, gate@, "go\n"@),
{
    WrittenFile { path: gate.to_owned(), contents: "go\n".to_owned(), executable: false }
}

/// The lines of a log that may not be there yet.
pub open spec fn log_lines(log: Option<String>) -> Seq<Seq<char>> {
    match log {
        Some(contents) => text::lines_spec(contents@),
        None => seq![],
    }
}

/// The lines of a log that may not be there yet.
pub fn spawns(log: &Option<String>) -> (r: Vec<String>)
    ensures
        text::views(r@) == log_lines(*log),
{
    match log {
        Some(contents) => lines(contents.as_str()),
        None => {
            let none: Vec<String> = Vec::new();
            assert(text::views(none@) =~= seq![]);
            none
        },
    }
}

/// Everything a stand-in was asked for that it does not know. Nothing at all is
/// how it should be.
pub fn unhandled_subcommands(log: &Option<String>) -> (r: Vec<String>)
    ensures
        text::views(r@) == log_lines(*log),
{
    spawns(log)
}

/// The arguments of an attempt, as its log holds them: one to a line.
pub fn argv(log: &str) -> (r: Vec<String>)
    ensures
        text::views(r@) == text::lines_spec(log@),
{
    lines(log)
}

/// The line says that a process started.
pub open spec fn starting(line: Seq<char>) -> bool {
    text::occurs_at(line, "start "@, 0)
}

/// The line says that a process ended.
pub open spec fn ending(line: Seq<char>) -> bool {
    text::occurs_at(line, "end "@, 0)
}

/// Every line says that a process started or that one ended.
pub open spec fn readable(log: Seq<Seq<char>>) -> bool {
    forall|i: int| 0 <= i < log.len() ==> starting(#[trigger] log[i]) || ending(log[i])
}

/// The tasks that were started, in order, once per process.
pub open spec fn starts(log: Seq<Seq<char>>) -> Seq<Seq<char>>
    decreases log.len(),
{
    if log.len() == 0 {
        seq![]
    } else if starting(log.last()) {
        starts(log.drop_last()).push(log.last().skip("start "@.len() as int))
    } else {
        starts(log.drop_last())
    }
}

/// The tasks that were started, in order, once per process.
pub fn started(log: &Vec<String>) -> (r: Vec<String>)
    ensures
        text::views(r@) == starts(text::views(log@)),
{
    let n: usize = log.len();
    let ghost seen = text::views(log@);
    let mut out: Vec<String> = Vec::new();
    let mut i: usize = 0;
    assert(text::views(out@) =~= starts(seen.take(0)));
    while i < n
        invariant
            i <= n,
            n == log@.len(),
            seen == text::views(log@),
            text::views(out@) == starts(seen.take(i as int)),
        decreases n - i,
    {
        proof {
            assert(seen.take(i + 1).drop_last() =~= seen.take(i as int));
            assert(seen.take(i + 1).last() == log@[i as int]@);
        }
        let ghost before = text::views(out@);
        if let Some(task) = strip_prefix(log[i].as_str(), "start ") {
            out.push(task.to_owned());
            proof {
                let line = log@[i as int]@;
                assert(line.skip("start "@.len() as int) =~= line.subrange(
                    "start "@.len() as int,
                    line.len() as int,
                ));
                assert(text::views(out@) =~= before.push(task@));
            }
        }
        i += 1;
    }
    assert(seen.take(n as int) =~= seen);
    out
}

/// How often `wanted` is among `tasks`.
pub open spec fn times(tasks: Seq<Seq<char>>, wanted: Seq<char>) -> nat
    decreases tasks.len(),
{
    if tasks.len() == 0 {
        0
    } else {
        times(tasks.drop_last(), wanted) + if tasks.last() == wanted {
            1nat
        } else {
            0
        }
    }
}

/// How many processes a task has had.
pub fn attempts(log: &Vec<String>, task_id: &str) -> (r: usize)
    ensures
        r == times(starts(text::views(log@)), task_id@),
{
    let all = started(log);
    let n: usize = all.len();
    let ghost seen = text::views(all@);
    let mut count: usize = 0;
    let mut i: usize = 0;
    assert(seen.take(0).len() == 0);
    while i < n
        invariant
            i <= n,
            n == all@.len(),
            seen == text::views(all@),
            count == times(seen.take(i as int), task_id@),
            count <= i,
        decreases n - i,
    {
        proof {
            assert(seen.take(i + 1).drop_last() =~= seen.take(i as int));
            assert(seen.take(i + 1).last() == all@[i as int]@);
        }
        if same(all[i].as_str(), task_id) {
            count += 1;
        }
        i += 1;
    }
    assert(seen.take(n as int) =~= seen);
    count
}

/// How many processes are alive after a log. One that never says it ended is
/// still alive.
pub open spec fn alive(log: Seq<Seq<char>>) -> nat
    decreases log.len(),
{
    if log.len() == 0 {
        0
    } else {
        let before = alive(log.drop_last());
        if starting(log.last()) {
            before + 1
        } else if before > 0 {
            (before - 1) as nat
        } else {
            0
        }
    }
}

/// The most processes that were alive at one moment of a log.
pub open spec fn peak(log: Seq<Seq<char>>) -> nat
    decreases log.len(),
{
    if log.len() == 0 {
        0
    } else {
        let before = peak(log.drop_last());
        if alive(log) > before {
            alive(log)
        } else {
            before
        }
    }
}

/// The most processes that were alive at one moment.
pub fn peak_overlap(log: &Vec<String>) -> (r: usize)
    requires
        readable(text::views(log@)),
    ensures
        r == peak(text::views(log@)),
{
    let n: usize = log.len();
    let ghost seen = text::views(log@);
    let mut open: usize = 0;
    let mut most: usize = 0;
    let mut i: usize = 0;
    assert(seen.take(0).len() == 0);
    while i < n
        invariant
            i <= n,
            n == log@.len(),
            seen == text::views(log@),
            open == alive(seen.take(i as int)),
            most == peak(seen.take(i as int)),
            open <= i,
            open <= most,
        decreases n - i,
    {
        proof {
            assert(seen.take(i + 1).drop_last() =~= seen.take(i as int));
            assert(seen.take(i + 1).last() == log@[i as int]@);
        }
        if strip_prefix(log[i].as_str(), "start ").is_some() {
            open += 1;
            if open > most {
                most = open;
            }
        } else if open > 0 {
            open -= 1;
        }
        i += 1;
    }
    assert(seen.take(n as int) =~= seen);
    most
}

/// Whether exactly one process was ever alive at a time.
pub fn never_two_at_once(log: &Vec<String>) -> (r: bool)
    requires
        readable(text::views(log@)),
    ensures
        r == (peak(text::views(log@)) == 1),
{
    peak_overlap(log) == 1
}

/// Whether at least so many processes were alive at one moment.
pub fn overlapped(log: &Vec<String>, at_least: usize) -> (r: bool)
    requires
        readable(text::views(log@)),
    ensures
        r == (peak(text::views(log@)) >= at_least),
{
    peak_overlap(log) >= at_least
}

/// The peak is reached, and never passed.
pub proof fn law_the_peak_is_the_most_alive(log: Seq<Seq<char>>)
    ensures
        forall|k: int| 0 <= k <= log.len() ==> alive(#[trigger] log.take(k)) <= peak(log),
        exists|k: int| 0 <= k <= log.len() && alive(#[trigger] log.take(k)) == peak(log),
    decreases log.len(),
{
    if log.len() == 0 {
        assert(log.take(0) =~= log);
        assert(alive(log.take(0)) == peak(log));
    } else {
        let fewer = log.drop_last();
        law_the_peak_is_the_most_alive(fewer);
        assert forall|k: int| 0 <= k <= log.len() implies alive(#[trigger] log.take(k))
            <= peak(log) by {
            if k < log.len() {
                assert(log.take(k) =~= fewer.take(k));
            } else {
                assert(log.take(k) =~= log);
            }
        }
        let j = choose|k: int|
            0 <= k <= fewer.len() && alive(#[trigger] fewer.take(k)) == peak(fewer);
        assert(log.take(j) =~= fewer.take(j));
        assert(log.take(log.len() as int) =~= log);
        if peak(log) == peak(fewer) {
            assert(alive(log.take(j)) == peak(log));
        } else {
            assert(alive(log.take(log.len() as int)) == peak(log));
        }
    }
}

/// The starts that a log tells of are its lines that begin so, in order, each
/// without that beginning: one more line at its end adds itself exactly where it
/// tells of a start.
pub proof fn law_a_log_tells_of_each_start(log: Seq<Seq<char>>, task: Seq<char>, line: Seq<char>)
    ensures
        starts(log.push("start "@ + task)) == starts(log).push(task),
        !text::occurs_at(line, "start "@, 0) ==> starts(log.push(line)) == starts(log),
        starts(seq![]).len() == 0,
{
    let told = "start "@ + task;
    assert(log.push(told).drop_last() =~= log);
    assert(log.push(line).drop_last() =~= log);
    assert(told.subrange(0, "start "@.len() as int) =~= "start "@);
    assert(told.skip("start "@.len() as int) =~= task);
}

/// The attempts at a task are its starts, each counted once, and nobody else's.
pub proof fn law_an_attempt_is_a_start_of_the_task(
    log: Seq<Seq<char>>,
    task: Seq<char>,
    other: Seq<char>,
)
    ensures
        times(starts(log.push("start "@ + other)), task) == times(starts(log), task) + (if other
            == task {
            1nat
        } else {
            0
        }),
        times(seq![], task) == 0,
{
    law_a_log_tells_of_each_start(log, other, other);
    assert(starts(log).push(other).drop_last() =~= starts(log));
}

/// A start makes one more alive, and an end one fewer, but never fewer than
/// none.
pub proof fn law_starts_and_ends_are_counted(log: Seq<Seq<char>>, task: Seq<char>)
    ensures
        alive(log.push("start "@ + task)) == alive(log) + 1,
        alive(log) > 0 ==> alive(log.push("end "@ + task)) == alive(log) - 1,
        alive(log) == 0 ==> alive(log.push("end "@ + task)) == 0,
        alive(seq![]) == 0,
{
    let up = "start "@ + task;
    let down = "end "@ + task;
    assert(log.push(up).drop_last() =~= log);
    assert(log.push(down).drop_last() =~= log);
    assert(up.subrange(0, "start "@.len() as int) =~= "start "@);
    reveal_strlit("start ");
    reveal_strlit("end ");
    if text::occurs_at(down, "start "@, 0) {
        assert(down.subrange(0, "start "@.len() as int)[0] == "start "@[0]);
        assert(down[0] == "end "@[0]);
    }
}

} // verus!
