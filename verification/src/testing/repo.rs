//! A repository for tests: which commands make one, and in which order.
//!
//! Every command is a list of arguments and never a line for a shell, and the
//! work tree's path holds a space, so that whatever forgets it fails here.

use vstd::prelude::*;
use vstd::string::*;

use crate::path;
use crate::path::beneath;
use crate::text;
use crate::text::{join, trim};

verus! {

/// The branch a repository starts on.
pub const DEFAULT_BRANCH: &'static str = "main";

/// The directory of the work tree.
pub const WORK_TREE_DIR: &'static str = "work tree";

/// The directory of the bare remote.
pub const REMOTE_DIR: &'static str = "origin.git";

/// A repository in a directory of its own.
#[derive(Debug, Clone, PartialEq, Eq)]
pub struct TempRepo {
    root: String,
    work_tree: String,
    remote: Option<String>,
}

/// The arguments of one command.
pub open spec fn says(command: Vec<String>, words: Seq<Seq<char>>) -> bool {
    text::views(command@) == words
}

/// The arguments of several commands, in order.
pub open spec fn say(commands: Seq<Vec<String>>, words: Seq<Seq<Seq<char>>>) -> bool {
    &&& commands.len() == words.len()
    &&& forall|i: int| 0 <= i < commands.len() ==> says(#[trigger] commands[i], words[i])
}

fn push(args: &mut Vec<String>, word: &str)
    ensures
        text::views(final(args)@) == text::views(old(args)@).push(word@),
{
    args.push(word.to_owned());
    assert(text::views(args@) =~= text::views(old(args)@).push(word@));
}

fn two(one: &str, other: &str) -> (r: Vec<String>)
    ensures
        says(r, seq![one@, other@]),
{
    let mut args: Vec<String> = Vec::new();
    push(&mut args, one);
    push(&mut args, other);
    assert(text::views(args@) =~= seq![one@, other@]);
    args
}

fn three(one: &str, other: &str, last: &str) -> (r: Vec<String>)
    ensures
        says(r, seq![one@, other@, last@]),
{
    let mut args = two(one, other);
    push(&mut args, last);
    assert(text::views(args@) =~= seq![one@, other@, last@]);
    args
}

fn four(one: &str, other: &str, third: &str, last: &str) -> (r: Vec<String>)
    ensures
        says(r, seq![one@, other@, third@, last@]),
{
    let mut args = three(one, other, third);
    push(&mut args, last);
    assert(text::views(args@) =~= seq![one@, other@, third@, last@]);
    args
}

/// The commands that make an empty repository, with an identity of its own.
pub open spec fn init_words() -> Seq<Seq<Seq<char>>> {
    seq![
        seq!["init"@, "-b"@, "main"@],
        seq!["config"@, "user.name"@, "Rimaia Test"@],
        seq!["config"@, "core.autocrlf"@, "false"@],
        seq!["config"@, "user.email"@, "test@rimaia.invalid"@],
        seq!["config"@, "commit.gpgsign"@, "false"@],
    ]
}

/// The commands that commit one file.
pub open spec fn commit_words(path: Seq<char>, message: Seq<char>) -> Seq<Seq<Seq<char>>> {
    seq![seq!["add"@, "--"@, path], seq!["commit"@, "-m"@, message]]
}

/// The commands that make a bare clone and call it `origin`.
pub open spec fn remote_words(remote: Seq<char>) -> Seq<Seq<Seq<char>>> {
    seq![
        seq!["clone"@, "--bare"@, "."@, remote],
        seq!["remote"@, "add"@, "origin"@, remote],
        seq!["fetch"@, "origin"@],
    ]
}

/// The command that makes a branch follow `origin`.
pub open spec fn track_words(branch: Seq<char>) -> Seq<Seq<char>> {
    seq!["branch"@, "--set-upstream-to"@, "origin/"@ + branch, branch]
}

impl TempRepo {
    /// The directory everything lies in.
    pub closed spec fn home(self) -> Seq<char> {
        self.root@
    }

    /// The work tree.
    pub closed spec fn tree(self) -> Seq<char> {
        self.work_tree@
    }

    /// The bare remote, if there is one.
    pub closed spec fn origin(self) -> Option<Seq<char>> {
        match self.remote {
            Some(remote) => Some(remote@),
            None => None,
        }
    }

    /// A repository that is to lie in `root`.
    pub fn new(root: String) -> (r: TempRepo)
        ensures
            r.home() == root@,
            r.tree() == path::under(root@, "work tree"@),
            r.origin() is None,
    {
        let work_tree = beneath(root.as_str(), WORK_TREE_DIR);
        TempRepo { root, work_tree, remote: None }
    }

    /// The commands that make an empty repository.
    pub fn init(&self) -> (r: Vec<Vec<String>>)
        ensures
            say(r@, init_words()),
    {
        let mut out: Vec<Vec<String>> = Vec::new();
        out.push(three("init", "-b", DEFAULT_BRANCH));
        out.push(three("config", "user.name", "Rimaia Test"));
        out.push(three("config", "core.autocrlf", "false"));
        out.push(three("config", "user.email", "test@rimaia.invalid"));
        out.push(three("config", "commit.gpgsign", "false"));
        out
    }

    /// Where a file of the work tree lies.
    pub fn file(&self, path: &str) -> (r: String)
        ensures
            r@ == path::under(self.tree(), path@),
    {
        beneath(self.work_tree.as_str(), path)
    }

    /// The commands that commit one file, which was written before.
    pub fn commit(&self, path: &str, message: &str) -> (r: Vec<Vec<String>>)
        ensures
            say(r@, commit_words(path@, message@)),
    {
        let mut out: Vec<Vec<String>> = Vec::new();
        out.push(three("add", "--", path));
        out.push(three("commit", "-m", message));
        out
    }

    /// The command that makes a branch and switches to it.
    pub fn branch(&self, name: &str) -> (r: Vec<String>)
        ensures
            says(r, seq!["switch"@, "-c"@, name@]),
    {
        three("switch", "-c", name)
    }

    /// The commands that make a bare clone and call it `origin`. A repository
    /// has one remote at most.
    pub fn with_remote(&mut self) -> (r: Vec<Vec<String>>)
        requires
            old(self).origin() is None,
        ensures
            final(self).origin() == Some(path::under(old(self).home(), "origin.git"@)),
            final(self).home() == old(self).home(),
            final(self).tree() == old(self).tree(),
            say(r@, remote_words(path::under(old(self).home(), "origin.git"@))),
    {
        let remote = beneath(self.root.as_str(), REMOTE_DIR);
        let mut out: Vec<Vec<String>> = Vec::new();
        out.push(four("clone", "--bare", ".", remote.as_str()));
        out.push(four("remote", "add", "origin", remote.as_str()));
        out.push(two("fetch", "origin"));
        self.remote = Some(remote);
        out
    }

    /// The command that makes a branch follow `origin`.
    pub fn track(&self, branch: &str) -> (r: Vec<String>)
        ensures
            says(r, track_words(branch@)),
    {
        let mut upstream = "origin/".to_owned();
        upstream.append(branch);
        four("branch", "--set-upstream-to", upstream.as_str(), branch)
    }

    /// The work tree.
    pub fn path(&self) -> (r: &str)
        ensures
            r@ == self.tree(),
    {
        self.work_tree.as_str()
    }

    /// The bare remote, if there is one.
    pub fn remote_path(&self) -> (r: Option<&str>)
        ensures
            match r {
                Some(remote) => self.origin() == Some(remote@),
                None => self.origin() is None,
            },
    {
        match &self.remote {
            Some(remote) => Some(remote.as_str()),
            None => None,
        }
    }

    /// The command that says which commit is checked out.
    pub fn head_sha(&self) -> (r: Vec<String>)
        ensures
            says(r, seq!["rev-parse"@, "HEAD"@]),
    {
        two("rev-parse", "HEAD")
    }

    /// The command that says which branch is checked out.
    pub fn current_branch(&self) -> (r: Vec<String>)
        ensures
            says(r, seq!["rev-parse"@, "--abbrev-ref"@, "HEAD"@]),
    {
        three("rev-parse", "--abbrev-ref", "HEAD")
    }
}

/// What a command that failed is reported as.
pub open spec fn failure(
    args: Seq<Seq<char>>,
    dir: Seq<char>,
    stdout: Seq<char>,
    stderr: Seq<char>,
) -> Seq<char> {
    "git "@ + text::joined(args, " "@) + " failed in "@ + dir + "\n--- stdout ---\n"@ + stdout
        + "\n--- stderr ---\n"@ + stderr
}

/// What a command came to: its output without the white space around it, or a
/// report with both of its streams.
pub fn git(args: &Vec<String>, dir: &str, success: bool, stdout: &str, stderr: &str) -> (r: Result<
    String,
    String,
>)
    ensures
        r is Ok <==> success,
        match r {
            Ok(output) => output@ == text::trimmed(stdout@),
            Err(report) => report@ == failure(text::views(args@), dir@, stdout@, stderr@),
        },
{
    if success {
        return Ok(trim(stdout).to_owned());
    }
    let mut report = "git ".to_owned();
    report.append(join(args, " ").as_str());
    report.append(" failed in ");
    report.append(dir);
    report.append("\n--- stdout ---\n");
    report.append(stdout);
    report.append("\n--- stderr ---\n");
    report.append(stderr);
    Err(report)
}

/// The work tree's path holds a space, wherever the repository lies.
pub proof fn law_the_work_tree_holds_a_space(root: Seq<char>)
    ensures
        path::under(root, "work tree"@).contains(' '),
{
    reveal_strlit("work tree");
    let name = "work tree"@;
    assert(name[4] == ' ');
    let whole = path::under(root, name);
    assert(whole[whole.len() - name.len() + 4] == ' ');
}

/// A commit adds the one file and then commits with the message that was given.
pub proof fn law_a_commit_is_of_the_one_file(
    repo: TempRepo,
    path: &str,
    message: &str,
    r: Vec<Vec<String>>,
)
    requires
        call_ensures(TempRepo::commit, (&repo, path, message), r),
    ensures
        r@.len() == 2,
        text::views(r@[0]@) == seq!["add"@, "--"@, path@],
        text::views(r@[1]@) == seq!["commit"@, "-m"@, message@],
{
    assert(says(r@[0], commit_words(path@, message@)[0]));
    assert(says(r@[1], commit_words(path@, message@)[1]));
}

/// A remote is a bare clone of the work tree that the work tree then names its
/// origin and fetches from: the same path throughout.
pub proof fn law_a_remote_is_cloned_named_and_fetched(remote: Seq<char>)
    ensures
        remote_words(remote).len() == 3,
        remote_words(remote)[0] == seq!["clone"@, "--bare"@, "."@, remote],
        remote_words(remote)[1] == seq!["remote"@, "add"@, "origin"@, remote],
        remote_words(remote)[2] == seq!["fetch"@, "origin"@],
{
}

/// A branch tracks the branch of its own name at the origin.
pub proof fn law_a_branch_tracks_its_own_name(repo: TempRepo, branch: &str, r: Vec<String>)
    requires
        call_ensures(TempRepo::track, (&repo, branch), r),
    ensures
        text::views(r@) == seq!["branch"@, "--set-upstream-to"@, "origin/"@ + branch@, branch@],
{
}

} // verus!
