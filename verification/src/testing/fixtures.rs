//! The recorded streams of each agent: where they lie, which there are, and
//! what their lines are.
//!
//! Each agent's recordings lie in a directory of their own. What is in the
//! directories is handed in; lines come back unread, for a line that means
//! nothing is a recording too.

use vstd::prelude::*;
use vstd::string::*;

use crate::path;
use crate::path::beneath;
use crate::runner::provider::ProviderId;
use crate::text;
use crate::text::{chars_of, is_blank, lines, same, sort};

verus! {

/// Where the recordings lie under the root.
pub const FIXTURE_DIR: &'static str = "tests/fixtures";

/// How the name of a recording ends.
pub const FIXTURE_SUFFIX: &'static str = ".jsonl";

/// The directory name of an agent's recordings.
pub open spec fn corpus_name(provider: ProviderId) -> Seq<char> {
    match provider {
        ProviderId::ClaudeCode => "cli"@,
        ProviderId::Ledger => "ledger"@,
    }
}

/// The directory name of an agent's recordings.
pub fn corpus(provider: ProviderId) -> (r: &'static str)
    ensures
        r@ == corpus_name(provider),
{
    match provider {
        ProviderId::ClaudeCode => "cli",
        ProviderId::Ledger => "ledger",
    }
}

/// Where an agent's recordings lie.
pub open spec fn directory(root: Seq<char>, provider: ProviderId) -> Seq<char> {
    path::under(path::under(root, "tests/fixtures"@), corpus_name(provider))
}

/// The file name of a scenario.
pub open spec fn file_name(name: Seq<char>) -> Seq<char> {
    name + ".jsonl"@
}

/// Where an agent's recordings lie under `root`.
pub fn dir_for(root: &str, provider: ProviderId) -> (r: String)
    ensures
        r@ == directory(root@, provider),
{
    let all = beneath(root, FIXTURE_DIR);
    beneath(all.as_str(), corpus(provider))
}

/// Where the recordings of the agent that there is lie under `root`.
pub fn fixtures_dir(root: &str) -> (r: String)
    ensures
        r@ == directory(root@, ProviderId::ClaudeCode),
{
    dir_for(root, ProviderId::ClaudeCode)
}

/// The file name of a scenario.
fn file_of(name: &str) -> (r: String)
    ensures
        r@ == file_name(name@),
{
    let mut file = name.to_owned();
    file.append(FIXTURE_SUFFIX);
    file
}

/// Where a scenario of an agent is recorded.
pub fn path_for(root: &str, provider: ProviderId, name: &str) -> (r: String)
    ensures
        r@ == path::under(directory(root@, provider), file_name(name@)),
{
    let dir = dir_for(root, provider);
    let file = file_of(name);
    beneath(dir.as_str(), file.as_str())
}

/// Where a scenario of the agent that there is is recorded.
pub fn fixture_path(root: &str, name: &str) -> (r: String)
    ensures
        r@ == path::under(directory(root@, ProviderId::ClaudeCode), file_name(name@)),
{
    path_for(root, ProviderId::ClaudeCode, name)
}

/// One file of a directory.
#[derive(Debug, Clone, PartialEq, Eq)]
pub struct RecordedFile {
    pub name: String,
    pub contents: String,
}

/// What lies in each agent's directory, or that it has none.
#[derive(Debug, Clone, PartialEq, Eq)]
pub struct Corpora {
    pub claude: Option<Vec<RecordedFile>>,
    pub ledger: Option<Vec<RecordedFile>>,
}

/// The files of a directory that may be missing.
pub open spec fn files_in(listing: Option<Vec<RecordedFile>>) -> Seq<RecordedFile> {
    match listing {
        Some(files) => files@,
        None => seq![],
    }
}

impl Corpora {
    /// The files of an agent's directory.
    pub open spec fn files(self, provider: ProviderId) -> Seq<RecordedFile> {
        match provider {
            ProviderId::ClaudeCode => files_in(self.claude),
            ProviderId::Ledger => files_in(self.ledger),
        }
    }

    fn listing(&self, provider: ProviderId) -> (r: &Option<Vec<RecordedFile>>)
        ensures
            files_in(*r) == self.files(provider),
    {
        match provider {
            ProviderId::ClaudeCode => &self.claude,
            ProviderId::Ledger => &self.ledger,
        }
    }
}

/// The file name is that of a scenario: something, and then the suffix.
pub open spec fn is_scenario(file: Seq<char>) -> bool {
    file.len() > ".jsonl"@.len() && file.skip(file.len() - ".jsonl"@.len()) == ".jsonl"@
}

/// The scenario that a file name names.
pub open spec fn stem(file: Seq<char>) -> Seq<char> {
    file.take(file.len() - ".jsonl"@.len())
}

/// The scenarios among `files`, in their order.
pub open spec fn scenarios(files: Seq<RecordedFile>) -> Seq<Seq<char>>
    decreases files.len(),
{
    if files.len() == 0 {
        seq![]
    } else if is_scenario(files.last().name@) {
        scenarios(files.drop_last()).push(stem(files.last().name@))
    } else {
        scenarios(files.drop_last())
    }
}

/// The one list of the scenarios among `files`.
pub open spec fn listed(files: Seq<RecordedFile>) -> Seq<Seq<char>> {
    text::sorted(scenarios(files))
}

/// `names` are the scenarios among `files`, sorted: all of them, in order, and
/// so the one list there is of them.
pub open spec fn sorted_scenarios(names: Seq<String>, files: Seq<RecordedFile>) -> bool {
    &&& text::in_order(names)
    &&& text::views(names).to_multiset() == scenarios(files).to_multiset()
    &&& text::views(names) == listed(files)
}

fn stem_of(file: &str) -> (r: Option<String>)
    ensures
        match r {
            Some(name) => is_scenario(file@) && name@ == stem(file@),
            None => !is_scenario(file@),
        },
{
    let n: usize = chars_of(file).len();
    let k: usize = chars_of(FIXTURE_SUFFIX).len();
    if n <= k {
        return None;
    }
    let tail = file.substring_char(n - k, n);
    proof {
        assert(file@.skip(n - k) =~= file@.subrange(n - k, n as int));
        assert(file@.take(n - k) =~= file@.subrange(0, n - k));
    }
    if same(tail, FIXTURE_SUFFIX) {
        Some(file.substring_char(0, n - k).to_owned())
    } else {
        None
    }
}

proof fn lemma_views_multiset(a: Seq<String>, b: Seq<String>)
    requires
        a.to_multiset() == b.to_multiset(),
    ensures
        text::views(a).to_multiset() == text::views(b).to_multiset(),
    decreases a.len(),
{
    broadcast use vstd::seq_lib::group_to_multiset_ensures;

    assert(a.to_multiset().len() == a.len() && b.to_multiset().len() == b.len());
    if a.len() == 0 {
        assert(text::views(a) =~= text::views(b));
    } else {
        let last = a.last();
        assert(a.to_multiset().count(last) > 0);
        assert(b.contains(last));
        let k = b.index_of(last);
        assert(0 <= k < b.len() && b[k] == last);
        let fewer = a.drop_last();
        let others = b.remove(k);
        assert(a =~= fewer.push(last));
        assert(a.to_multiset() =~= fewer.to_multiset().insert(last));
        vstd::seq_lib::to_multiset_remove(b, k);
        assert(others.to_multiset() =~= b.to_multiset().remove(last));
        assert(fewer.to_multiset() =~= others.to_multiset());
        lemma_views_multiset(fewer, others);
        let seen = text::views(b);
        assert(text::views(others) =~= seen.remove(k));
        vstd::seq_lib::to_multiset_remove(seen, k);
        assert(text::views(a) =~= text::views(fewer).push(last@));
        assert(seen[k] == last@);
        assert(seen.to_multiset().count(last@) > 0);
        assert(text::views(a).to_multiset() =~= seen.to_multiset());
    }
}

/// The scenarios of a directory, sorted. A directory that is not there has
/// none.
pub fn scenario_names(listing: &Option<Vec<RecordedFile>>) -> (r: Vec<String>)
    ensures
        sorted_scenarios(r@, files_in(*listing)),
{
    let mut names: Vec<String> = Vec::new();
    let ghost all = files_in(*listing);
    assert(text::views(names@) =~= scenarios(all.take(0)));
    if let Some(files) = listing {
        let n: usize = files.len();
        let mut i: usize = 0;
        while i < n
            invariant
                i <= n,
                n == files@.len(),
                all == files@,
                text::views(names@) == scenarios(all.take(i as int)),
            decreases n - i,
        {
            proof {
                assert(all.take(i + 1).drop_last() =~= all.take(i as int));
                assert(all.take(i + 1).last() == all[i as int]);
            }
            let ghost before = text::views(names@);
            if let Some(name) = stem_of(files[i].name.as_str()) {
                names.push(name);
                assert(text::views(names@) =~= before.push(name@));
            }
            i += 1;
        }
        assert(all.take(n as int) =~= all);
    } else {
        assert(all.take(0) =~= all);
    }
    let ghost found = names@;
    let sorted = sort(names);
    proof {
        lemma_views_multiset(sorted@, found);
        text::lemma_in_order_is_sorted(sorted@, scenarios(all));
    }
    sorted
}

/// The lines that are not blank.
pub open spec fn told(lines: Seq<Seq<char>>) -> Seq<Seq<char>>
    decreases lines.len(),
{
    if lines.len() == 0 {
        seq![]
    } else if text::blank(lines.last()) {
        told(lines.drop_last())
    } else {
        told(lines.drop_last()).push(lines.last())
    }
}

/// The lines of a recording, without the blank ones.
pub fn read_lines(contents: &str) -> (r: Vec<String>)
    ensures
        text::views(r@) == told(text::lines_spec(contents@)),
{
    let all = lines(contents);
    let n: usize = all.len();
    let ghost seen = text::views(all@);
    let mut out: Vec<String> = Vec::new();
    let mut i: usize = 0;
    assert(text::views(out@) =~= told(seen.take(0)));
    while i < n
        invariant
            i <= n,
            n == all@.len(),
            seen == text::views(all@),
            text::views(out@) == told(seen.take(i as int)),
        decreases n - i,
    {
        proof {
            assert(seen.take(i + 1).drop_last() =~= seen.take(i as int));
            assert(seen.take(i + 1).last() == all@[i as int]@);
        }
        let ghost before = text::views(out@);
        if !is_blank(all[i].as_str()) {
            out.push(all[i].clone());
            assert(text::views(out@) =~= before.push(all@[i as int]@));
        }
        i += 1;
    }
    assert(seen.take(n as int) =~= seen);
    out
}

/// The first file called `file` stands at `i`.
pub open spec fn first_file(files: Seq<RecordedFile>, file: Seq<char>, i: int) -> bool {
    &&& 0 <= i < files.len()
    &&& files[i].name@ == file
    &&& forall|j: int| 0 <= j < i ==> (#[trigger] files[j]).name@ != file
}

/// Whether a scenario of an agent is recorded.
pub open spec fn recorded(corpora: Corpora, provider: ProviderId, name: Seq<char>) -> bool {
    exists|i: int| #[trigger] first_file(corpora.files(provider), file_name(name), i)
}

fn find_file<'a>(listing: &'a Option<Vec<RecordedFile>>, file: &str) -> (r: Option<&'a RecordedFile>)
    ensures
        match r {
            Some(found) => exists|i: int| #[trigger]
                first_file(files_in(*listing), file@, i) && *found == files_in(*listing)[i],
            None => forall|i: int| !#[trigger] first_file(files_in(*listing), file@, i),
        },
{
    if let Some(files) = listing {
        let n: usize = files.len();
        let mut i: usize = 0;
        while i < n
            invariant
                i <= n,
                n == files@.len(),
                files@ == files_in(*listing),
                forall|j: int| 0 <= j < i ==> (#[trigger] files@[j]).name@ != file@,
            decreases n - i,
        {
            if same(files[i].name.as_str(), file) {
                assert(first_file(files_in(*listing), file@, i as int));
                return Some(&files[i]);
            }
            i += 1;
        }
    }
    None
}

/// Whether a scenario of an agent is recorded.
pub fn has(corpora: &Corpora, provider: ProviderId, name: &str) -> (r: bool)
    ensures
        r == recorded(*corpora, provider, name@),
{
    find_file(corpora.listing(provider), file_of(name).as_str()).is_some()
}

/// The lines of one scenario of an agent, which has to be recorded.
pub fn lines_for(corpora: &Corpora, provider: ProviderId, name: &str) -> (r: Vec<String>)
    requires
        recorded(*corpora, provider, name@),
    ensures
        exists|i: int| #[trigger]
            first_file(corpora.files(provider), file_name(name@), i) && text::views(r@) == told(
                text::lines_spec(corpora.files(provider)[i].contents@),
            ),
{
    match find_file(corpora.listing(provider), file_of(name).as_str()) {
        Some(found) => read_lines(found.contents.as_str()),
        None => Vec::new(),
    }
}

/// Every scenario of an agent, sorted.
pub fn all_for(corpora: &Corpora, provider: ProviderId) -> (r: Vec<String>)
    ensures
        sorted_scenarios(r@, corpora.files(provider)),
{
    scenario_names(corpora.listing(provider))
}

/// The lines of one scenario of the agent that there is.
pub fn fixture_lines(corpora: &Corpora, name: &str) -> (r: Vec<String>)
    requires
        recorded(*corpora, ProviderId::ClaudeCode, name@),
    ensures
        exists|i: int| #[trigger]
            first_file(corpora.files(ProviderId::ClaudeCode), file_name(name@), i)
                && text::views(r@) == told(
                text::lines_spec(corpora.files(ProviderId::ClaudeCode)[i].contents@),
            ),
{
    lines_for(corpora, ProviderId::ClaudeCode, name)
}

/// Every scenario of the agent that there is, sorted.
pub fn all_fixtures(corpora: &Corpora) -> (r: Vec<String>)
    ensures
        sorted_scenarios(r@, corpora.files(ProviderId::ClaudeCode)),
{
    all_for(corpora, ProviderId::ClaudeCode)
}

proof fn lemma_first_file(files: Seq<RecordedFile>, file: Seq<char>, i: int)
    requires
        0 <= i < files.len(),
        files[i].name@ == file,
    ensures
        exists|k: int| #[trigger] first_file(files, file, k),
    decreases i,
{
    if first_file(files, file, i) {
    } else {
        let j = choose|j: int| 0 <= j < i && (#[trigger] files[j]).name@ == file;
        lemma_first_file(files, file, j);
    }
}

proof fn lemma_scenario_has_a_file(files: Seq<RecordedFile>, name: Seq<char>)
    requires
        scenarios(files).contains(name),
    ensures
        exists|i: int| 0 <= i < files.len() && (#[trigger] files[i]).name@ == file_name(name),
    decreases files.len(),
{
    let last = files.last().name@;
    let fewer = files.drop_last();
    let k = choose|k: int| 0 <= k < scenarios(files).len() && scenarios(files)[k] == name;
    if is_scenario(last) && k == scenarios(fewer).len() {
        assert(file_name(stem(last)) =~= last) by {
            assert(last =~= last.take(last.len() - ".jsonl"@.len()) + last.skip(
                last.len() - ".jsonl"@.len(),
            ));
        }
        assert(files[files.len() - 1].name@ == file_name(name));
    } else {
        assert(scenarios(fewer)[k] == name);
        assert(scenarios(fewer).contains(name));
        lemma_scenario_has_a_file(fewer, name);
        let i = choose|i: int|
            0 <= i < fewer.len() && (#[trigger] fewer[i]).name@ == file_name(name);
        assert(files[i].name@ == file_name(name));
    }
}

/// Every scenario that is listed is one that is recorded: its lines can be
/// asked for.
pub proof fn law_what_is_listed_can_be_read(
    corpora: Corpora,
    provider: ProviderId,
    names: Seq<String>,
    k: int,
)
    requires
        sorted_scenarios(names, corpora.files(provider)),
        0 <= k < names.len(),
    ensures
        recorded(corpora, provider, names[k]@),
{
    broadcast use vstd::seq_lib::group_to_multiset_ensures;

    let files = corpora.files(provider);
    let name = names[k]@;
    assert(text::views(names)[k] == name);
    assert(text::views(names).contains(name));
    assert(text::views(names).to_multiset().count(name) > 0);
    assert(scenarios(files).contains(name));
    lemma_scenario_has_a_file(files, name);
    let i = choose|i: int| 0 <= i < files.len() && (#[trigger] files[i]).name@ == file_name(name);
    lemma_first_file(files, file_name(name), i);
}

proof fn lemma_a_file_has_a_scenario(files: Seq<RecordedFile>, name: Seq<char>, i: int)
    requires
        0 <= i < files.len(),
        files[i].name@ == file_name(name),
        name.len() > 0,
    ensures
        scenarios(files).contains(name),
    decreases files.len(),
{
    let fewer = files.drop_last();
    let all = scenarios(files);
    if i == files.len() - 1 {
        let file = files.last().name@;
        assert(file.skip(file.len() - ".jsonl"@.len()) =~= ".jsonl"@);
        assert(stem(file) =~= name);
        assert(all[all.len() - 1] == name);
    } else {
        lemma_a_file_has_a_scenario(fewer, name, i);
        let k = choose|k: int| 0 <= k < scenarios(fewer).len() && scenarios(fewer)[k] == name;
        assert(all[k] == name);
    }
}

/// The list of an agent's directory names exactly what is recorded there: a
/// scenario is in it if and only if its file is.
pub proof fn law_the_list_is_what_is_recorded(
    corpora: Corpora,
    provider: ProviderId,
    names: Seq<String>,
    name: Seq<char>,
)
    requires
        sorted_scenarios(names, corpora.files(provider)),
        name.len() > 0,
    ensures
        text::views(names).contains(name) <==> recorded(corpora, provider, name),
{
    broadcast use vstd::seq_lib::group_to_multiset_ensures;

    let files = corpora.files(provider);
    if text::views(names).contains(name) {
        let k = choose|k: int| 0 <= k < text::views(names).len() && text::views(names)[k] == name;
        law_what_is_listed_can_be_read(corpora, provider, names, k);
    }
    if recorded(corpora, provider, name) {
        let i = choose|i: int| #[trigger] first_file(files, file_name(name), i);
        lemma_a_file_has_a_scenario(files, name, i);
        assert(text::views(names).to_multiset().count(name) > 0);
    }
}

/// One directory has one list, whoever asks for it: asking for every scenario of
/// the agent that there is, by its name or without one, gives the same list.
pub proof fn law_a_directory_has_one_list(
    corpora: Corpora,
    provider: ProviderId,
    one: Seq<String>,
    other: Seq<String>,
)
    requires
        sorted_scenarios(one, corpora.files(provider)),
        sorted_scenarios(other, corpora.files(provider)),
    ensures
        text::views(one) == text::views(other),
{
}

/// The order in which a directory was read does not show in its list: files that
/// hold the same scenarios have the same list.
pub proof fn law_the_list_forgets_the_order_of_the_files(
    files: Seq<RecordedFile>,
    again: Seq<RecordedFile>,
    one: Seq<String>,
    other: Seq<String>,
)
    requires
        scenarios(files).to_multiset() == scenarios(again).to_multiset(),
        sorted_scenarios(one, files),
        sorted_scenarios(other, again),
    ensures
        text::views(one) == text::views(other),
{
    text::lemma_in_order_is_sorted(one, scenarios(again));
}

/// An agent's list is read off its own directory alone: what lies in the other
/// agent's changes nothing of it, and where the two directories share no file
/// name the two lists share no scenario.
pub proof fn law_each_agent_reads_only_its_own_directory(
    corpora: Corpora,
    elsewhere: Option<Vec<RecordedFile>>,
    agent: Seq<String>,
    ledger: Seq<String>,
)
    requires
        sorted_scenarios(agent, corpora.files(ProviderId::ClaudeCode)),
        sorted_scenarios(ledger, corpora.files(ProviderId::Ledger)),
    ensures
        text::views(agent) == listed(
            (Corpora { ledger: elsewhere, ..corpora }).files(ProviderId::ClaudeCode),
        ),
        text::views(ledger) == listed(
            (Corpora { claude: elsewhere, ..corpora }).files(ProviderId::Ledger),
        ),
        (forall|i: int, j: int|
            0 <= i < corpora.files(ProviderId::ClaudeCode).len() && 0 <= j < corpora.files(
                ProviderId::Ledger,
            ).len() ==> (#[trigger] corpora.files(ProviderId::ClaudeCode)[i]).name@ != (
            #[trigger] corpora.files(ProviderId::Ledger)[j]).name@) ==> forall|name: Seq<char>|
            !(#[trigger] text::views(agent).contains(name) && text::views(ledger).contains(name)),
{
    assert forall|name: Seq<char>|
        text::views(agent).contains(name) && text::views(ledger).contains(name) implies exists|
        i: int,
        j: int,
    |
        0 <= i < corpora.files(ProviderId::ClaudeCode).len() && 0 <= j < corpora.files(
            ProviderId::Ledger,
        ).len() && (#[trigger] corpora.files(ProviderId::ClaudeCode)[i]).name@ == (
        #[trigger] corpora.files(ProviderId::Ledger)[j]).name@ by {
        let k = choose|k: int| 0 <= k < text::views(agent).len() && text::views(agent)[k] == name;
        let m = choose|m: int| 0 <= m < text::views(ledger).len() && text::views(ledger)[m] == name;
        law_what_is_listed_can_be_read(corpora, ProviderId::ClaudeCode, agent, k);
        law_what_is_listed_can_be_read(corpora, ProviderId::Ledger, ledger, m);
        let i = choose|i: int| #[trigger]
            first_file(corpora.files(ProviderId::ClaudeCode), file_name(name), i);
        let j = choose|j: int| #[trigger]
            first_file(corpora.files(ProviderId::Ledger), file_name(name), j);
        assert(corpora.files(ProviderId::ClaudeCode)[i].name@ == corpora.files(
            ProviderId::Ledger,
        )[j].name@);
    }
}

/// No two agents share a directory.
pub proof fn law_every_agent_has_its_own_directory(root: Seq<char>)
    ensures
        directory(root, ProviderId::ClaudeCode) != directory(root, ProviderId::Ledger),
{
    reveal_strlit("cli");
    reveal_strlit("ledger");
    reveal_strlit("/");
    let all = path::under(root, "tests/fixtures"@);
    assert("cli"@[0] as int != path::SEPARATOR);
    assert("ledger"@[0] as int != path::SEPARATOR);
    assert(directory(root, ProviderId::ClaudeCode).len() != directory(
        root,
        ProviderId::Ledger,
    ).len());
}

proof fn lemma_told(lines: Seq<Seq<char>>, says: spec_fn(Seq<char>) -> bool)
    requires
        forall|line: Seq<char>| #[trigger] says(line) <==> !text::blank(line),
    ensures
        told(lines) == lines.filter(says),
    decreases lines.len(),
{
    reveal(Seq::filter);
    if lines.len() > 0 {
        lemma_told(lines.drop_last(), says);
    }
}

/// Reading a scenario keeps every line that says something, as it is and in
/// order, and drops the blank ones.
pub proof fn law_reading_drops_only_blank_lines(contents: &str, r: Vec<String>, lines: Vec<String>)
    requires
        call_ensures(read_lines, (contents,), r),
        call_ensures(text::lines, (contents,), lines),
    ensures
        text::views(r@) == text::views(lines@).filter(|line: Seq<char>| !text::blank(line)),
{
    lemma_told(text::views(lines@), |line: Seq<char>| !text::blank(line));
}

/// A scenario is there exactly where its agent's directory holds a file of its
/// name.
pub proof fn law_a_scenario_is_there_with_its_file(
    corpora: Corpora,
    provider: ProviderId,
    name: &str,
    r: bool,
)
    requires
        call_ensures(has, (&corpora, provider, name), r),
    ensures
        r <==> exists|i: int|
            0 <= i < corpora.files(provider).len() && (#[trigger] corpora.files(
                provider,
            )[i]).name@ == name@ + ".jsonl"@,
{
    let files = corpora.files(provider);
    if exists|i: int|
        0 <= i < files.len() && (#[trigger] files[i]).name@ == name@ + ".jsonl"@ {
        let i = choose|i: int|
            0 <= i < files.len() && (#[trigger] files[i]).name@ == name@ + ".jsonl"@;
        lemma_some_first_file(files, file_name(name@), i);
    }
    if recorded(corpora, provider, name@) {
        let i = choose|i: int| #[trigger] first_file(files, file_name(name@), i);
        assert(files[i].name@ == name@ + ".jsonl"@);
    }
}

proof fn lemma_some_first_file(files: Seq<RecordedFile>, file: Seq<char>, i: int)
    requires
        0 <= i < files.len(),
        files[i].name@ == file,
    ensures
        exists|k: int| #[trigger] first_file(files, file, k),
    decreases i,
{
    if exists|j: int| 0 <= j < i && (#[trigger] files[j]).name@ == file {
        let j = choose|j: int| 0 <= j < i && (#[trigger] files[j]).name@ == file;
        lemma_some_first_file(files, file, j);
    } else {
        assert(first_file(files, file, i));
    }
}

} // verus!
