//! How many runs may be in flight, and how many of them in one repository.
//!
//! Reads are tolerant and writes are strict: a stored value that makes no sense
//! falls back to the narrow default, and a value that makes no sense is refused
//! when somebody asks to store it.

use vstd::prelude::*;
use vstd::string::*;

use crate::db::ScheduleMode;
use crate::error::{Error, ErrorCode};
use crate::scheduler::inflight::CONCURRENCY_CEILING;
use crate::text;
use crate::text::{decimal_text, parse_usize, same, trim};
use crate::textmap::TextMap;

verus! {

/// The settings key that holds the queue's mode.
pub const SCHEDULE_MODE: &'static str = "schedule_mode";

/// The settings key that holds how many runs parallel mode allows.
pub const MAX_CONCURRENCY: &'static str = "max_concurrency";

/// How many runs parallel mode allows where nothing usable is stored.
pub const DEFAULT_MAX_CONCURRENCY: usize = 2;

/// How many runs a repository holds where nothing usable is stored.
pub const DEFAULT_PER_REPOSITORY: usize = 1;

/// The numbers one pass of the queue is bounded by.
#[derive(Debug, Clone, PartialEq, Eq)]
pub struct Resolved {
    /// How many runs may be in flight, anywhere.
    pub global: usize,
    /// Each repository's own cap. A repository this does not name has the
    /// default one, and is never unbounded.
    pub per_repository: TextMap<usize>,
}

/// The cap that `caps` gives `repository`.
pub open spec fn cap_of(caps: Map<Seq<char>, usize>, repository: Seq<char>) -> usize {
    if caps.contains_key(repository) {
        caps[repository]
    } else {
        DEFAULT_PER_REPOSITORY
    }
}

impl Resolved {
    /// A repository's cap.
    pub fn for_repository(&self, repository_id: &str) -> (r: usize)
        ensures
            r == cap_of(self.per_repository@, repository_id@),
    {
        match self.per_repository.get(repository_id) {
            Some(cap) => *cap,
            None => DEFAULT_PER_REPOSITORY,
        }
    }
}

/// What the settings hold, with the bound a form needs.
#[derive(Debug, Clone, Copy, PartialEq, Eq, Structural)]
pub struct RunCapacity {
    pub mode: ScheduleMode,
    /// The stored limit, which sequential mode leaves alone.
    pub max_concurrency: usize,
    pub ceiling: usize,
}

/// What a repository's row says of its own limit.
#[derive(Debug, Clone, PartialEq, Eq)]
pub struct RepositoryLimit {
    pub id: String,
    pub name: String,
    pub max_concurrency: i64,
}

/// The mode that a stored text means: only the exact word for parallel allows
/// more than one run.
pub open spec fn mode_of(stored: Seq<char>) -> ScheduleMode {
    if stored == "parallel"@ {
        ScheduleMode::Parallel
    } else {
        ScheduleMode::Sequential
    }
}

/// The mode that the settings mean.
pub open spec fn mode(stored: Option<String>) -> ScheduleMode {
    match stored {
        Some(value) => mode_of(value@),
        None => ScheduleMode::Sequential,
    }
}

/// The limit that a stored text means.
pub open spec fn limit_of(stored: Seq<char>) -> usize {
    match text::unsigned_value(text::trimmed(stored)) {
        Some(value) => if value == 0 || value > usize::MAX {
            DEFAULT_MAX_CONCURRENCY
        } else if value > CONCURRENCY_CEILING {
            CONCURRENCY_CEILING
        } else {
            value as usize
        },
        None => DEFAULT_MAX_CONCURRENCY,
    }
}

/// The limit that the settings mean.
pub open spec fn limit(stored: Option<String>) -> usize {
    match stored {
        Some(value) => limit_of(value@),
        None => DEFAULT_MAX_CONCURRENCY,
    }
}

/// The cap that a repository's row means.
pub open spec fn usable_cap(stored: i64) -> usize {
    if stored < 1 {
        DEFAULT_PER_REPOSITORY
    } else if stored > CONCURRENCY_CEILING {
        CONCURRENCY_CEILING
    } else {
        stored as usize
    }
}

/// The caps that the repositories' rows mean, where a later row of the same id
/// wins.
pub open spec fn caps(repositories: Seq<RepositoryLimit>) -> Map<Seq<char>, usize>
    decreases repositories.len(),
{
    if repositories.len() == 0 {
        Map::empty()
    } else {
        caps(repositories.drop_last()).insert(
            repositories.last().id@,
            usable_cap(repositories.last().max_concurrency),
        )
    }
}

/// Reads a stored mode; anything unknown is one run at a time.
pub fn mode_from_stored(value: &str) -> (r: ScheduleMode)
    ensures
        r == mode_of(value@),
{
    if same(value, "parallel") {
        ScheduleMode::Parallel
    } else {
        ScheduleMode::Sequential
    }
}

/// The queue's mode. An absent key is sequential.
pub fn schedule_mode(stored: &Option<String>) -> (r: ScheduleMode)
    ensures
        r == mode(*stored),
{
    match stored {
        Some(value) => mode_from_stored(value.as_str()),
        None => ScheduleMode::Sequential,
    }
}

/// How many runs parallel mode allows: what is stored, held to the ceiling, or
/// the default for anything that is no positive number.
pub fn max_concurrency(stored: &Option<String>) -> (r: usize)
    ensures
        r == limit(*stored),
{
    match stored {
        Some(value) => match parse_usize(trim(value.as_str())) {
            Some(parsed) => if parsed == 0 {
                DEFAULT_MAX_CONCURRENCY
            } else if parsed > CONCURRENCY_CEILING {
                CONCURRENCY_CEILING
            } else {
                parsed
            },
            None => DEFAULT_MAX_CONCURRENCY,
        },
        None => DEFAULT_MAX_CONCURRENCY,
    }
}

/// What the settings hold.
pub fn configured(stored_mode: &Option<String>, stored_limit: &Option<String>) -> (r: RunCapacity)
    ensures
        r == (RunCapacity {
            mode: mode(*stored_mode),
            max_concurrency: limit(*stored_limit),
            ceiling: CONCURRENCY_CEILING,
        }),
{
    RunCapacity {
        mode: schedule_mode(stored_mode),
        max_concurrency: max_concurrency(stored_limit),
        ceiling: CONCURRENCY_CEILING,
    }
}

/// The refusal of a limit outside the range that has a meaning.
pub open spec fn limit_refused(value: usize) -> Seq<char> {
    "Rimaia will supervise between 1 and "@ + text::decimal(CONCURRENCY_CEILING as nat)
        + " runs at once, not "@ + text::decimal(value as nat)
        + ". To start nothing at all, pause the queue."@
}

/// What to store for a limit, refusing anything outside the range that has a
/// meaning.
pub fn set_max_concurrency(value: usize) -> (r: Result<String, Error>)
    ensures
        r is Ok <==> 1 <= value <= CONCURRENCY_CEILING,
        match r {
            Ok(stored) => stored@ == text::decimal(value as nat),
            Err(e) => e.says(ErrorCode::Invalid, limit_refused(value)),
        },
{
    if value < 1 || value > CONCURRENCY_CEILING {
        let mut message = "Rimaia will supervise between 1 and ".to_owned();
        message.append(decimal_text(CONCURRENCY_CEILING as u64).as_str());
        message.append(" runs at once, not ");
        message.append(decimal_text(value as u64).as_str());
        message.append(". To start nothing at all, pause the queue.");
        return Err(Error::invalid(message));
    }
    Ok(decimal_text(value as u64))
}

/// A repository's cap, held to the range that has a meaning.
pub fn usable_repository_concurrency(_name: &str, stored: i64) -> (r: usize)
    ensures
        r == usable_cap(stored),
{
    if stored < 1 {
        return DEFAULT_PER_REPOSITORY;
    }
    if stored > CONCURRENCY_CEILING as i64 {
        return CONCURRENCY_CEILING;
    }
    stored as usize
}

/// The numbers one pass of the queue is bounded by.
pub fn resolve(
    stored_mode: &Option<String>,
    stored_limit: &Option<String>,
    repositories: &Vec<RepositoryLimit>,
) -> (r: Resolved)
    ensures
        r.global == (match mode(*stored_mode) {
            ScheduleMode::Sequential => 1,
            ScheduleMode::Parallel => limit(*stored_limit),
        }),
        r.per_repository@ == caps(repositories@),
{
    let global: usize = match schedule_mode(stored_mode) {
        ScheduleMode::Sequential => 1,
        ScheduleMode::Parallel => max_concurrency(stored_limit),
    };
    let mut per_repository: TextMap<usize> = TextMap::new();
    let n: usize = repositories.len();
    let mut i: usize = 0;
    assert(repositories@.take(0).len() == 0);
    while i < n
        invariant
            i <= n,
            n == repositories.len(),
            per_repository@ == caps(repositories@.take(i as int)),
        decreases n - i,
    {
        proof {
            assert(repositories@.take(i + 1).drop_last() =~= repositories@.take(i as int));
            assert(repositories@.take(i + 1).last() == repositories@[i as int]);
        }
        per_repository.insert(
            repositories[i].id.clone(),
            usable_repository_concurrency(
                repositories[i].name.as_str(),
                repositories[i].max_concurrency,
            ),
        );
        i += 1;
    }
    assert(repositories@.take(n as int) =~= repositories@);
    Resolved { global, per_repository }
}

/// A stored mode reads back as the mode that was stored.
pub proof fn law_the_mode_reads_back(mode: ScheduleMode)
    ensures
        mode_of(mode.spelling()) == mode,
{
    reveal_strlit("sequential");
    reveal_strlit("parallel");
    assert("sequential"@.len() != "parallel"@.len());
}

/// Whatever is stored, the limit is at least one and at most the ceiling.
pub proof fn law_a_limit_is_always_usable(stored: Option<String>)
    ensures
        1 <= limit(stored) <= CONCURRENCY_CEILING,
{
}

/// Whatever its row says, a repository may hold at least one run and at most
/// the ceiling; so may one that has no row.
pub proof fn law_a_cap_is_always_usable(repositories: Seq<RepositoryLimit>, repository: Seq<char>)
    ensures
        1 <= cap_of(caps(repositories), repository) <= CONCURRENCY_CEILING,
    decreases repositories.len(),
{
    if repositories.len() > 0 {
        law_a_cap_is_always_usable(repositories.drop_last(), repository);
    }
}

/// A limit that was let through reads back as itself.
pub proof fn law_a_stored_limit_reads_back(value: usize)
    requires
        1 <= value <= CONCURRENCY_CEILING,
    ensures
        limit_of(text::decimal(value as nat)) == value,
{
    text::lemma_decimal_reads_back(value as nat);
    let d = text::decimal(value as nat);
    assert(text::is_digit(d[0]));
    assert(text::is_digit(d[d.len() - 1]));
    assert(text::trimmed(d) == d);
}

/// Only the exact word allows more than one run at a time.
pub proof fn law_only_the_word_parallel_is_parallel(stored: Option<String>, r: ScheduleMode)
    requires
        call_ensures(schedule_mode, (&stored,), r),
    ensures
        r == ScheduleMode::Parallel <==> (stored matches Some(value) && value@ == "parallel"@),
{
}

/// The limit is the stored number held to the ceiling, and two where no positive
/// number is stored.
pub proof fn law_the_limit_is_what_is_stored(stored: Option<String>, r: usize)
    requires
        call_ensures(max_concurrency, (&stored,), r),
    ensures
        stored matches Some(value) ==> (text::unsigned_value(text::trimmed(value@)) matches Some(n)
            ==> {
            &&& 1 <= n <= CONCURRENCY_CEILING ==> r == n
            &&& CONCURRENCY_CEILING < n <= usize::MAX ==> r == CONCURRENCY_CEILING
            &&& n == 0 || n > usize::MAX ==> r == 2
        }),
        !(stored matches Some(value) && text::unsigned_value(text::trimmed(value@)) is Some) ==> r
            == 2,
{
}

/// A repository's cap is what its row says, held between one and the ceiling.
pub proof fn law_a_cap_is_what_its_row_says(name: &str, stored: i64, r: usize)
    requires
        call_ensures(usable_repository_concurrency, (name, stored), r),
    ensures
        1 <= stored <= CONCURRENCY_CEILING ==> r == stored,
        stored < 1 ==> r == 1,
        stored > CONCURRENCY_CEILING ==> r == CONCURRENCY_CEILING,
{
}

proof fn lemma_caps(repositories: Seq<RepositoryLimit>, repository: Seq<char>)
    ensures
        caps(repositories).contains_key(repository) <==> exists|i: int|
            0 <= i < repositories.len() && (#[trigger] repositories[i]).id@ == repository,
        forall|i: int|
            0 <= i < repositories.len() && (#[trigger] repositories[i]).id@ == repository && (
            forall|j: int|
                i < j < repositories.len() ==> (#[trigger] repositories[j]).id@ != repository)
                ==> caps(repositories)[repository] == usable_cap(repositories[i].max_concurrency),
    decreases repositories.len(),
{
    if repositories.len() > 0 {
        let fewer = repositories.drop_last();
        let last = repositories.len() - 1;
        lemma_caps(fewer, repository);
        assert forall|i: int| 0 <= i < fewer.len() implies #[trigger] fewer[i] == repositories[i] by {}
        if repositories[last].id@ != repository {
            if caps(fewer).contains_key(repository) {
                let i = choose|i: int| 0 <= i < fewer.len() && (#[trigger] fewer[i]).id@ == repository;
                assert(repositories[i].id@ == repository);
            }
            if exists|i: int|
                0 <= i < repositories.len() && (#[trigger] repositories[i]).id@ == repository {
                let i = choose|i: int|
                    0 <= i < repositories.len() && (#[trigger] repositories[i]).id@ == repository;
                assert(fewer[i].id@ == repository);
            }
            assert forall|i: int|
                0 <= i < repositories.len() && (#[trigger] repositories[i]).id@ == repository && (
                forall|j: int|
                    i < j < repositories.len() ==> (#[trigger] repositories[j]).id@
                        != repository) implies caps(repositories)[repository] == usable_cap(
                repositories[i].max_concurrency,
            ) by {
                assert(fewer[i].id@ == repository);
                assert forall|j: int| i < j < fewer.len() implies (#[trigger] fewer[j]).id@
                    != repository by {
                    assert(repositories[j].id@ != repository);
                }
            }
        } else {
            assert forall|i: int|
                0 <= i < repositories.len() && (#[trigger] repositories[i]).id@ == repository && (
                forall|j: int|
                    i < j < repositories.len() ==> (#[trigger] repositories[j]).id@
                        != repository) implies i == last by {}
        }
    }
}

/// A pass is bounded by one run where the mode is sequential and by the limit
/// where it is parallel, and in each repository by what its own last row says;
/// a repository without a row holds one.
pub proof fn law_a_pass_is_bounded_as_the_settings_say(
    stored_mode: Option<String>,
    stored_limit: Option<String>,
    repositories: Vec<RepositoryLimit>,
    r: Resolved,
    mode: ScheduleMode,
    limit: usize,
    repository: &str,
    cap: usize,
)
    requires
        call_ensures(resolve, (&stored_mode, &stored_limit, &repositories), r),
        call_ensures(schedule_mode, (&stored_mode,), mode),
        call_ensures(max_concurrency, (&stored_limit,), limit),
        call_ensures(Resolved::for_repository, (&r, repository), cap),
    ensures
        mode == ScheduleMode::Sequential ==> r.global == 1,
        mode == ScheduleMode::Parallel ==> r.global == limit,
        (forall|i: int|
            0 <= i < repositories@.len() ==> (#[trigger] repositories@[i]).id@ != repository@) ==> cap
            == 1,
        forall|i: int|
            0 <= i < repositories@.len() && (#[trigger] repositories@[i]).id@ == repository@ && (
            forall|j: int|
                i < j < repositories@.len() ==> (#[trigger] repositories@[j]).id@ != repository@)
                ==> {
                let said = repositories@[i].max_concurrency;
                &&& 1 <= said <= CONCURRENCY_CEILING ==> cap == said
                &&& said < 1 ==> cap == 1
                &&& said > CONCURRENCY_CEILING ==> cap == CONCURRENCY_CEILING
            },
{
    lemma_caps(repositories@, repository@);
}

/// A limit is stored exactly where it is between one and the ceiling, and reads
/// back as itself.
pub proof fn law_a_limit_is_stored_to_be_read(
    value: usize,
    r: Result<String, Error>,
    back: usize,
)
    requires
        call_ensures(set_max_concurrency, (value,), r),
        r matches Ok(stored) ==> call_ensures(max_concurrency, (&Some(stored),), back),
    ensures
        r is Ok <==> value > 0 && value <= CONCURRENCY_CEILING,
        r is Ok ==> back == value,
        r matches Err(e) ==> e.code == ErrorCode::Invalid,
{
    if 1 <= value <= CONCURRENCY_CEILING {
        law_a_stored_limit_reads_back(value);
    }
}

/// What the settings hold is what they are read as, part by part.
pub proof fn law_the_settings_are_read_part_by_part(
    stored_mode: Option<String>,
    stored_limit: Option<String>,
    r: RunCapacity,
    mode: ScheduleMode,
    limit: usize,
)
    requires
        call_ensures(configured, (&stored_mode, &stored_limit), r),
        call_ensures(schedule_mode, (&stored_mode,), mode),
        call_ensures(max_concurrency, (&stored_limit,), limit),
    ensures
        r.mode == mode,
        r.max_concurrency == limit,
        r.ceiling == CONCURRENCY_CEILING,
{
}

} // verus!
