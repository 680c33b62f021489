//! The stored defaults of a strategy, and whether a proposal waits for a human.

use vstd::prelude::*;
use vstd::string::*;

use crate::db::StrategyMode;
use crate::text::same;

verus! {

/// The settings key that holds the global defaults, and the prefix of every
/// repository's own key.
pub const STRATEGY_DEFAULT: &'static str = "strategy_default";

/// The settings key that holds whether a proposal waits for a human.
pub const STRATEGY_APPROVAL: &'static str = "strategy_approval";

/// The key that holds a repository's own defaults.
pub open spec fn repository_key(repository: Seq<char>) -> Seq<char> {
    "strategy_default"@ + "."@ + repository
}

/// The key that holds a repository's own defaults.
pub fn repository_default_key(repository_id: &str) -> (r: String)
    ensures
        r@ == repository_key(repository_id@),
{
    let mut key = "strategy_default".to_owned();
    key.append(".");
    key.append(repository_id);
    key
}

/// A default strategy: the global one, or one repository's.
#[derive(Debug, Clone, PartialEq, Eq)]
pub struct StrategyDefaults {
    /// The default mode is no opinion.
    pub mode: StrategyMode,
    pub model: Option<String>,
    pub effort: Option<String>,
}

/// No opinion.
pub open spec fn no_opinion() -> StrategyDefaults {
    StrategyDefaults { mode: StrategyMode::Default, model: None, effort: None }
}

impl Default for StrategyDefaults {
    /// No opinion.
    fn default() -> (r: StrategyDefaults)
        ensures
            r == no_opinion(),
    {
        StrategyDefaults { mode: StrategyMode::Default, model: None, effort: None }
    }
}

/// What reading a key that holds defaults came to.
#[derive(Debug, Clone, PartialEq, Eq)]
pub enum StoredDefaults {
    /// There is no such key.
    Absent,
    /// What it holds is no defaults.
    Unreadable,
    Read(StrategyDefaults),
}

/// The defaults a key means: no opinion, unless it holds one that can be read.
pub open spec fn meant(stored: StoredDefaults) -> StrategyDefaults {
    match stored {
        StoredDefaults::Read(defaults) => defaults,
        _ => no_opinion(),
    }
}

/// The defaults a key means.
pub fn defaults_at(stored: StoredDefaults) -> (r: StrategyDefaults)
    ensures
        r == meant(stored),
{
    match stored {
        StoredDefaults::Read(defaults) => defaults,
        StoredDefaults::Absent => StrategyDefaults::default(),
        StoredDefaults::Unreadable => StrategyDefaults::default(),
    }
}

/// Whether a planner's proposal runs on its own or waits for a human.
#[derive(Debug, Clone, Copy, PartialEq, Eq, Hash, Structural)]
pub enum StrategyApproval {
    /// The proposal is applied and the run follows it.
    Automatic,
    /// The proposal waits until a human accepts it.
    Manual,
}

impl Default for StrategyApproval {
    /// A proposal does not wait.
    fn default() -> (r: StrategyApproval)
        ensures
            r == StrategyApproval::Automatic,
    {
        StrategyApproval::Automatic
    }
}

/// What a stored approval means: only the exact word for manual waits.
pub open spec fn approval_of(stored: Seq<char>) -> StrategyApproval {
    if stored == "manual"@ {
        StrategyApproval::Manual
    } else {
        StrategyApproval::Automatic
    }
}

impl StrategyApproval {
    /// The stored spelling.
    pub open spec fn spelling(self) -> Seq<char> {
        match self {
            StrategyApproval::Automatic => "automatic"@,
            StrategyApproval::Manual => "manual"@,
        }
    }

    /// The stored spelling.
    pub fn as_str(self) -> (r: &'static str)
        ensures
            r@ == self.spelling(),
    {
        match self {
            StrategyApproval::Automatic => "automatic",
            StrategyApproval::Manual => "manual",
        }
    }

    /// Reads a stored value; anything unknown does not wait.
    pub fn from_stored(value: &str) -> (r: StrategyApproval)
        ensures
            r == approval_of(value@),
    {
        if same(value, "manual") {
            StrategyApproval::Manual
        } else {
            StrategyApproval::Automatic
        }
    }
}

/// Whether a proposal waits for a human. An absent key does not.
pub fn approval(stored: &Option<String>) -> (r: StrategyApproval)
    ensures
        r == (match *stored {
            Some(value) => approval_of(value@),
            None => StrategyApproval::Automatic,
        }),
{
    match stored {
        Some(value) => StrategyApproval::from_stored(value.as_str()),
        None => StrategyApproval::Automatic,
    }
}

/// A stored approval reads back as the one that was stored.
pub proof fn law_the_approval_reads_back(approval: StrategyApproval)
    ensures
        approval_of(approval.spelling()) == approval,
{
    reveal_strlit("automatic");
    reveal_strlit("manual");
    assert("automatic"@.len() != "manual"@.len());
}

/// Two repositories never share a key, and none has the global one.
pub proof fn law_every_default_has_its_own_key(one: Seq<char>, other: Seq<char>)
    ensures
        repository_key(one) == repository_key(other) ==> one == other,
        repository_key(one) != "strategy_default"@,
{
    let prefix = "strategy_default"@ + "."@;
    reveal_strlit(".");
    if repository_key(one) == repository_key(other) {
        assert(one =~= repository_key(one).subrange(
            prefix.len() as int,
            repository_key(one).len() as int,
        ));
        assert(other =~= repository_key(other).subrange(
            prefix.len() as int,
            repository_key(other).len() as int,
        ));
    }
    assert(repository_key(one).len() > "strategy_default"@.len());
}

/// A key means the defaults it holds, and no opinion where it holds none that
/// can be read; a proposal waits only where exactly that is stored.
pub proof fn law_a_key_means_what_it_holds(
    stored: StoredDefaults,
    r: StrategyDefaults,
    word: Option<String>,
    waits: StrategyApproval,
)
    requires
        call_ensures(defaults_at, (stored,), r),
        call_ensures(approval, (&word,), waits),
    ensures
        stored matches StoredDefaults::Read(defaults) ==> r == defaults,
        !(stored is Read) ==> r.mode == StrategyMode::Default && r.model is None && r.effort
            is None,
        waits == StrategyApproval::Manual <==> (word matches Some(value) && value@ == "manual"@),
{
}

} // verus!
