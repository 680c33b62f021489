//! The choices the strategy dropdowns offer, and the planner's own budget.

use vstd::prelude::*;
use vstd::string::*;

use crate::error::{Error, ErrorCode};
use crate::text;
use crate::text::trim;

verus! {

/// The settings key that holds the catalogue.
pub const STRATEGY_CATALOGUE: &'static str = "strategy_catalogue";

/// How many turns a planner run may take before it is cut off.
pub const DEFAULT_PLANNER_MAX_TURNS: u32 = 6;

/// One choice: the value a flag gets, and the word a reader sees.
#[derive(Debug, Clone, PartialEq, Eq)]
pub struct CatalogueEntry {
    pub id: String,
    pub label: String,
}

/// What a planner run may spend.
#[derive(Debug, Clone, PartialEq, Eq)]
pub struct PlannerBudget {
    pub model: Option<String>,
    pub effort: Option<String>,
    pub max_turns: u32,
}

/// No model, no effort: the CLI decides.
pub open spec fn neutral_budget() -> PlannerBudget {
    PlannerBudget { model: None, effort: None, max_turns: DEFAULT_PLANNER_MAX_TURNS }
}

/// How many turns a planner run may take where nothing says.
pub fn default_planner_max_turns() -> (r: u32)
    ensures
        r == DEFAULT_PLANNER_MAX_TURNS,
{
    DEFAULT_PLANNER_MAX_TURNS
}

impl Default for PlannerBudget {
    /// No model, no effort: the CLI decides.
    fn default() -> (r: PlannerBudget)
        ensures
            r == neutral_budget(),
    {
        PlannerBudget { model: None, effort: None, max_turns: default_planner_max_turns() }
    }
}

/// Everything the dropdowns and the planner read.
#[derive(Debug, Clone, PartialEq, Eq)]
pub struct Catalogue {
    pub models: Vec<CatalogueEntry>,
    pub efforts: Vec<CatalogueEntry>,
    pub planner: PlannerBudget,
}

impl Default for Catalogue {
    /// No choices, and a planner with no opinion.
    fn default() -> (r: Catalogue)
        ensures
            r.models@.len() == 0,
            r.efforts@.len() == 0,
            r.planner == neutral_budget(),
    {
        Catalogue { models: Vec::new(), efforts: Vec::new(), planner: PlannerBudget::default() }
    }
}

/// The catalogue as it was written: a field that was left out is told apart
/// from one that was written empty.
#[derive(Debug, Clone, PartialEq, Eq)]
pub struct RawCatalogue {
    pub models: Option<Vec<CatalogueEntry>>,
    pub efforts: Option<Vec<CatalogueEntry>>,
    pub planner: Option<PlannerBudget>,
}

/// What reading the catalogue's key came to.
#[derive(Debug, Clone, PartialEq, Eq)]
pub enum StoredCatalogue {
    /// There is no such key.
    Absent,
    /// What it holds is no catalogue.
    Unreadable,
    Read(RawCatalogue),
}

/// What was written, or the default where nothing was.
pub open spec fn written_or<T>(written: Option<T>, default: T) -> T {
    match written {
        Some(value) => value,
        None => default,
    }
}

/// The catalogue a document means: each field as it was written, even where it
/// was written empty, and the provider's own where it was left out.
pub open spec fn resolved(raw: RawCatalogue, default: Catalogue) -> Catalogue {
    Catalogue {
        models: written_or(raw.models, default.models),
        efforts: written_or(raw.efforts, default.efforts),
        planner: written_or(raw.planner, default.planner),
    }
}

/// The catalogue a document means.
pub fn resolve(raw: RawCatalogue, default: Catalogue) -> (r: Catalogue)
    ensures
        r == resolved(raw, default),
{
    Catalogue {
        models: match raw.models {
            Some(models) => models,
            None => default.models,
        },
        efforts: match raw.efforts {
            Some(efforts) => efforts,
            None => default.efforts,
        },
        planner: match raw.planner {
            Some(planner) => planner,
            None => default.planner,
        },
    }
}

/// The configured catalogue, or the provider's own where none can be read.
pub fn catalogue(stored: StoredCatalogue, default: Catalogue) -> (r: Catalogue)
    ensures
        r == (match stored {
            StoredCatalogue::Read(raw) => resolved(raw, default),
            _ => default,
        }),
{
    match stored {
        StoredCatalogue::Read(raw) => resolve(raw, default),
        StoredCatalogue::Absent => default,
        StoredCatalogue::Unreadable => default,
    }
}

/// The text to store for a catalogue that was typed as `json`, where `parsed`
/// is what reading the trimmed text came to.
///
/// What is stored is the text itself and no new rendering of it. A text that is
/// no catalogue is refused with the reader's own words.
pub fn set_catalogue(json: &str, parsed: Result<RawCatalogue, String>) -> (r: Result<String, Error>)
    ensures
        r is Ok <==> parsed is Ok,
        r matches Ok(stored) ==> stored@ == text::trimmed(json@),
        r matches Err(e) ==> (parsed matches Err(message) && e.says(
            ErrorCode::Invalid,
            "the catalogue is not valid JSON: "@ + message@,
        )),
{
    match parsed {
        Ok(_) => Ok(trim(json).to_owned()),
        Err(message) => {
            let mut sentence = "the catalogue is not valid JSON: ".to_owned();
            sentence.append(message.as_str());
            Err(Error::invalid(sentence))
        },
    }
}

/// A list that was written empty stays empty, and a list that was left out is
/// the provider's.
pub proof fn law_written_empty_is_not_left_out(raw: RawCatalogue, default: Catalogue)
    ensures
        raw.models matches Some(models) ==> resolved(raw, default).models == models,
        raw.models is None ==> resolved(raw, default).models == default.models,
        raw.efforts matches Some(efforts) ==> resolved(raw, default).efforts == efforts,
        raw.efforts is None ==> resolved(raw, default).efforts == default.efforts,
{
}

/// A catalogue that can be read says what it says, field by field, and leaves
/// the rest to the provider's own; one that cannot be read, or is not there, is
/// the provider's own altogether.
pub proof fn law_a_catalogue_says_what_was_written(
    stored: StoredCatalogue,
    default: Catalogue,
    r: Catalogue,
)
    requires
        call_ensures(catalogue, (stored, default), r),
    ensures
        !(stored is Read) ==> r == default,
        stored matches StoredCatalogue::Read(raw) ==> {
            &&& raw.models matches Some(models) ==> r.models == models
            &&& raw.models is None ==> r.models == default.models
            &&& raw.efforts matches Some(efforts) ==> r.efforts == efforts
            &&& raw.efforts is None ==> r.efforts == default.efforts
            &&& raw.planner matches Some(planner) ==> r.planner == planner
            &&& raw.planner is None ==> r.planner == default.planner
        },
{
}

/// A catalogue is stored exactly where it can be read, and as it was written but
/// for the white space around it.
pub proof fn law_a_catalogue_is_stored_where_it_can_be_read(
    json: &str,
    parsed: Result<RawCatalogue, String>,
    r: Result<String, Error>,
)
    requires
        call_ensures(set_catalogue, (json, parsed), r),
    ensures
        r is Ok <==> parsed is Ok,
        r matches Ok(stored) ==> stored@ == text::trimmed(json@),
        r matches Err(e) ==> e.code == ErrorCode::Invalid && exists|i: int| #[trigger]
            text::occurs_at(e.message@, parsed->Err_0@, i),
{
    if let Err(e) = r {
        let head = "the catalogue is not valid JSON: "@;
        let said = parsed->Err_0@;
        assert(e.message@ =~= head + said + seq![]);
        text::lemma_stands_between(head, said, seq![]);
        assert(text::occurs_at(e.message@, said, head.len() as int));
    }
}

} // verus!
