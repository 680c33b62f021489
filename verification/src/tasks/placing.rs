//! Where a card or a link lands among its neighbours.
//!
//! The positions themselves are numbers the store keeps; what is decided here
//! is which neighbours count, when there is no room, and that a list is
//! renumbered at most once before the drop is given up.

use vstd::prelude::*;
use vstd::string::*;

use crate::db::Position;
use crate::error::{Error, ErrorCode};

verus! {

/// What is being placed.
#[derive(Debug, Clone, Copy, PartialEq, Eq, Structural)]
pub enum Noun {
    /// A card, in a column of its repository.
    Task,
    /// A link, on its task.
    Link,
}

/// Whether there is a position between two neighbours.
#[derive(Debug, Clone, Copy, PartialEq, Eq, Structural)]
pub enum Placement {
    At(Position),
    /// There is none: the list has to be renumbered first.
    NeedsRebalance,
}

/// A position that was found, and every id that was renumbered on the way.
#[derive(Debug, Clone, PartialEq, Eq)]
pub struct Placed {
    pub position: Position,
    pub rebalanced: Vec<String>,
}

/// The position of the only item of a list.
pub open spec fn start() -> Position {
    Position { bits: 0 }
}

/// What placing does next.
#[derive(Debug, Clone, PartialEq, Eq)]
pub enum PlacingStep {
    /// Ask whether the list holds anything else.
    CheckOthers,
    /// Find a position between these two, either of which may be the edge.
    Compute { above: Option<Position>, below: Option<Position> },
    /// Renumber the list, then read the neighbours again.
    Rebalance,
    Done(Placed),
    Refuse(Error),
}

/// One neighbour a drop may name, with where it was found in the list.
#[derive(Debug, Clone, PartialEq, Eq)]
pub struct Neighbour {
    pub id: String,
    /// Nothing where the list does not hold it.
    pub found: Option<Position>,
}

/// The refusal of a neighbour that the list does not hold.
pub open spec fn stranger(noun: Noun, id: Seq<char>) -> Seq<char> {
    match noun {
        Noun::Task => "task "@ + id
            + " is not in the destination column, so it cannot be used as a neighbour"@,
        Noun::Link => "link "@ + id
            + " is not on the same task, so it cannot be used as a neighbour"@,
    }
}

/// The refusal of a drop that names no neighbour in a list that holds others.
pub open spec fn ambiguous(noun: Noun) -> Seq<char> {
    match noun {
        Noun::Task =>
            "moving a task with neither a before nor an after neighbour is only valid when the destination column is empty"@,
        Noun::Link =>
            "reordering a link with neither a before nor an after neighbour is only valid when it is the only link on the task"@,
    }
}

/// The failure of a drop that finds no room in a list just renumbered.
pub open spec fn no_room(noun: Noun, appending: bool) -> Seq<char> {
    match (noun, appending) {
        (Noun::Task, true) => "a freshly rebalanced column still has no room to append a task"@,
        (Noun::Task, false) => "a freshly rebalanced column still has no room for this drop"@,
        (Noun::Link, true) => "a freshly rebalanced set of links still has no room to append"@,
        (Noun::Link, false) => "a freshly rebalanced set of links still has no room for this drop"@,
    }
}

fn refuse_stranger(noun: Noun, id: &str) -> (r: Error)
    ensures
        r.says(ErrorCode::Invalid, stranger(noun, id@)),
{
    match noun {
        Noun::Task => {
            let mut message = "task ".to_owned();
            message.append(id);
            message.append(
                " is not in the destination column, so it cannot be used as a neighbour",
            );
            Error::invalid(message)
        },
        Noun::Link => {
            let mut message = "link ".to_owned();
            message.append(id);
            message.append(" is not on the same task, so it cannot be used as a neighbour");
            Error::invalid(message)
        },
    }
}

/// The neighbour was named, and the list does not hold it.
pub open spec fn unknown(neighbour: Option<Neighbour>) -> bool {
    neighbour matches Some(n) && n.found is None
}

/// Where a named neighbour stands.
pub open spec fn place_of(neighbour: Option<Neighbour>) -> Option<Position> {
    match neighbour {
        Some(n) => n.found,
        None => None,
    }
}

/// How a drop between two neighbours goes on once they were looked up.
///
/// The neighbour above is answered for first. A drop that names neither is only
/// clear in an otherwise empty list.
pub fn between(noun: Noun, above: &Option<Neighbour>, below: &Option<Neighbour>) -> (r: PlacingStep)
    ensures
        if unknown(*above) {
            r matches PlacingStep::Refuse(e) && e.says(
                ErrorCode::Invalid,
                stranger(noun, above->0.id@),
            )
        } else if unknown(*below) {
            r matches PlacingStep::Refuse(e) && e.says(
                ErrorCode::Invalid,
                stranger(noun, below->0.id@),
            )
        } else if above is None && below is None {
            r == PlacingStep::CheckOthers
        } else {
            r == (PlacingStep::Compute { above: place_of(*above), below: place_of(*below) })
        },
{
    let mut over: Option<Position> = None;
    if let Some(n) = above {
        match n.found {
            Some(position) => {
                over = Some(position);
            },
            None => return PlacingStep::Refuse(refuse_stranger(noun, n.id.as_str())),
        }
    }
    let mut under: Option<Position> = None;
    if let Some(n) = below {
        match n.found {
            Some(position) => {
                under = Some(position);
            },
            None => return PlacingStep::Refuse(refuse_stranger(noun, n.id.as_str())),
        }
    }
    if over.is_none() && under.is_none() {
        PlacingStep::CheckOthers
    } else {
        PlacingStep::Compute { above: over, below: under }
    }
}

/// How appending goes on once the last item of the list was looked up.
pub fn append(last: Option<Position>) -> (r: PlacingStep)
    ensures
        r == (PlacingStep::Compute { above: last, below: None }),
{
    PlacingStep::Compute { above: last, below: None }
}

/// How a drop that names no neighbour ends, once it is known whether the list
/// holds others.
pub fn alone(noun: Noun, others: bool) -> (r: Result<Placed, Error>)
    ensures
        match r {
            Ok(placed) => !others && placed.position == start() && placed.rebalanced@.len() == 0,
            Err(e) => others && e.says(ErrorCode::Invalid, ambiguous(noun)),
        },
{
    if others {
        let message = match noun {
            Noun::Task =>
                "moving a task with neither a before nor an after neighbour is only valid when the destination column is empty".to_owned(),
            Noun::Link =>
                "reordering a link with neither a before nor an after neighbour is only valid when it is the only link on the task".to_owned(),
        };
        Err(Error::invalid(message))
    } else {
        Ok(Placed { position: Position { bits: 0 }, rebalanced: Vec::new() })
    }
}

/// How placing goes on once a position was looked for. `rebalanced` is what the
/// list was renumbered to, if it was.
pub fn placed(
    noun: Noun,
    appending: bool,
    found: Placement,
    rebalanced: Option<Vec<String>>,
) -> (r: PlacingStep)
    ensures
        match found {
            Placement::At(position) => r matches PlacingStep::Done(done) && done.position
                == position && (match rebalanced {
                Some(ids) => done.rebalanced == ids,
                None => done.rebalanced@.len() == 0,
            }),
            Placement::NeedsRebalance => if rebalanced is None {
                r == PlacingStep::Rebalance
            } else {
                r matches PlacingStep::Refuse(e) && e.says(
                    ErrorCode::Internal,
                    no_room(noun, appending),
                )
            },
        },
{
    match found {
        Placement::At(position) => {
            let ids = match rebalanced {
                Some(ids) => ids,
                None => Vec::new(),
            };
            PlacingStep::Done(Placed { position, rebalanced: ids })
        },
        Placement::NeedsRebalance => if rebalanced.is_none() {
            PlacingStep::Rebalance
        } else {
            let message = match (noun, appending) {
                (Noun::Task, true) =>
                    "a freshly rebalanced column still has no room to append a task".to_owned(),
                (Noun::Task, false) =>
                    "a freshly rebalanced column still has no room for this drop".to_owned(),
                (Noun::Link, true) =>
                    "a freshly rebalanced set of links still has no room to append".to_owned(),
                (Noun::Link, false) =>
                    "a freshly rebalanced set of links still has no room for this drop".to_owned(),
            };
            PlacingStep::Refuse(Error::internal(message))
        },
    }
}

/// A drop goes between the neighbours it names, each where the list has it. It
/// is refused where the list does not hold one of them, whichever it is, and
/// asks about the rest of the list where it names none.
pub proof fn law_a_drop_goes_between_its_neighbours(
    noun: Noun,
    above: Option<Neighbour>,
    below: Option<Neighbour>,
    r: PlacingStep,
)
    requires
        call_ensures(between, (noun, &above, &below), r),
    ensures
        r is Refuse <==> (above matches Some(n) && n.found is None) || (below matches Some(n)
            && n.found is None),
        r is CheckOthers <==> above is None && below is None,
        r matches PlacingStep::Compute { above: over, below: under } ==> {
            &&& above matches Some(n) ==> over == n.found
            &&& above is None ==> over is None
            &&& below matches Some(n) ==> under == n.found
            &&& below is None ==> under is None
        },
        !(r is Rebalance) && !(r is Done),
{
}

/// A drop that names no neighbour is placed at the start of an empty list, and
/// refused in any other.
pub proof fn law_a_drop_alone_needs_an_empty_list(
    noun: Noun,
    others: bool,
    r: Result<Placed, Error>,
)
    requires
        call_ensures(alone, (noun, others), r),
    ensures
        others <==> r is Err,
        r matches Ok(placed) ==> placed.position.bits == 0 && placed.rebalanced@.len() == 0,
        r matches Err(e) ==> e.code == ErrorCode::Invalid,
{
}

/// A list is renumbered at most once: a position that is found ends the drop
/// there, with what was renumbered for it; one that is not asks for renumbering
/// the first time, and gives the drop up the second.
pub proof fn law_a_list_is_renumbered_at_most_once(
    noun: Noun,
    appending: bool,
    found: Placement,
    rebalanced: Option<Vec<String>>,
    r: PlacingStep,
)
    requires
        call_ensures(placed, (noun, appending, found, rebalanced), r),
    ensures
        r is Rebalance <==> found is NeedsRebalance && rebalanced is None,
        r is Refuse <==> found is NeedsRebalance && rebalanced is Some,
        found matches Placement::At(position) ==> (r matches PlacingStep::Done(done)
            && done.position == position && done.rebalanced@ == (match rebalanced {
            Some(ids) => ids@,
            None => Seq::empty(),
        })),
        r matches PlacingStep::Refuse(e) ==> e.code == ErrorCode::Internal,
{
    if let PlacingStep::Done(done) = r {
        if rebalanced is None {
            assert(done.rebalanced@ =~= Seq::empty());
        }
    }
}

/// What is appended goes below the last of the list, or alone into an empty one.
pub proof fn law_what_is_appended_goes_below_the_last(last: Option<Position>, r: PlacingStep)
    requires
        call_ensures(append, (last,), r),
    ensures
        r matches PlacingStep::Compute { above, below } && above == last && below is None,
{
}

} // verus!
