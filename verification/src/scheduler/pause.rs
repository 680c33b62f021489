//! The hold that a usage limit puts on new starts.
//!
//! A second limit may only ever lengthen a pending wait. The hold is a stored
//! instant: one that has passed, or that cannot be read, holds nothing.

use vstd::prelude::*;

use crate::instant;
use crate::instant::{format_instant, parse_instant, Instant};
use crate::text;
use crate::text::trim;

verus! {

/// The settings key that holds the instant new starts are held until.
pub const USAGE_LIMIT_PAUSE_UNTIL: &'static str = "usage_limit_pause_until";

/// The instant the settings name, if they name one that can be read.
pub open spec fn stored_instant(stored: Option<String>) -> Option<Instant> {
    match stored {
        Some(value) => instant::instant_of_text(text::trimmed(value@)),
        None => None,
    }
}

/// When new starts are held until, as of `now`.
pub open spec fn hold(stored: Option<Instant>, now: Instant) -> Option<Instant> {
    match stored {
        Some(until) => if now.earlier(until) {
            Some(until)
        } else {
            None
        },
        None => None,
    }
}

fn read(stored: &Option<String>) -> (r: Option<Instant>)
    ensures
        r == stored_instant(*stored),
{
    match stored {
        Some(value) => parse_instant(trim(value.as_str())),
        None => None,
    }
}

/// When new starts are held until, or nothing when they are not.
pub fn active_until(stored: &Option<String>, now: Instant) -> (r: Option<Instant>)
    ensures
        r == hold(stored_instant(*stored), now),
{
    match read(stored) {
        Some(until) => if now.is_before(until) {
            Some(until)
        } else {
            None
        },
        None => None,
    }
}

/// What to store when a run hit a limit that clears at `until`: nothing where
/// the stored instant is already as late.
///
/// Whichever it is, the settings afterwards name the later of the two.
pub fn note_usage_limit(stored: &Option<String>, until: Instant) -> (r: Option<String>)
    requires
        until.valid(),
    ensures
        r is None <==> (stored_instant(*stored) matches Some(at) && !at.earlier(until)),
        r matches Some(text) ==> text@ == instant::text_of_utc(until.seconds, until.nanos),
        r is Some ==> stored_instant(r) == Some(until),
        stored_instant(
            if r is Some {
                r
            } else {
                *stored
            },
        ) == Some(
            match stored_instant(*stored) {
                Some(at) => at.later_of(until),
                None => until,
            },
        ),
{
    let existing = read(stored);
    let kept = match existing {
        Some(at) => !at.is_before(until),
        None => false,
    };
    if kept {
        None
    } else {
        Some(format_instant(until))
    }
}

/// What to store to lift the hold.
pub fn clear() -> (r: String)
    ensures
        r@ == Seq::<char>::empty(),
{
    String::new()
}

/// A hold whose instant has passed holds nothing, and one that has not passed
/// is still there.
pub proof fn law_a_hold_ends_by_itself(stored: Option<Instant>, now: Instant, later: Instant)
    requires
        !later.earlier(now),
    ensures
        hold(stored, now) is None ==> hold(stored, later) is None,
        hold(stored, later) is Some ==> hold(stored, now) == hold(stored, later),
        stored matches Some(until) && !now.earlier(until) ==> hold(stored, now) is None,
{
}

/// A second limit never shortens a hold.
pub proof fn law_a_second_limit_never_shortens_a_hold(first: Instant, second: Instant, now: Instant)
    requires
        hold(Some(first), now) is Some,
    ensures
        hold(Some(first.later_of(second)), now) matches Some(until) && !until.earlier(first),
{
}

/// New starts are held exactly while the stored text, without the white space
/// around it, reads as an instant that is still ahead, and they are held until
/// that instant.
pub proof fn law_starts_are_held_until_the_stored_instant(
    stored: Option<String>,
    now: Instant,
    r: Option<Instant>,
)
    requires
        call_ensures(active_until, (&stored, now), r),
    ensures
        r matches Some(until) ==> {
            &&& now.earlier(until)
            &&& stored matches Some(value) && instant::utc_of_text(text::trimmed(value@)) == Some(
                (until.seconds, until.nanos),
            )
        },
        stored matches Some(value) ==> (instant::utc_of_text(text::trimmed(value@)) matches Some(
            read,
        ) ==> (now.earlier(Instant { seconds: read.0, nanos: read.1 }) ==> r == Some(
            Instant { seconds: read.0, nanos: read.1 },
        ))),
{
}

/// A limit is stored exactly where what is stored does not already reach as far;
/// whatever was stored, new starts are then held until the later of the two.
pub proof fn law_a_limit_only_lengthens_the_hold(
    stored: Option<String>,
    until: Instant,
    r: Option<String>,
    now: Instant,
    before: Option<Instant>,
    after: Option<Instant>,
)
    requires
        call_ensures(note_usage_limit, (&stored, until), r),
        call_ensures(active_until, (&stored, now), before),
        call_ensures(
            active_until,
            (
                &if r is Some {
                    r
                } else {
                    stored
                },
                now,
            ),
            after,
        ),
    ensures
        before matches Some(held) ==> (after matches Some(now_held) && !now_held.earlier(held)),
        now.earlier(until) ==> (after matches Some(now_held) && !now_held.earlier(until)),
        after matches Some(now_held) ==> now_held == until || before == Some(now_held),
        r is None ==> (before matches Some(held) ==> !held.earlier(until)),
{
}

} // verus!
