//! Instants of UTC: what the scheduler compares, adds to and stores.

use vstd::prelude::*;

use crate::text;

verus! {

/// The last second a stored instant can name: the end of the year 262142.
pub const MAX_SECONDS: i64 = 8_210_266_876_799;

/// The first second a stored instant can name: the start of the year -262143.
pub const MIN_SECONDS: i64 = -8_334_601_228_800;

/// How many nanoseconds a second holds.
pub const NANOS_PER_SECOND: u32 = 1_000_000_000;

/// A moment of UTC: whole seconds since 1970, and nanoseconds past them.
///
/// A leap second is the second before it with a billion nanoseconds or more.
#[derive(Debug, Clone, Copy, PartialEq, Eq, PartialOrd, Ord, Hash, Structural)]
pub struct Instant {
    pub seconds: i64,
    pub nanos: u32,
}

impl Instant {
    /// Whether this names a moment the calendar has.
    pub open spec fn valid(self) -> bool {
        &&& MIN_SECONDS <= self.seconds <= MAX_SECONDS
        &&& self.nanos < 2 * NANOS_PER_SECOND
        &&& self.nanos >= NANOS_PER_SECOND ==> self.seconds % 60 == 59
    }

    /// Strictly earlier than `other`.
    pub open spec fn earlier(self, other: Instant) -> bool {
        self.seconds < other.seconds || (self.seconds == other.seconds && self.nanos < other.nanos)
    }

    /// The later of the two.
    pub open spec fn later_of(self, other: Instant) -> Instant {
        if self.earlier(other) {
            other
        } else {
            self
        }
    }

    /// The earlier of the two.
    pub open spec fn earlier_of(self, other: Instant) -> Instant {
        if other.earlier(self) {
            other
        } else {
            self
        }
    }

    /// Whether the calendar still reaches `seconds` after this instant.
    pub open spec fn has_after(self, seconds: int) -> bool {
        self.seconds + seconds <= MAX_SECONDS
    }

    /// `seconds` whole seconds later. Leaving a leap second drops the extra one.
    pub open spec fn after(self, seconds: int) -> Instant {
        Instant {
            seconds: (self.seconds + seconds) as i64,
            nanos: if seconds > 0 && self.nanos >= NANOS_PER_SECOND {
                (self.nanos - NANOS_PER_SECOND) as u32
            } else {
                self.nanos
            },
        }
    }

    /// Whether this is strictly earlier than `other`.
    pub fn is_before(self, other: Instant) -> (r: bool)
        ensures
            r == self.earlier(other),
    {
        self.seconds < other.seconds || (self.seconds == other.seconds && self.nanos < other.nanos)
    }

    /// The later of the two.
    pub fn latest(self, other: Instant) -> (r: Instant)
        ensures
            r == self.later_of(other),
    {
        if self.is_before(other) {
            other
        } else {
            self
        }
    }

    /// The earlier of the two.
    pub fn soonest(self, other: Instant) -> (r: Instant)
        ensures
            r == self.earlier_of(other),
    {
        if other.is_before(self) {
            other
        } else {
            self
        }
    }

    /// `seconds` whole seconds later.
    pub fn plus_seconds(self, seconds: i64) -> (r: Instant)
        requires
            seconds >= 0,
            self.has_after(seconds as int),
        ensures
            r == self.after(seconds as int),
    {
        Instant {
            seconds: self.seconds + seconds,
            nanos: if seconds > 0 && self.nanos >= NANOS_PER_SECOND {
                self.nanos - NANOS_PER_SECOND
            } else {
                self.nanos
            },
        }
    }
}

/// Adding seconds to a moment of the calendar gives a moment of the calendar,
/// never an earlier one, as long as the calendar reaches that far.
pub proof fn law_adding_seconds_stays_in_the_calendar(at: Instant, seconds: int)
    requires
        at.valid(),
        seconds >= 0,
        at.has_after(seconds),
    ensures
        at.after(seconds).valid(),
        !at.after(seconds).earlier(at),
{
}

/// What chrono reads `text` as, in whole seconds since 1970 and nanoseconds.
pub uninterp spec fn utc_of_text(text: Seq<char>) -> Option<(i64, u32)>;

/// How chrono writes the moment `seconds` and `nanos` name.
pub uninterp spec fn text_of_utc(seconds: i64, nanos: u32) -> Seq<char>;

/// `<chrono::DateTime<Utc> as FromStr>::from_str`: the moment a text names, as
/// its `timestamp` and `timestamp_subsec_nanos`, or nothing for an error. The
/// result is a function of the text alone.
#[verifier::external_body]
fn parse_utc(text: &str) -> (r: Option<(i64, u32)>)
    ensures
        r == utc_of_text(text@),
{
    match text.parse::<chrono::DateTime<chrono::Utc>>() {
        Ok(at) => Some((at.timestamp(), at.timestamp_subsec_nanos())),
        Err(_) => None,
    }
}

/// `chrono::DateTime::from_timestamp` and `to_rfc3339`: the moment as text, in
/// the form `2026-08-20T02:00:00+00:00` with as many digits of a second as it
/// needs. The text is a function of the two numbers, it neither starts nor ends
/// with white space, and reading it back gives the same two numbers.
#[verifier::external_body]
fn write_utc(seconds: i64, nanos: u32) -> (r: String)
    requires
        (Instant { seconds, nanos }).valid(),
    ensures
        r@ == text_of_utc(seconds, nanos),
        text::trimmed(r@) == r@,
        utc_of_text(r@) == Some((seconds, nanos)),
{
    chrono::DateTime::from_timestamp(seconds, nanos).unwrap().to_rfc3339()
}

/// The moment a text names, or nothing for a text that names none.
pub open spec fn instant_of_text(text: Seq<char>) -> Option<Instant> {
    match utc_of_text(text) {
        Some((seconds, nanos)) => Some(Instant { seconds, nanos }),
        None => None,
    }
}

/// Reads the moment a text names.
pub fn parse_instant(text: &str) -> (r: Option<Instant>)
    ensures
        r == instant_of_text(text@),
{
    match parse_utc(text) {
        Some((seconds, nanos)) => Some(Instant { seconds, nanos }),
        None => None,
    }
}

/// Writes a moment in the form [`parse_instant`] reads.
pub fn format_instant(at: Instant) -> (r: String)
    requires
        at.valid(),
    ensures
        r@ == text_of_utc(at.seconds, at.nanos),
        text::trimmed(r@) == r@,
        instant_of_text(r@) == Some(at),
{
    write_utc(at.seconds, at.nanos)
}

/// Instants stand in one order: of two that differ exactly one is earlier, none
/// is earlier than itself, and what is earlier than an earlier one is earlier.
/// The second decides, and within a second the nanosecond.
pub proof fn law_instants_stand_in_one_order(a: Instant, b: Instant, c: Instant)
    ensures
        !a.earlier(a),
        a != b ==> (a.earlier(b) <==> !b.earlier(a)),
        a.earlier(b) && b.earlier(c) ==> a.earlier(c),
        a.seconds < b.seconds ==> a.earlier(b),
        a.seconds == b.seconds ==> (a.earlier(b) <==> a.nanos < b.nanos),
{
}

/// The earlier and the later of two are the two, whichever way round they are
/// asked for.
pub proof fn law_two_instants_have_an_earlier_and_a_later(a: Instant, b: Instant)
    ensures
        a.earlier(b) ==> a.earlier_of(b) == a && b.earlier_of(a) == a,
        a.earlier(b) ==> a.later_of(b) == b && b.later_of(a) == b,
        a.earlier_of(a) == a && a.later_of(a) == a,
{
}

/// So many seconds later is so many seconds later, with the same fraction of a
/// second, but for a leap second, which is left.
pub proof fn law_seconds_are_added_one_for_one(at: Instant, seconds: int)
    requires
        at.valid(),
        seconds >= 0,
        at.has_after(seconds),
    ensures
        at.after(seconds).seconds == at.seconds + seconds,
        at.nanos < 1_000_000_000 ==> at.after(seconds).nanos == at.nanos,
        at.nanos >= 1_000_000_000 && seconds > 0 ==> at.after(seconds).nanos == at.nanos
            - 1_000_000_000,
        at.after(0) == at,
{
}

/// The later of two instants is one of them, and the other is not after it; the
/// sooner is the other one.
pub proof fn law_the_later_and_the_sooner_are_the_two(
    one: Instant,
    other: Instant,
    late: Instant,
    soon: Instant,
    before: bool,
)
    requires
        call_ensures(Instant::latest, (one, other), late),
        call_ensures(Instant::soonest, (one, other), soon),
        call_ensures(Instant::is_before, (one, other), before),
    ensures
        before <==> one.seconds < other.seconds || (one.seconds == other.seconds && one.nanos
            < other.nanos),
        late == one || late == other,
        soon == one || soon == other,
        before ==> soon == one && late == other,
        !late.earlier(one) && !late.earlier(other),
        !one.earlier(soon) && !other.earlier(soon),
{
}

/// What is written of an instant reads back as that instant; a text reads as the
/// second and the nanosecond that it names, and seconds are added to the second.
pub proof fn law_what_is_written_of_an_instant_reads_back(
    at: Instant,
    written: String,
    text: &str,
    back: Option<Instant>,
    seconds: i64,
    later: Instant,
)
    requires
        call_ensures(format_instant, (at,), written),
        call_ensures(parse_instant, (text,), back),
        call_ensures(Instant::plus_seconds, (at, seconds), later),
        at.valid(),
        seconds >= 0,
        at.has_after(seconds as int),
    ensures
        text@ == written@ ==> back == Some(at),
        back is Some <==> utc_of_text(text@) is Some,
        back matches Some(read) ==> utc_of_text(text@) == Some((read.seconds, read.nanos)),
        later.seconds == at.seconds + seconds,
        !later.earlier(at),
        at.nanos < 1_000_000_000 ==> later.nanos == at.nanos,
{
}

} // verus!
