//! Points in time as they are read from transcript records.

use vstd::prelude::*;

verus! {

/// A point in time: whole seconds since the start of 1970 in UTC, and the
/// nanoseconds into that second. During a leap second the nanoseconds run
/// past 999,999,999.
#[derive(Clone, Copy, Debug, PartialEq, Eq, Structural)]
pub struct Timestamp {
    pub secs: i64,
    pub nanos: u32,
}

/// What a timestamp text stands for, where it stands for a point in time
/// at all.
pub uninterp spec fn parsed_instant(text: Seq<char>) -> Option<Timestamp>;

/// Reads a point in time with chrono's `DateTime<Utc>` parser
/// (`str::parse::<chrono::DateTime<chrono::Utc>>`), which accepts a relaxed
/// form of RFC 3339 and converts to UTC. The contract claims only that the
/// outcome depends on the text alone; a text that chrono rejects gives
/// `None`. The seconds are chrono's `timestamp()`, the nanoseconds its
/// `timestamp_subsec_nanos()`.
#[verifier::external_body]
pub(crate) fn parse_instant(text: &str) -> (stamp: Option<Timestamp>)
    ensures
        stamp == parsed_instant(text@),
{
    match text.parse::<chrono::DateTime<chrono::Utc>>() {
        Ok(at) => Some(Timestamp { secs: at.timestamp(), nanos: at.timestamp_subsec_nanos() }),
        Err(_) => None,
    }
}

/// Whether `a` is strictly later than `b`.
pub open spec fn is_later(a: Timestamp, b: Timestamp) -> bool {
    a.secs > b.secs || (a.secs == b.secs && a.nanos > b.nanos)
}

/// The last timestamp present in `stamps`, if there is one.
pub open spec fn last_present(stamps: Seq<Option<Timestamp>>) -> Option<Timestamp>
    decreases stamps.len(),
{
    if stamps.len() == 0 {
        None
    } else if stamps.last() is Some {
        stamps.last()
    } else {
        last_present(stamps.drop_last())
    }
}

impl Timestamp {
    /// Whether this point in time is strictly later than `other`.
    pub fn later_than(&self, other: &Timestamp) -> (later: bool)
        ensures
            later == is_later(*self, *other),
    {
        self.secs > other.secs || (self.secs == other.secs && self.nanos > other.nanos)
    }
}

/// Reads a timestamp text: `Some` with the point in time it stands for,
/// `None` for a text that stands for none.
pub fn parse_timestamp(text: &str) -> (stamp: Option<Timestamp>)
    ensures
        stamp == parsed_instant(text@),
{
    parse_instant(text)
}

/// The last timestamp present in a list of readings: a later reading
/// replaces an earlier one whatever the two hold, and a missing reading
/// replaces nothing.
pub fn latest(stamps: &Vec<Option<Timestamp>>) -> (last: Option<Timestamp>)
    ensures
        last == last_present(stamps@),
{
    let mut last: Option<Timestamp> = None;
    let mut i: usize = 0;
    while i < stamps.len()
        invariant
            i <= stamps.len(),
            last == last_present(stamps@.take(i as int)),
        decreases stamps.len() - i,
    {
        if stamps[i].is_some() {
            last = stamps[i];
        }
        i += 1;
        assert(stamps@.take(i as int).drop_last() =~= stamps@.take(i - 1));
    }
    assert(stamps@.take(stamps@.len() as int) =~= stamps@);
    last
}

} // verus!
