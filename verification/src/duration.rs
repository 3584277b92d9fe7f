//! Video lengths as the remote catalog writes them: ISO 8601 duration texts,
//! read by the `iso8601` crate and turned into whole seconds.

use std::str::FromStr;
use vstd::prelude::*;

verus! {

/// A duration as `iso8601` reads it: either split into calendar and clock
/// units, or a number of weeks.
#[derive(Debug, Clone, Copy, PartialEq, Eq, Structural)]
pub enum IsoDuration {
    Ymdhms { year: u32, month: u32, day: u32, hour: u32, minute: u32, second: u32, millisecond: u32 },
    Weeks(u32),
}

impl IsoDuration {
    /// The fraction of a second is below one second.
    pub open spec fn well_formed(self) -> bool {
        self matches IsoDuration::Ymdhms { millisecond, .. } ==> millisecond <= 999
    }

    /// The whole seconds of the duration, with a year of 365 days and a month
    /// of 30 days.
    pub open spec fn whole_seconds(self) -> int {
        match self {
            IsoDuration::Ymdhms { year, month, day, hour, minute, second, millisecond } => {
                year * 365 * 86_400 + month * 30 * 86_400 + day * 86_400 + hour * 3600 + minute
                    * 60 + second
            },
            IsoDuration::Weeks(weeks) => weeks * 7 * 86_400,
        }
    }
}

/// What `iso8601` makes of a duration text; `None` where it rejects the text.
pub uninterp spec fn iso8601_duration(text: Seq<char>) -> Option<IsoDuration>;

/// `iso8601::Duration::from_str`: the parse depends on the text alone. The
/// crate keeps at most three digits of a fraction of a second, so the
/// milliseconds stay below 1000.
#[verifier::external_body]
pub(crate) fn parse_iso8601_duration(text: &str) -> (parsed: Option<IsoDuration>)
    ensures
        parsed == iso8601_duration(text@),
        parsed matches Some(d) ==> d.well_formed(),
{
    match iso8601::Duration::from_str(text) {
        Ok(iso8601::Duration::YMDHMS { year, month, day, hour, minute, second, millisecond }) => {
            Some(IsoDuration::Ymdhms { year, month, day, hour, minute, second, millisecond })
        },
        Ok(iso8601::Duration::Weeks(weeks)) => Some(IsoDuration::Weeks(weeks)),
        Err(_) => None,
    }
}

/// `core::time::Duration::from(iso8601::Duration)` followed by `as_secs`: the
/// crate adds up the units with 365 days to a year and 30 to a month; with
/// milliseconds below 1000 nothing is carried into the seconds.
#[verifier::external_body]
fn std_whole_seconds(d: IsoDuration) -> (secs: u64)
    requires
        d.well_formed(),
    ensures
        secs == d.whole_seconds(),
{
    let outside = match d {
        IsoDuration::Ymdhms { year, month, day, hour, minute, second, millisecond } => {
            iso8601::Duration::YMDHMS { year, month, day, hour, minute, second, millisecond }
        },
        IsoDuration::Weeks(weeks) => iso8601::Duration::Weeks(weeks),
    };
    core::time::Duration::from(outside).as_secs()
}

/// The seconds that a parsed duration stands for; a text that was rejected
/// counts as zero seconds.
pub open spec fn seconds_or_zero(parsed: Option<IsoDuration>) -> int {
    match parsed {
        Some(d) => d.whole_seconds(),
        None => 0,
    }
}

/// The length in seconds that a duration text stands for.
pub open spec fn duration_seconds(text: Seq<char>) -> int {
    seconds_or_zero(iso8601_duration(text))
}

/// Turns the outcome of a parse into seconds: the duration's whole seconds,
/// or zero for a text that was rejected.
pub fn parsed_seconds(parsed: Option<IsoDuration>) -> (secs: u64)
    requires
        parsed matches Some(d) ==> d.well_formed(),
    ensures
        secs == seconds_or_zero(parsed),
{
    match parsed {
        Some(d) => std_whole_seconds(d),
        None => 0,
    }
}

/// Reads a duration text and returns its length in seconds; a text that
/// `iso8601` rejects gives zero.
pub fn parse_duration_seconds(text: &str) -> (secs: u64)
    ensures
        secs == duration_seconds(text@),
{
    parsed_seconds(parse_iso8601_duration(text))
}

} // verus!
