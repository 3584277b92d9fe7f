//! Publication dates and video lengths as the display writes them.

use chrono::TimeZone;
use vstd::prelude::*;
use crate::model::VideoDuration;
use crate::model::VideoPublishDate;
use crate::text::decimal;
use crate::text::decimal_string;
use crate::text::text_view;

verus! {

/// The calendar date in UTC, written as year, month and day, of the moment
/// `seconds` after the Unix epoch, as `chrono` gives it; `None` where the
/// moment lies outside the years that `chrono` can tell.
pub uninterp spec fn utc_date_text(seconds: i64) -> Option<Seq<char>>;

/// `chrono`: `Utc.timestamp_opt(seconds, 0)`, and of the single moment it
/// gives, `naive_local().format("%Y-%m-%d")` as a string. The answer depends
/// on `seconds` alone: the zone is UTC.
#[verifier::external_body]
fn utc_date(seconds: i64) -> (text: Option<String>)
    ensures
        text_view(text) == utc_date_text(seconds),
{
    match chrono::Utc.timestamp_opt(seconds, 0) {
        chrono::LocalResult::Single(moment) => Some(
            moment.naive_local().format("%Y-%m-%d").to_string(),
        ),
        _ => None,
    }
}

/// `millis / 1000`, rounded towards zero.
pub open spec fn whole_seconds(millis: i64) -> i64 {
    if millis >= 0 {
        (millis / 1000) as i64
    } else {
        (-((-millis) / 1000)) as i64
    }
}

impl VideoPublishDate {
    /// The day of publication in UTC, written as year, month and day;
    /// `None` where the moment lies outside the years that `chrono` can
    /// tell.
    pub fn date_string(&self) -> (text: Option<String>)
        ensures
            text_view(text) == utc_date_text(whole_seconds(self.0)),
    {
        utc_date(self.0 / 1000)
    }
}

/// How the display writes a length: in whole minutes below an hour, in whole
/// hours from an hour on.
pub open spec fn duration_label(seconds: u64) -> Seq<char> {
    if seconds <= 3599 {
        decimal((seconds / 60) as nat).push('m')
    } else {
        decimal((seconds / 3600) as nat).push('h')
    }
}

impl VideoDuration {
    /// The length as the display writes it.
    pub fn label(&self) -> (text: String)
        ensures
            text@ == duration_label(self.0),
    {
        if self.0 <= 3599 {
            let mut text = decimal_string(self.0 / 60);
            text.push('m');
            text
        } else {
            let mut text = decimal_string(self.0 / 3600);
            text.push('h');
            text
        }
    }
}

} // verus!
