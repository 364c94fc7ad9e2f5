//! Calendar questions that are answered by `chrono` and `cron`.

use crate::instant::Instant;
use vstd::prelude::*;

verus! {

/// The last second of the year 9999, in seconds since the Unix epoch. Instants
/// up to it are handed to the calendar; later ones are refused before the call.
pub const CALENDAR_END: i64 = 253_402_300_799;

/// The instant that `chrono` reads out of `text` as a date and time in UTC, if
/// it reads one.
pub uninterp spec fn parsed_instant(text: Seq<char>) -> Option<Instant>;

/// The first instant after `after` at which the cron expression `pattern`
/// fires, as `cron` computes it over UTC, if the expression is valid and fires
/// again.
pub uninterp spec fn cron_next_after(pattern: Seq<char>, after: Instant) -> Option<Instant>;

/// Trusted: calls `str::parse::<chrono::DateTime<chrono::Utc>>`, which accepts a
/// relaxed RFC 3339 form, and takes the result apart with
/// `DateTime::timestamp` and `DateTime::timestamp_subsec_nanos`.
///
/// The contract claims only that the outcome is a function of the text: the
/// same text always yields the same instant or the same refusal.
#[verifier::external_body]
pub(crate) fn parse_instant(text: &str) -> (parsed: Option<Instant>)
    ensures
        parsed == parsed_instant(text@),
{
    match text.parse::<chrono::DateTime<chrono::Utc>>() {
        Ok(moment) => Some(
            Instant { secs: moment.timestamp(), nanos: moment.timestamp_subsec_nanos() },
        ),
        Err(_) => None,
    }
}

/// Trusted: parses `pattern` with `cron::Schedule::from_str`, builds the start
/// with `chrono::DateTime::from_timestamp`, and asks `cron::Schedule::after`
/// for the first item of its iterator.
///
/// The contract claims only that the outcome is a function of the pattern and
/// the start. `cron` adds one second to the start before it searches, which
/// `chrono` refuses by panicking at the very end of its range; the
/// precondition keeps every start well inside that range.
#[verifier::external_body]
pub(crate) fn next_occurrence(pattern: &str, after: Instant) -> (due: Option<Instant>)
    requires
        after.secs <= CALENDAR_END,
    ensures
        due == cron_next_after(pattern@, after),
{
    let schedule = pattern.parse::<cron::Schedule>().ok()?;
    let start = chrono::DateTime::from_timestamp(after.secs, after.nanos)?;
    let next = schedule.after(&start).next()?;
    Some(Instant { secs: next.timestamp(), nanos: next.timestamp_subsec_nanos() })
}

} // verus!
