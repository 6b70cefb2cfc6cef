//! Calendar dates of timestamps.

use crate::entry::Timestamp;
use vstd::prelude::*;

verus! {

/// What chrono writes for the moment `secs` seconds and `nanos` nanoseconds
/// after the start of 1970, in UTC, under the given pattern. `None` where
/// chrono cannot represent the moment or cannot write it under the pattern.
pub uninterp spec fn utc_date_text(secs: i64, nanos: u32, pattern: Seq<char>) -> Option<Seq<char>>;

/// The pattern of a date column: the short names of weekday and month, the day
/// of the month padded to two places with a space, and the year.
pub open spec fn date_pattern() -> Seq<char> {
    "%a %b %e %Y"@
}

/// What a date column shows for a timestamp: its UTC date under
/// `date_pattern`, and nothing where the timestamp is missing or has no date.
pub open spec fn date_text(stamp: Option<Timestamp>) -> Seq<char> {
    match stamp {
        Some(t) => match utc_date_text(t.secs, t.nanos, date_pattern()) {
            Some(text) => text,
            None => Seq::empty(),
        },
        None => Seq::empty(),
    }
}

/// Calls `chrono::DateTime::<Utc>::from_timestamp` and writes what it gives
/// with `DateTime::format` under `pattern`.
///
/// Believed, not proved: the result is the text that `utc_date_text` names, so
/// it depends on the two numbers and the pattern alone, and it is `None`
/// exactly where chrono has no date for the numbers or rejects the pattern.
#[verifier::external_body]
fn format_utc_date(secs: i64, nanos: u32, pattern: &str) -> (r: Option<String>)
    ensures
        match r {
            Some(text) => utc_date_text(secs, nanos, pattern@) == Some(text@),
            None => utc_date_text(secs, nanos, pattern@) is None,
        },
{
    let moment = chrono::DateTime::<chrono::Utc>::from_timestamp(secs, nanos)?;
    let mut text = String::new();
    match moment.format(pattern).write_to(&mut text) {
        Ok(()) => Some(text),
        Err(_) => None,
    }
}

/// The text of a date column, given what formatting the timestamp gave: the
/// formatted date, or nothing.
pub fn date_or_blank(formatted: Option<String>) -> (s: String)
    ensures
        s@ == match formatted {
            Some(text) => text@,
            None => Seq::<char>::empty(),
        },
{
    match formatted {
        Some(text) => text,
        None => String::new(),
    }
}

/// The text of a date column for a timestamp.
pub fn date_column(stamp: Option<Timestamp>) -> (s: String)
    ensures
        s@ == date_text(stamp),
{
    match stamp {
        Some(t) => date_or_blank(format_utc_date(t.secs, t.nanos, "%a %b %e %Y")),
        None => String::new(),
    }
}

} // verus!
