//! Calendar text of a point in time, as `chrono` writes it.

use vstd::prelude::*;

verus! {

/// What `chrono` writes for the moment that lies `seconds` whole seconds and
/// `nanoseconds` nanoseconds after the start of 1970 in UTC, under a format
/// pattern; `None` when `chrono` has no date and time for these two numbers.
pub uninterp spec fn datetime_text(seconds: i64, nanoseconds: u32, pattern: Seq<char>) -> Option<
    Seq<char>,
>;

/// The pattern of a calendar date.
pub open spec fn date_pattern() -> Seq<char> {
    "%Y-%m-%d"@
}

/// The pattern of a date and a time of day with `digits` fractional digits
/// of the second, for 0, 3, 6 and 9 digits.
pub open spec fn time_pattern(digits: nat) -> Seq<char> {
    if digits == 0 {
        "%Y-%m-%d %H:%M:%S"@
    } else if digits == 3 {
        "%Y-%m-%d %H:%M:%S%.3f"@
    } else if digits == 6 {
        "%Y-%m-%d %H:%M:%S%.6f"@
    } else {
        "%Y-%m-%d %H:%M:%S%.9f"@
    }
}

/// The patterns that the codec uses.
pub open spec fn known_pattern(pattern: Seq<char>) -> bool {
    pattern == date_pattern() || pattern == time_pattern(0) || pattern == time_pattern(3)
        || pattern == time_pattern(6) || pattern == time_pattern(9)
}

/// Calls `chrono::DateTime::from_timestamp` and, where that gives a moment,
/// writes its date and time in UTC with `format`. Trusted: the result is the
/// named value [`datetime_text`] of the three arguments. The patterns are
/// limited to those of the codec, which `chrono` accepts for a date and time.
#[verifier::external_body]
pub(crate) fn format_timestamp(seconds: i64, nanoseconds: u32, pattern: &str) -> (r: Option<String>)
    requires
        known_pattern(pattern@),
    ensures
        match r {
            Some(text) => datetime_text(seconds, nanoseconds, pattern@) == Some(text@),
            None => datetime_text(seconds, nanoseconds, pattern@).is_none(),
        },
{
    match chrono::DateTime::from_timestamp(seconds, nanoseconds) {
        Some(moment) => Some(moment.naive_utc().format(pattern).to_string()),
        None => None,
    }
}

} // verus!
