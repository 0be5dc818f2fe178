//! The local wall clock, read through `chrono`.
//!
//! Everything time-zone-dependent lives behind the two trusted items here:
//! one reading of the clock, and one mapping of a civil local time to the
//! instants (if any) that carry it.  All scheduling decisions over their
//! results are verified elsewhere.

use vstd::prelude::*;
use chrono::{Datelike, Timelike};

verus! {

/// One reading of the local wall clock: the instant as whole seconds since
/// the epoch plus sub-second nanoseconds, and its local civil fields.
#[derive(Debug, Clone, Copy, PartialEq, Eq, Structural)]
pub struct LocalClockReading {
    pub epoch: i64,
    pub subsec_nanos: u32,
    pub year: i32,
    pub month: u32,
    pub day: u32,
    pub hour: u32,
    pub minute: u32,
    pub second: u32,
}

/// How a civil local time maps to instants: one instant, two (a backward
/// clock change replays it), or none (a forward change skips it, or the
/// fields name no calendar date-time at all).
#[derive(Debug, Clone, Copy, PartialEq, Eq, Structural)]
pub enum LocalResolution {
    Single(i64),
    Ambiguous(i64, i64),
    Nonexistent,
}

/// Relies on `chrono::Local::now`, with the `Datelike`/`Timelike` accessors
/// and `DateTime::timestamp`/`timestamp_subsec_nanos` converting the reading
/// to plain fields: the accessors yield a valid civil date-time (seconds
/// stay below 60, a leap second spills into the nanoseconds, which stay
/// below two billion), and `chrono`'s calendar spans years -262143..=262142,
/// bounding the epoch seconds well within 2^44.
#[verifier::external_body]
pub fn local_now() -> (r: LocalClockReading)
    ensures
        1 <= r.month <= 12,
        1 <= r.day <= crate::time::spec_days_in_month(r.year as int, r.month as int),
        r.hour <= 23,
        r.minute <= 59,
        r.second <= 59,
        r.subsec_nanos < 2_000_000_000,
        -9_000_000_000_000 <= r.epoch <= 9_000_000_000_000,
{
    let now = chrono::Local::now();
    LocalClockReading {
        epoch: now.timestamp(),
        subsec_nanos: now.timestamp_subsec_nanos(),
        year: now.year(),
        month: now.month(),
        day: now.day(),
        hour: now.hour(),
        minute: now.minute(),
        second: now.second(),
    }
}

/// Relies on `chrono::NaiveDate::from_ymd_opt` and `NaiveDate::and_hms_opt`
/// (which fail exactly on fields naming no calendar date-time) and
/// `NaiveDateTime::and_local_timezone` with `chrono::Local`, whose
/// `LocalResult` arms map one-to-one onto [`LocalResolution`].  Nothing is
/// assumed of the order of an ambiguous pair: the library's platform
/// backends disagree about it, so the callers here compare the two instants
/// themselves.  `DateTime::timestamp` converts each instant, bounded as in
/// [`local_now`].
#[verifier::external_body]
pub fn resolve_local(
    year: i32,
    month: u32,
    day: u32,
    hour: u32,
    minute: u32,
    second: u32,
) -> (r: LocalResolution)
    ensures
        r matches LocalResolution::Single(t) ==> -9_000_000_000_000 <= t <= 9_000_000_000_000,
        r matches LocalResolution::Ambiguous(a, b) ==> -9_000_000_000_000 <= a
            <= 9_000_000_000_000 && -9_000_000_000_000 <= b <= 9_000_000_000_000,
{
    let date = match chrono::NaiveDate::from_ymd_opt(year, month, day) {
        Some(d) => d,
        None => return LocalResolution::Nonexistent,
    };
    let naive = match date.and_hms_opt(hour, minute, second) {
        Some(n) => n,
        None => return LocalResolution::Nonexistent,
    };
    match naive.and_local_timezone(chrono::Local) {
        chrono::LocalResult::Single(dt) => LocalResolution::Single(dt.timestamp()),
        chrono::LocalResult::Ambiguous(a, b) => LocalResolution::Ambiguous(a.timestamp(), b.timestamp()),
        chrono::LocalResult::None => LocalResolution::Nonexistent,
    }
}

/// The earliest instant of a resolution, if there is one: an ambiguous
/// local time takes the earlier of its two instants, whichever order the
/// resolution lists them in.
pub fn earliest_instant(r: &LocalResolution) -> (t: Option<i64>)
    ensures
        t == match *r {
            LocalResolution::Single(s) => Some(s),
            LocalResolution::Ambiguous(a, b) => Some(
                if a <= b {
                    a
                } else {
                    b
                },
            ),
            LocalResolution::Nonexistent => None::<i64>,
        },
{
    match r {
        LocalResolution::Single(s) => Some(*s),
        LocalResolution::Ambiguous(a, b) => if *a <= *b {
            Some(*a)
        } else {
            Some(*b)
        },
        LocalResolution::Nonexistent => None,
    }
}

/// The instant of an unambiguous resolution: ambiguous and nonexistent
/// local times both give `None`.
pub fn single_instant(r: &LocalResolution) -> (t: Option<i64>)
    ensures
        t == match *r {
            LocalResolution::Single(s) => Some(s),
            LocalResolution::Ambiguous(_, _) => None::<i64>,
            LocalResolution::Nonexistent => None::<i64>,
        },
{
    match r {
        LocalResolution::Single(s) => Some(*s),
        _ => None,
    }
}

} // verus!
