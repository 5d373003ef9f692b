//! The wall clock, read through std and chrono, and the timestamp text of log
//! lines.

use chrono::{Datelike, Timelike};
use vstd::prelude::*;

use crate::text::datetime_text;
use crate::text::days_in_month;
use crate::text::format_datetime;
use crate::text::is_timestamp;

verus! {

/// Reads the system clock as the time since the Unix epoch, with
/// `std::time::SystemTime::now` and `SystemTime::duration_since`, and hands
/// out its whole seconds and the nanoseconds beyond them.
///
/// Trusted: `None` when the clock reads before the epoch (the error case of
/// `duration_since`); the nanoseconds are below one billion, as
/// `Duration::subsec_nanos` documents. Which moment comes back depends on the
/// clock and is not stated.
#[verifier::external_body]
fn unix_clock() -> (r: Option<(u64, u32)>)
    ensures
        r matches Some(t) ==> t.1 < 1_000_000_000,
{
    match std::time::SystemTime::now().duration_since(std::time::UNIX_EPOCH) {
        Ok(d) => Some((d.as_secs(), d.subsec_nanos())),
        Err(_) => None,
    }
}

/// The number of days from 1970-01-01 to the given date of the proleptic
/// Gregorian calendar (negative before it).
pub open spec fn days_from_civil(year: int, month: int, day: int) -> int {
    let y = if month <= 2 { year - 1 } else { year };
    let era = y / 400;
    let yoe = y - era * 400;
    let mp = if month > 2 { month - 3 } else { month + 9 };
    let doy = (153 * mp + 2) / 5 + day - 1;
    let doe = yoe * 365 + yoe / 4 - yoe / 100 + doy;
    era * 146097 + doe - 719468
}

/// The calendar fields `(year, month, day, hour, minute)` counted as minutes
/// since 1970-01-01 00:00 of the same calendar.
pub open spec fn fields_minutes(f: (i32, u32, u32, u32, u32)) -> int {
    days_from_civil(f.0 as int, f.1 as int, f.2 as int) * 1440 + f.3 * 60 + f.4
}

/// The calendar fields are those of a valid local reading of the moment
/// `secs` seconds after the epoch: a valid date and time of day, less than a
/// day away from the moment's UTC reading.
pub open spec fn reads_moment(f: (i32, u32, u32, u32, u32), secs: int) -> bool {
    &&& 1 <= f.1 <= 12
    &&& 1 <= f.2 <= 31
    &&& f.2 <= days_in_month(f.0 as int, f.1 as int)
    &&& f.3 <= 23
    &&& f.4 <= 59
    &&& secs - 86460 < fields_minutes(f) * 60 < secs + 86400
}

/// The local calendar fields `(year, month, day, hour, minute)` of the moment
/// `secs` seconds and `nanos` nanoseconds after the Unix epoch, through
/// `chrono::DateTime::from_timestamp` and `DateTime::with_timezone(&Local)`.
///
/// Trusted: `None` when `from_timestamp` finds the moment outside chrono's
/// range of dates. Otherwise the fields have the ranges that chrono's
/// `Datelike` and `Timelike` documentation gives, and the day exists in its
/// month: the date part is a `NaiveDate`, a date of the proleptic Gregorian
/// calendar. The fields are the UTC reading of the moment shifted by the
/// zone's offset, a `FixedOffset`, which `east_opt` keeps strictly between
/// minus and plus one day; so the local minute lies less than a day (plus the
/// dropped seconds) from the moment. The offset itself depends on the
/// machine's time zone and is not stated. Not excluded: chrono's conversion to local time unwraps the zone's
/// offset, and stops when the zone data yields no representable offset; no
/// `requires` can rule that out.
#[verifier::external_body]
fn local_fields_at(secs: i64, nanos: u32) -> (r: Option<(i32, u32, u32, u32, u32)>)
    ensures
        r matches Some(f) ==> reads_moment(f, secs as int),
{
    match chrono::DateTime::from_timestamp(secs, nanos) {
        Some(utc) => {
            let now = utc.with_timezone(&chrono::Local);
            Some((now.year(), now.month(), now.day(), now.hour(), now.minute()))
        },
        None => None,
    }
}

/// The text given in place of a time when the clock yields no reading.
pub open spec fn unknown_time_text() -> Seq<char> {
    seq!['u', 'n', 'k', 'n', 'o', 'w', 'n', ' ', 't', 'i', 'm', 'e']
}

/// What a log line carries as its time: a timestamp of a valid clock reading,
/// or the text given when there was no reading.
pub open spec fn is_time_text(t: Seq<char>) -> bool {
    is_timestamp(t) || t == unknown_time_text()
}

/// The moment handed to the calendar conversion for a clock reading of
/// `secs` seconds and `nanos` nanoseconds after the epoch: the same values,
/// when the seconds fit an `i64`; none otherwise.
pub fn local_args(secs: u64, nanos: u32) -> (r: Option<(i64, u32)>)
    ensures
        secs <= i64::MAX ==> r == Some((secs as i64, nanos)),
        secs > i64::MAX ==> r is None,
{
    if secs <= i64::MAX as u64 {
        Some((secs as i64, nanos))
    } else {
        None
    }
}

/// The text of a time: `YYYY-MM-DD HH:MM` of the calendar fields
/// `(year, month, day, hour, minute)`, or `unknown time` when there are none.
pub fn time_text(fields: Option<(i32, u32, u32, u32, u32)>) -> (s: String)
    ensures
        fields matches Some(f) ==> s@ == datetime_text(f.0 as int, f.1 as nat, f.2 as nat, f.3 as nat, f.4 as nat),
        fields is None ==> s@ == unknown_time_text(),
{
    match fields {
        Some((year, month, day, hour, minute)) => format_datetime(year, month, day, hour, minute),
        None => {
            proof {
                reveal_strlit("unknown time");
                assert("unknown time"@ =~= unknown_time_text());
            }
            String::from_str("unknown time")
        },
    }
}

/// The local time of the moment `secs` seconds and `nanos` nanoseconds after
/// the epoch as `YYYY-MM-DD HH:MM`, or `unknown time` when the moment cannot be
/// shown.
pub fn local_time_text(secs: u64, nanos: u32) -> (s: String)
    ensures
        s@ == unknown_time_text() || exists|f: (i32, u32, u32, u32, u32)|
            reads_moment(f, secs as int)
            && s@ == #[trigger] datetime_text(f.0 as int, f.1 as nat, f.2 as nat, f.3 as nat, f.4 as nat),
        secs > i64::MAX ==> s@ == unknown_time_text(),
{
    let fields = match local_args(secs, nanos) {
        Some((s, n)) => local_fields_at(s, n),
        None => None,
    };
    time_text(fields)
}

/// The current local time as `YYYY-MM-DD HH:MM`, or `unknown time` when the
/// clock reads before the Unix epoch or past the dates that can be shown.
pub fn get_nowtime_str() -> (s: String)
    ensures
        is_time_text(s@),
{
    match unix_clock() {
        Some((secs, nanos)) => local_time_text(secs, nanos),
        None => time_text(None),
    }
}

} // verus!
