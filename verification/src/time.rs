//! Points in time. A report counts seconds since 1970-01-01 00:00:00 UTC; the
//! library hands them out as chrono's date and time, read in UTC.
use vstd::prelude::*;

verus! {

/// `chrono::NaiveDateTime`: a date and a time of day without a time zone, which
/// this crate always reads in UTC. Nothing is said of what a value holds.
#[verifier::external_type_specification]
#[verifier::external_body]
pub struct ExNaiveDateTime(chrono::NaiveDateTime);

/// `NaiveDateTime` is `Copy`, and chrono derives its `clone`: the copy is the
/// value itself.
pub assume_specification[ <chrono::NaiveDateTime as Clone>::clone ](
    t: &chrono::NaiveDateTime,
) -> (copy: chrono::NaiveDateTime)
    ensures
        copy == *t,
;

/// The seconds of the first point in time that chrono can hold:
/// 00:00:00 on January 1 of the year -262143.
pub const MIN_UTC_SECONDS: i64 = -8_334_601_228_800;

/// The seconds of the last whole second that chrono can hold:
/// 23:59:59 on December 31 of the year 262142.
pub const MAX_UTC_SECONDS: i64 = 8_210_266_876_799;

/// Whether chrono can hold the point in time `secs` seconds after the epoch.
pub open spec fn representable(secs: i64) -> bool {
    MIN_UTC_SECONDS <= secs <= MAX_UTC_SECONDS
}

/// The date and time in UTC that lie `secs` whole seconds after the epoch, as
/// `chrono::DateTime::from_timestamp` computes them.
pub uninterp spec fn utc_date_time(secs: i64) -> chrono::NaiveDateTime;

/// Calls `chrono::DateTime::from_timestamp` with no nanoseconds, and takes the
/// date and time in UTC of what it returns (`DateTime::naive_utc`). chrono
/// returns a value exactly for the seconds that fall within the years it
/// supports, -262143 to 262142, the bounds being those of `DateTime::MIN_UTC` and
/// `DateTime::MAX_UTC`; the value depends on the seconds alone.
#[verifier::external_body]
fn from_timestamp(secs: i64) -> (r: Option<chrono::NaiveDateTime>)
    ensures
        r is Some <==> representable(secs),
        r matches Some(t) ==> t == utc_date_time(secs),
{
    chrono::DateTime::from_timestamp(secs, 0).as_ref().map(chrono::DateTime::naive_utc)
}

/// The point in time `timestamp` seconds after the epoch, where chrono can
/// hold it.
pub fn checked_utc_start_time(timestamp: i64) -> (r: Option<chrono::NaiveDateTime>)
    ensures
        r == if representable(timestamp) {
            Some(utc_date_time(timestamp))
        } else {
            None
        },
{
    from_timestamp(timestamp)
}

/// The point in time `timestamp` seconds after the epoch.
pub fn get_utc_start_time(timestamp: i64) -> (t: chrono::NaiveDateTime)
    requires
        representable(timestamp),
    ensures
        t == utc_date_time(timestamp),
{
    match from_timestamp(timestamp) {
        Some(t) => t,
        None => vstd::pervasive::unreached(),
    }
}

} // verus!
