//! What the core takes from jiff: instants, time zones and the calendar.

use vstd::prelude::*;
use crate::section::{is_valid_date, CivilDate};

verus! {

/// jiff's time zone, carried through opaque: its rules are not modelled.
#[verifier::external_type_specification]
#[verifier::external_body]
pub struct ExTimeZone(jiff::tz::TimeZone);

/// The first nanosecond since the Unix epoch that `jiff::Timestamp` holds
/// (`Timestamp::MIN`).
pub const MIN_TIMESTAMP_NANOS: i128 = -377705023201000000000;

/// The last nanosecond since the Unix epoch that `jiff::Timestamp` holds
/// (`Timestamp::MAX`).
pub const MAX_TIMESTAMP_NANOS: i128 = 253402207200999999999;

/// The largest time zone offset jiff allows, either way: 25:59:59, in
/// nanoseconds.
pub const MAX_OFFSET_NANOS: i128 = 93_599_000_000_000;

/// Nanoseconds in a 24-hour day.
pub const NANOS_PER_DAY: i128 = 86_400_000_000_000;

/// The number of days from 1970-01-01 to `date` in the proleptic
/// Gregorian calendar, negative before it.
pub open spec fn day_number(date: CivilDate) -> int {
    let y = if date.month <= 2 { date.year - 1 } else { date.year as int };
    let era = y / 400;
    let year_of_era = y - era * 400;
    let shifted_month = if date.month > 2 { date.month - 3 } else { date.month + 9 };
    let day_of_year = (153 * shifted_month + 2) / 5 + date.day - 1;
    let day_of_era = year_of_era * 365 + year_of_era / 4 - year_of_era / 100 + day_of_year;
    era * 146097 + day_of_era - 719468
}

/// `date` can be the local date, in some time zone that jiff allows, of
/// the instant `nanos` nanoseconds after the Unix epoch: a valid date on
/// the day of `nanos` shifted by an offset of at most 25:59:59.
pub open spec fn is_local_date_of(date: CivilDate, nanos: int) -> bool {
    &&& is_valid_date(date)
    &&& (nanos - MAX_OFFSET_NANOS) / (NANOS_PER_DAY as int) <= day_number(date)
    &&& day_number(date) <= (nanos + MAX_OFFSET_NANOS) / (NANOS_PER_DAY as int)
}

/// The local calendar date that jiff gives for the instant `nanos`
/// nanoseconds after the Unix epoch in `time_zone`
/// (`Timestamp::to_zoned(time_zone).date()`).
pub uninterp spec fn zone_date_of(nanos: int, time_zone: jiff::tz::TimeZone) -> CivilDate;

/// Whether `jiff::Timestamp::from_nanosecond(nanos)` succeeds. jiff
/// documents that it fails only outside `Timestamp::MIN..=Timestamp::MAX`,
/// and that is what this states.
#[verifier::external_body]
pub(crate) fn in_timestamp_range(nanos: i128) -> (ok: bool)
    ensures
        ok <==> MIN_TIMESTAMP_NANOS <= nanos <= MAX_TIMESTAMP_NANOS,
{
    jiff::Timestamp::from_nanosecond(nanos).is_ok()
}

/// `Timestamp::from_nanosecond(nanos)?.to_zoned(tz).date()`: the local
/// calendar date of the instant in `time_zone`. jiff takes the civil date
/// of the instant shifted by the zone's offset at that instant, and its
/// offsets lie within 25:59:59 either way; that bound is stated. The date
/// itself is named by [`zone_date_of`]: it is a function of the instant
/// and the zone, whose rules are not modelled.
#[verifier::external_body]
pub(crate) fn zoned_date(nanos: i128, time_zone: &jiff::tz::TimeZone) -> (date: CivilDate)
    requires
        MIN_TIMESTAMP_NANOS <= nanos <= MAX_TIMESTAMP_NANOS,
    ensures
        date == zone_date_of(nanos as int, *time_zone),
        is_local_date_of(date, nanos as int),
{
    let ts = jiff::Timestamp::from_nanosecond(nanos).expect("in range, as required");
    let date = ts.to_zoned(time_zone.clone()).date();
    CivilDate { year: date.year(), month: date.month(), day: date.day() }
}

/// `jiff::tz::TimeZone::system()`: the time zone of this machine (UTC
/// where it cannot be found). Nothing is stated: it depends on the
/// environment.
#[verifier::external_body]
pub(crate) fn system_time_zone() -> jiff::tz::TimeZone {
    jiff::tz::TimeZone::system()
}

/// `(today - date).get_days()` on jiff's `civil::Date`: the signed number
/// of calendar days from `date` to `today`, negative when `date` comes
/// later. The span's largest unit is days, so that is all of it.
#[verifier::external_body]
pub(crate) fn calendar_days(date: CivilDate, today: CivilDate) -> (days: i32)
    requires
        is_valid_date(date),
        is_valid_date(today),
    ensures
        days == day_number(today) - day_number(date),
{
    let date = jiff::civil::date(date.year, date.month, date.day);
    let today = jiff::civil::date(today.year, today.month, today.day);
    (today - date).get_days()
}

} // verus!
