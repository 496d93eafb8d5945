//! The arithmetic of dates and times of day, done by chrono.
//!
//! A date is held as its day number in the proleptic Gregorian calendar
//! (January 1 of the year 1 is day 1), a time of day as the seconds since
//! midnight and the nanoseconds within that second. The nanoseconds reach
//! into a second thousand million where the time stands in a leap second.
//! Every function here hands those plain numbers to chrono and states what
//! chrono answers.

use vstd::prelude::*;
use chrono::{Datelike, NaiveDate, NaiveTime, TimeDelta, Timelike};

verus! {

/// The day number of the first date that chrono can hold.
pub const MIN_DAY: i32 = -95_746_129;

/// The day number of the last date that chrono can hold.
pub const MAX_DAY: i32 = 95_745_399;

/// The seconds of a day without a leap second.
pub const SECS_PER_DAY: u32 = 86_400;

/// The nanoseconds of a second.
pub const NANOS_PER_SEC: u32 = 1_000_000_000;

/// The nanoseconds of a day without a leap second.
pub const NANOS_PER_DAY: i64 = 86_400_000_000_000;

/// Whether `day` is the day number of a date that chrono can hold.
pub open spec fn valid_day(day: int) -> bool {
    MIN_DAY <= day <= MAX_DAY
}

/// Whether `secs` and `frac` are a time of day: a second of the day, and
/// nanoseconds that pass a whole second only in the last second of a minute.
pub open spec fn valid_time(secs: int, frac: int) -> bool {
    &&& 0 <= secs < SECS_PER_DAY
    &&& 0 <= frac < 2 * NANOS_PER_SEC
    &&& (frac >= NANOS_PER_SEC ==> secs % 60 == 59)
}

/// `n / d`, rounded toward zero.
pub open spec fn toward_zero(n: int, d: int) -> int {
    if n >= 0 {
        n / d
    } else {
        -((-n) / d)
    }
}

/// The nanoseconds from the time of day `(base_secs, base_frac)` to the time
/// `(secs, frac)` of the same day.
pub open spec fn nanos_between(secs: int, frac: int, base_secs: int, base_frac: int) -> int {
    (secs - base_secs) * NANOS_PER_SEC + (frac - base_frac)
}

/// The nanoseconds from midnight of the day on which `(secs, frac)` lies to
/// the instant `micros` microseconds after that time.
pub open spec fn nanos_after(secs: int, frac: int, micros: int) -> int {
    secs * NANOS_PER_SEC + frac + micros * 1000
}

/// `NaiveTime::signed_duration_since` of chrono, read with
/// `TimeDelta::num_microseconds`: the whole microseconds from one time of day
/// to another, rounded toward zero. Both times are built from their seconds
/// and nanoseconds with `NaiveTime::from_num_seconds_from_midnight_opt`. The
/// time counted from stands in no leap second and in no later second than
/// the other, so that chrono counts no leap second between the two.
#[verifier::external_body]
pub(crate) fn time_micros_since(secs: u32, frac: u32, base_secs: u32, base_frac: u32) -> (r:
    Option<i64>)
    requires
        valid_time(secs as int, frac as int),
        base_secs <= secs,
        base_frac < NANOS_PER_SEC,
    ensures
        r == Some(
            toward_zero(
                nanos_between(secs as int, frac as int, base_secs as int, base_frac as int),
                1000,
            ) as i64,
        ),
{
    let time = NaiveTime::from_num_seconds_from_midnight_opt(secs, frac)?;
    let base = NaiveTime::from_num_seconds_from_midnight_opt(base_secs, base_frac)?;
    time.signed_duration_since(base).num_microseconds()
}

/// `NaiveTime::overflowing_add_signed` of chrono, applied to
/// `TimeDelta::microseconds(micros)`: the time of day `micros` microseconds
/// after one that stands in no leap second, whole days dropped, as seconds
/// since midnight and nanoseconds.
#[verifier::external_body]
pub(crate) fn time_plus_micros(secs: u32, frac: u32, micros: i64) -> (r: Option<(u32, u32)>)
    requires
        secs < SECS_PER_DAY,
        frac < NANOS_PER_SEC,
    ensures
        r == Some(
            (
                ((nanos_after(secs as int, frac as int, micros as int) % (NANOS_PER_DAY as int))
                    / (NANOS_PER_SEC as int)) as u32,
                (nanos_after(secs as int, frac as int, micros as int) % (NANOS_PER_SEC as int))
                    as u32,
            ),
        ),
{
    let time = NaiveTime::from_num_seconds_from_midnight_opt(secs, frac)?;
    let (sum, _) = time.overflowing_add_signed(TimeDelta::microseconds(micros));
    Some((sum.num_seconds_from_midnight(), sum.nanosecond()))
}

/// The nanoseconds from the instant `(base_day, base_secs, base_frac)` to the
/// instant `(day, secs, frac)`: whole days between the dates, and the
/// nanoseconds between the times of day.
pub open spec fn instant_nanos_between(
    day: int,
    secs: int,
    frac: int,
    base_day: int,
    base_secs: int,
    base_frac: int,
) -> int {
    (day - base_day) * NANOS_PER_DAY + nanos_between(secs, frac, base_secs, base_frac)
}

/// `NaiveDate::signed_duration_since` of chrono, read with
/// `TimeDelta::num_days`: the days from one date to another. Both dates are
/// built from their day numbers with `NaiveDate::from_num_days_from_ce_opt`.
#[verifier::external_body]
pub(crate) fn date_days_since(day: i32, base_day: i32) -> (r: Option<i64>)
    requires
        valid_day(day as int),
        valid_day(base_day as int),
    ensures
        r == Some((day - base_day) as i64),
{
    let date = NaiveDate::from_num_days_from_ce_opt(day)?;
    let base = NaiveDate::from_num_days_from_ce_opt(base_day)?;
    Some(date.signed_duration_since(base).num_days())
}

/// `NaiveDate::checked_add_signed` of chrono, applied to
/// `TimeDelta::try_days(days)`: the day number of the date `days` days after
/// a date, or `None` where chrono cannot hold that date.
#[verifier::external_body]
pub(crate) fn date_plus_days(day: i32, days: i64) -> (r: Option<i32>)
    requires
        valid_day(day as int),
    ensures
        r == if valid_day(day + days) {
            Some((day + days) as i32)
        } else {
            None
        },
{
    let date = NaiveDate::from_num_days_from_ce_opt(day)?;
    let sum = date.checked_add_signed(TimeDelta::try_days(days)?)?;
    Some(sum.num_days_from_ce())
}

/// `NaiveDateTime::signed_duration_since` of chrono, read with
/// `TimeDelta::num_microseconds`: the whole microseconds from one instant to
/// another, rounded toward zero, or `None` where they pass 64 bits. The time
/// of the instant counted from stands in no leap second and in no later
/// second of its day than the time of the other, so that chrono counts no
/// leap second between the two.
#[verifier::external_body]
pub(crate) fn instant_micros_since(
    day: i32,
    secs: u32,
    frac: u32,
    base_day: i32,
    base_secs: u32,
    base_frac: u32,
) -> (r: Option<i64>)
    requires
        valid_day(day as int),
        valid_time(secs as int, frac as int),
        valid_day(base_day as int),
        base_secs <= secs,
        base_frac < NANOS_PER_SEC,
    ensures
        r == ({
            let micros = toward_zero(
                instant_nanos_between(
                    day as int,
                    secs as int,
                    frac as int,
                    base_day as int,
                    base_secs as int,
                    base_frac as int,
                ),
                1000,
            );
            if i64::MIN <= micros <= i64::MAX {
                Some(micros as i64)
            } else {
                None
            }
        }),
{
    let time = NaiveTime::from_num_seconds_from_midnight_opt(secs, frac)?;
    let instant = NaiveDate::from_num_days_from_ce_opt(day)?.and_time(time);
    let base_time = NaiveTime::from_num_seconds_from_midnight_opt(base_secs, base_frac)?;
    let base = NaiveDate::from_num_days_from_ce_opt(base_day)?.and_time(base_time);
    instant.signed_duration_since(base).num_microseconds()
}

/// `NaiveDateTime::checked_add_signed` of chrono, applied to
/// `TimeDelta::microseconds(micros)`: the instant `micros` microseconds after
/// one whose time stands in no leap second, as day number, seconds since
/// midnight and nanoseconds, or `None` where chrono cannot hold its date.
#[verifier::external_body]
pub(crate) fn instant_plus_micros(day: i32, secs: u32, frac: u32, micros: i64) -> (r: Option<
    (i32, u32, u32),
>)
    requires
        valid_day(day as int),
        secs < SECS_PER_DAY,
        frac < NANOS_PER_SEC,
    ensures
        r == ({
            let nanos = nanos_after(secs as int, frac as int, micros as int);
            let sum_day = day + nanos / (NANOS_PER_DAY as int);
            if valid_day(sum_day) {
                Some(
                    (
                        sum_day as i32,
                        ((nanos % (NANOS_PER_DAY as int)) / (NANOS_PER_SEC as int)) as u32,
                        (nanos % (NANOS_PER_SEC as int)) as u32,
                    ),
                )
            } else {
                None
            }
        }),
{
    let time = NaiveTime::from_num_seconds_from_midnight_opt(secs, frac)?;
    let base = NaiveDate::from_num_days_from_ce_opt(day)?.and_time(time);
    let sum = base.checked_add_signed(TimeDelta::microseconds(micros))?;
    Some((sum.num_days_from_ce(), sum.num_seconds_from_midnight(), sum.nanosecond()))
}

/// The day number that chrono gives the calendar date `year`-`month`-`day`,
/// or `None` where chrono knows no such date.
pub uninterp spec fn ymd_day_number(year: int, month: int, day: int) -> Option<i32>;

/// `NaiveDate::from_ymd_opt` of chrono, read with `Datelike::num_days_from_ce`.
#[verifier::external_body]
pub(crate) fn day_number_of_ymd(year: i32, month: u32, day: u32) -> (r: Option<i32>)
    ensures
        r == ymd_day_number(year as int, month as int, day as int),
{
    let date = NaiveDate::from_ymd_opt(year, month, day)?;
    Some(date.num_days_from_ce())
}

/// The text that chrono's `Display` writes for the date with day number `day`.
pub uninterp spec fn date_text(day: int) -> Seq<char>;

/// The text that chrono's `Display` writes for the time of day `(secs, frac)`.
pub uninterp spec fn time_text(secs: int, frac: int) -> Seq<char>;

/// The text that chrono's `Display` writes for the instant `(day, secs, frac)`.
pub uninterp spec fn instant_text(day: int, secs: int, frac: int) -> Seq<char>;

/// `Display` of chrono's `NaiveDate`.
#[verifier::external_body]
pub(crate) fn format_date(day: i32) -> (text: String)
    requires
        valid_day(day as int),
    ensures
        text@ == date_text(day as int),
{
    match NaiveDate::from_num_days_from_ce_opt(day) {
        Some(date) => date.to_string(),
        None => String::new(),
    }
}

/// `Display` of chrono's `NaiveTime`.
#[verifier::external_body]
pub(crate) fn format_time(secs: u32, frac: u32) -> (text: String)
    requires
        valid_time(secs as int, frac as int),
    ensures
        text@ == time_text(secs as int, frac as int),
{
    match NaiveTime::from_num_seconds_from_midnight_opt(secs, frac) {
        Some(time) => time.to_string(),
        None => String::new(),
    }
}

/// `Display` of chrono's `NaiveDateTime`.
#[verifier::external_body]
pub(crate) fn format_instant(day: i32, secs: u32, frac: u32) -> (text: String)
    requires
        valid_day(day as int),
        valid_time(secs as int, frac as int),
    ensures
        text@ == instant_text(day as int, secs as int, frac as int),
{
    let date = NaiveDate::from_num_days_from_ce_opt(day);
    match (date, NaiveTime::from_num_seconds_from_midnight_opt(secs, frac)) {
        (Some(date), Some(time)) => date.and_time(time).to_string(),
        _ => String::new(),
    }
}

} // verus!
