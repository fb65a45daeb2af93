//! Where an entry time falls in the day, the week and the year.
//!
//! Entry times are milliseconds since the Unix epoch, UTC. Hour and weekday
//! follow from integer division; the month is taken from the calendar of
//! the `chrono` crate.

use vstd::prelude::*;
use vstd::arithmetic::div_mod::{lemma_fundamental_div_mod_converse, lemma_mod_multiples_vanish};
use chrono::Datelike;

verus! {

/// Milliseconds in an hour.
pub const MS_PER_HOUR: i64 = 3_600_000;

/// Milliseconds in a day.
pub const MS_PER_DAY: i64 = 86_400_000;

/// A whole number of weeks, in milliseconds, that exceeds every `i64`.
const WEEKS_SHIFT_MS: i128 = 9_223_372_037_174_400_000;

/// The days in [`WEEKS_SHIFT_MS`].
const WEEKS_SHIFT_DAYS: i128 = 106_751_991_171;

/// Farthest entry time from the epoch, either way, for which a month is
/// always had: some 253,000 years.
pub const CALENDAR_REACH_MS: i64 = 8_000_000_000_000_000;

/// Hour of the day, from 0 to 23, of an entry time.
pub open spec fn hour_of(entry_time: i64) -> int {
    (entry_time as int % (MS_PER_DAY as int)) / (MS_PER_HOUR as int)
}

/// Day of the week of an entry time, from 0 for Sunday to 6 for Saturday.
/// The epoch fell on a Thursday.
pub open spec fn weekday_of(entry_time: i64) -> int {
    (entry_time as int / (MS_PER_DAY as int) + 4) % 7
}

/// Day of an entry time, counted from the epoch; negative before it.
pub open spec fn day_of(entry_time: i64) -> int {
    entry_time as int / (MS_PER_DAY as int)
}

/// Month of the year of an entry time, from 1 to 12, in the proleptic
/// Gregorian calendar as `chrono` computes it; `None` where `chrono` has no
/// date for the time.
pub uninterp spec fn calendar_month(entry_time: i64) -> Option<u32>;

/// Splits an entry time into its day since the epoch, shifted by
/// [`WEEKS_SHIFT_DAYS`], and the millisecond of that day.
fn split_day(entry_time: i64) -> (parts: (i128, i128))
    ensures
        parts.0 - WEEKS_SHIFT_DAYS == entry_time as int / (MS_PER_DAY as int),
        parts.1 == entry_time as int % (MS_PER_DAY as int),
        0 <= parts.0 < 2 * WEEKS_SHIFT_DAYS + 1,
        0 <= parts.1 < MS_PER_DAY,
{
    let shifted: i128 = entry_time as i128 + WEEKS_SHIFT_MS;
    let day: i128 = shifted / (MS_PER_DAY as i128);
    let ms_of_day: i128 = shifted % (MS_PER_DAY as i128);
    proof {
        assert(WEEKS_SHIFT_MS == WEEKS_SHIFT_DAYS * MS_PER_DAY);
        vstd::arithmetic::div_mod::lemma_fundamental_div_mod(shifted as int, MS_PER_DAY as int);
        assert(entry_time as int == (day - WEEKS_SHIFT_DAYS) * MS_PER_DAY + ms_of_day)
            by (nonlinear_arith)
            requires
                shifted == entry_time + WEEKS_SHIFT_MS,
                WEEKS_SHIFT_MS == WEEKS_SHIFT_DAYS * MS_PER_DAY,
                shifted == MS_PER_DAY * day + ms_of_day,
        ;
        lemma_fundamental_div_mod_converse(
            entry_time as int,
            MS_PER_DAY as int,
            day - WEEKS_SHIFT_DAYS,
            ms_of_day as int,
        );
    }
    (day, ms_of_day)
}

/// Day of an entry time, counted from the epoch.
pub fn day_number(entry_time: i64) -> (day: i64)
    ensures
        day == day_of(entry_time),
{
    let parts = split_day(entry_time);
    (parts.0 - WEEKS_SHIFT_DAYS) as i64
}

/// Hour of the day of an entry time.
pub fn hour_of_day(entry_time: i64) -> (hour: u32)
    ensures
        hour == hour_of(entry_time),
        hour < 24,
{
    let parts = split_day(entry_time);
    (parts.1 / (MS_PER_HOUR as i128)) as u32
}

/// Day of the week of an entry time, 0 for Sunday.
pub fn day_of_week(entry_time: i64) -> (weekday: u32)
    ensures
        weekday == weekday_of(entry_time),
        weekday < 7,
{
    let parts = split_day(entry_time);
    proof {
        let day = entry_time as int / (MS_PER_DAY as int);
        assert(WEEKS_SHIFT_DAYS == 7 * 15_250_284_453);
        lemma_mod_multiples_vanish(15_250_284_453, day + 4, 7);
    }
    ((parts.0 + 4) % 7) as u32
}

/// Month of the year of an entry time, by `chrono`:
/// `DateTime::from_timestamp_millis` followed by `Datelike::month`.
///
/// Trusted: the result is the calendar month that `chrono` computes, a
/// function of the entry time alone; a month lies between 1 and 12; and
/// `chrono` has a date for every time within [`CALENDAR_REACH_MS`] of the
/// epoch, its calendar reaching from the year -262143 to the year 262142.
#[verifier::external_body]
pub(crate) fn month_of_year(entry_time: i64) -> (month: Option<u32>)
    ensures
        month == calendar_month(entry_time),
        month matches Some(m) ==> 1 <= m <= 12,
        -CALENDAR_REACH_MS <= entry_time <= CALENDAR_REACH_MS ==> month is Some,
{
    match chrono::DateTime::from_timestamp_millis(entry_time) {
        Some(moment) => Some(moment.month()),
        None => None,
    }
}

} // verus!
