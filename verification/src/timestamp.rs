//! The suffix that tells the directories of repeated extractions apart.
//!
//! The suffix is a date and a time of day, `YYYYMMDD_HHMMSS`, worked out from
//! the seconds since the epoch with every year taken as 365 days and every
//! month as 30. It is meant to differ from run to run and to sort roughly by
//! age, not to name the calendar day.

use crate::text::{is_decimal_digit, lemma_zero_padded, push_decimal, zero_padded};
use std::time::{Duration, SystemTime, SystemTimeError};
use vstd::prelude::*;

verus! {

/// The suffix used when the clock cannot be read.
pub const FALLBACK_TIMESTAMP: &'static str = "00000000_000000";

/// What stands between the date and the time of day.
pub const SEPARATOR: &'static str = "_";

/// The first second whose year takes five digits: 8030 years of 365 days
/// after the epoch.
pub const YEAR_TEN_THOUSAND: u64 = 253_234_080_000;

/// The whole days that have passed after `secs` seconds.
pub open spec fn day_number(secs: u64) -> nat {
    (secs / 86_400) as nat
}

/// The year, counting 365 days to each.
pub open spec fn year_of(secs: u64) -> nat {
    1970 + day_number(secs) / 365
}

/// The day within the year, from 0 to 364.
pub open spec fn day_of_year(secs: u64) -> nat {
    day_number(secs) % 365
}

/// The month, from 1 to 12, counting 30 days to each; the five days left
/// over at the end of the year belong to the twelfth.
pub open spec fn month_of(secs: u64) -> nat {
    if day_of_year(secs) / 30 + 1 < 12 {
        day_of_year(secs) / 30 + 1
    } else {
        12
    }
}

/// The day within the month, from 1 to 30.
pub open spec fn day_of(secs: u64) -> nat {
    day_of_year(secs) % 30 + 1
}

/// The hour of the day, from 0 to 23.
pub open spec fn hour_of(secs: u64) -> nat {
    ((secs % 86_400) / 3_600) as nat
}

/// The minute of the hour.
pub open spec fn minute_of(secs: u64) -> nat {
    ((secs % 3_600) / 60) as nat
}

/// The second of the minute.
pub open spec fn second_of(secs: u64) -> nat {
    (secs % 60) as nat
}

/// The suffix for the moment `secs` seconds after the epoch.
pub open spec fn timestamp_text(secs: u64) -> Seq<char> {
    zero_padded(year_of(secs), 4) + zero_padded(month_of(secs), 2) + zero_padded(day_of(secs), 2)
        + SEPARATOR@ + zero_padded(hour_of(secs), 2) + zero_padded(minute_of(secs), 2)
        + zero_padded(second_of(secs), 2)
}

/// The suffix for a reading of the clock, which is the seconds since the
/// epoch, or nothing where the clock could not be read.
pub open spec fn timestamp_for(reading: Option<u64>) -> Seq<char> {
    match reading {
        Some(secs) => timestamp_text(secs),
        None => FALLBACK_TIMESTAMP@,
    }
}

/// Whether `stamp` is the suffix for some reading of the clock.
pub open spec fn is_timestamp(stamp: Seq<char>) -> bool {
    exists|reading: Option<u64>| stamp == #[trigger] timestamp_for(reading)
}

/// Fifteen characters, of which the ninth is the separator and all others
/// are decimal digits.
pub open spec fn has_timestamp_shape(stamp: Seq<char>) -> bool {
    &&& stamp.len() == 15
    &&& stamp[8] == '_'
    &&& forall|i: int| 0 <= i < 15 && i != 8 ==> is_decimal_digit(#[trigger] stamp[i])
}

/// Every suffix for a moment before the year 10000 has the shape
/// `YYYYMMDD_HHMMSS`: fifteen characters with the one separator at index 8.
pub proof fn lemma_timestamp_shape(secs: u64)
    requires
        secs < YEAR_TEN_THOUSAND,
    ensures
        has_timestamp_shape(timestamp_text(secs)),
{
    reveal_strlit("_");
    lemma_zero_padded(year_of(secs), 4);
    lemma_zero_padded(month_of(secs), 2);
    lemma_zero_padded(day_of(secs), 2);
    lemma_zero_padded(hour_of(secs), 2);
    lemma_zero_padded(minute_of(secs), 2);
    lemma_zero_padded(second_of(secs), 2);
    crate::text::lemma_decimal_digits(year_of(secs));
    crate::text::lemma_decimal_digits(month_of(secs));
    crate::text::lemma_decimal_digits(day_of(secs));
    crate::text::lemma_decimal_digits(hour_of(secs));
    crate::text::lemma_decimal_digits(minute_of(secs));
    crate::text::lemma_decimal_digits(second_of(secs));
}

/// The suffix used without a clock has the same shape as any other.
pub proof fn lemma_fallback_shape()
    ensures
        has_timestamp_shape(FALLBACK_TIMESTAMP@),
{
    reveal_strlit("00000000_000000");
}

/// The suffix for the moment `secs` seconds after the epoch.
pub fn format_timestamp(secs: u64) -> (stamp: String)
    ensures
        stamp@ == timestamp_text(secs),
{
    let days: u64 = secs / 86_400;
    let in_year: u64 = days % 365;
    let year: u64 = 1970 + days / 365;
    let month: u64 = if in_year / 30 + 1 < 12 {
        in_year / 30 + 1
    } else {
        12
    };
    let day: u64 = in_year % 30 + 1;
    let in_day: u64 = secs % 86_400;
    assert(year == year_of(secs) && month == month_of(secs) && day == day_of(secs));
    assert(in_day / 3_600 == hour_of(secs));
    assert((in_day % 3_600) / 60 == minute_of(secs));
    assert(in_day % 60 == second_of(secs));
    let mut stamp = String::new();
    push_decimal(&mut stamp, year, 4);
    assert(stamp@ =~= zero_padded(year_of(secs), 4));
    push_decimal(&mut stamp, month, 2);
    push_decimal(&mut stamp, day, 2);
    stamp.append(SEPARATOR);
    push_decimal(&mut stamp, in_day / 3_600, 2);
    push_decimal(&mut stamp, (in_day % 3_600) / 60, 2);
    push_decimal(&mut stamp, in_day % 60, 2);
    stamp
}

/// The system clock's type for a moment in time, `std::time::SystemTime`.
/// Nothing inside it is known here.
#[verifier::external_type_specification]
#[verifier::external_body]
pub struct ExSystemTime(std::time::SystemTime);

/// The error of `SystemTime::duration_since`, `std::time::SystemTimeError`:
/// the second moment was later than the first. Nothing inside it is known
/// here.
#[verifier::external_type_specification]
#[verifier::external_body]
pub struct ExSystemTimeError(std::time::SystemTimeError);

/// `SystemTime::now` reads the system clock. Nothing is claimed of the moment
/// it returns.
pub assume_specification[ SystemTime::now ]() -> (now: SystemTime);

/// Calls `SystemTime::duration_since` with the epoch, `SystemTime::UNIX_EPOCH`,
/// as the earlier moment: the time that passed from the epoch to `time`, or an
/// error where `time` lies before the epoch. Nothing is claimed of which it
/// is, nor of the amount.
#[verifier::external_body]
fn since_epoch(time: &SystemTime) -> (elapsed: Result<Duration, SystemTimeError>) {
    time.duration_since(SystemTime::UNIX_EPOCH)
}

/// `Duration::as_secs` gives the whole seconds that a duration holds. Nothing
/// is claimed of the number.
pub assume_specification[ Duration::as_secs ](duration: &Duration) -> (secs: u64);

/// The seconds that the system clock counts since the epoch, or nothing
/// where the clock stands before the epoch.
fn seconds_since_epoch() -> (reading: Option<u64>) {
    let now = SystemTime::now();
    match since_epoch(&now) {
        Ok(elapsed) => Some(elapsed.as_secs()),
        Err(_) => None,
    }
}

/// The suffix for a reading of the clock. Without a reading it is the fixed
/// suffix of zeros, so that an extraction can go on without a clock.
pub fn timestamp_at(reading: Option<u64>) -> (stamp: String)
    ensures
        stamp@ == timestamp_for(reading),
{
    match reading {
        Some(secs) => format_timestamp(secs),
        None => String::from_str(FALLBACK_TIMESTAMP),
    }
}

/// The suffix for the present moment, as the system clock gives it.
pub fn create_timestamp() -> (stamp: String)
    ensures
        is_timestamp(stamp@),
{
    let reading = seconds_since_epoch();
    timestamp_at(reading)
}

} // verus!
