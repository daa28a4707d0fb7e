//! What this library takes on trust from other crates. Verus reads the
//! contracts in this file and not the code behind them.

use crate::registry::SessionId;
use vstd::prelude::*;

verus! {

/// Draws a session identifier at random: calls `uuid::Uuid::new_v4` and
/// hands back its 128 bits as `Uuid::as_u128` gives them. Nothing is
/// claimed of the number drawn, not even that two calls differ; whoever
/// attaches a session under it has to be ready for a refusal. (`new_v4`
/// panics if the operating system cannot supply random bytes.)
#[verifier::external_body]
pub(crate) fn fresh_session_id() -> (id: SessionId) {
    uuid::Uuid::new_v4().as_u128()
}

/// The seconds that `chrono` is handed for `timestamp`: the same number
/// where it fits a signed 64-bit integer, and the negative number with the
/// same bits where it does not.
pub open spec fn signed_seconds(timestamp: u64) -> int {
    if timestamp <= i64::MAX {
        timestamp as int
    } else {
        timestamp - 0x1_0000_0000_0000_0000
    }
}

/// Whether `chrono` has a date for the moment `seconds` after the epoch:
/// its calendar runs from the first second of the year -262143 to the
/// last second of the year 262142.
pub open spec fn in_calendar(seconds: int) -> bool {
    -8_334_601_228_800 <= seconds <= 8_210_266_876_799
}

/// The decimal digit `digit`, from 0 to 9, as a character.
pub open spec fn digit_char(digit: int) -> char {
    (48 + digit) as u8 as char
}

/// A number below 100 in two decimal digits.
pub open spec fn two_digits(number: int) -> Seq<char> {
    seq![digit_char(number / 10), digit_char(number % 10)]
}

/// The time of day, in UTC, of the moment `timestamp` seconds after the
/// epoch, as hours, minutes and seconds of two digits each with colons
/// between them; and the time of day of the epoch itself, midnight, where
/// the calendar has no date for the moment.
pub open spec fn utc_clock_text(timestamp: u64) -> Seq<char> {
    let seconds = signed_seconds(timestamp);
    let of_day = if in_calendar(seconds) {
        seconds % 86_400
    } else {
        0
    };
    two_digits(of_day / 3_600) + seq![':'] + two_digits(of_day % 3_600 / 60) + seq![':']
        + two_digits(of_day % 60)
}

/// Writes the time of day of `timestamp`: `chrono::DateTime::from_timestamp`
/// on the seconds, taken as a signed number, and no nanoseconds; the
/// default date and time, which is the epoch, where that gives none; then
/// `DateTime::format` with `%H:%M:%S`. In UTC a day has 86400 seconds and
/// the epoch is a midnight, so that the time of day is the remainder of
/// the seconds by 86400; the format writes hour, minute and second with
/// two digits each, padded with zeros, and names no locale.
#[verifier::external_body]
pub(crate) fn clock_text(timestamp: u64) -> (text: String)
    ensures
        text@ == utc_clock_text(timestamp),
{
    chrono::DateTime::from_timestamp(timestamp as i64, 0)
        .unwrap_or_default()
        .format("%H:%M:%S")
        .to_string()
}

/// `line` without the white space at its two ends, as `str::trim` cuts
/// it.
pub uninterp spec fn trimmed_text(line: Seq<char>) -> Seq<char>;

/// Cuts the white space off both ends of `line` with `str::trim` and
/// copies what is left. What counts as white space is Unicode's business;
/// the contract gives the text its name and claims nothing else of it.
#[verifier::external_body]
pub(crate) fn trim_text(line: &String) -> (trimmed: String)
    ensures
        trimmed@ == trimmed_text(line@),
{
    line.trim().to_string()
}

} // verus!
