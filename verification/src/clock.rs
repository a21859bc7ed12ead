//! The time of day of an instant, as a clock on the wall shows it in a
//! zone at a fixed offset from UTC.

use vstd::prelude::*;
use crate::decimal::{decimal, digit_char, digit_value, is_digit, to_decimal};

verus! {

/// The first second, counted from 1970 (UTC), for which there is a date:
/// the first of January of the year -262143.
pub const FIRST_SECOND: i64 = -8_334_601_228_800;

/// The last second for which there is a date: the end of the year 262142.
pub const LAST_SECOND: i64 = 8_210_266_876_799;

/// Whether there is a date and a time for the instant `nanos` nanoseconds
/// after second `secs`. Nanoseconds of a whole second and more stand for
/// a leap second, which can only end a minute.
pub open spec fn has_date(secs: i64, nanos: u32) -> bool {
    &&& FIRST_SECOND <= secs <= LAST_SECOND
    &&& nanos < 2_000_000_000
    &&& nanos >= 1_000_000_000 ==> (secs as int) % 60 == 59
}

/// Whether `offset` seconds east of UTC can be the offset of a zone: it
/// is less than a day either way.
pub open spec fn is_offset(offset: i32) -> bool {
    -86_400 < offset < 86_400
}

/// The seconds since midnight on a clock `offset` seconds ahead of UTC, at
/// second `secs`.
pub open spec fn second_of_day(secs: i64, offset: i32) -> int {
    (secs + offset) % 86_400
}

/// The hour that the clock shows.
pub open spec fn hour_of(secs: i64, offset: i32) -> int {
    second_of_day(secs, offset) / 3_600
}

/// The minute that the clock shows.
pub open spec fn minute_of(secs: i64, offset: i32) -> int {
    second_of_day(secs, offset) / 60 % 60
}

/// A number in decimal with at least two digits: a zero before a single
/// digit.
pub open spec fn two_digits(n: nat) -> Seq<char> {
    if n < 10 {
        seq!['0', digit_char(n)]
    } else {
        decimal(n)
    }
}

/// The time of day as it is shown: hours and minutes of two digits each,
/// with a colon between.
pub open spec fn clock_text(secs: i64, offset: i32) -> Seq<char> {
    two_digits(hour_of(secs, offset) as nat) + seq![':'] + two_digits(
        minute_of(secs, offset) as nat,
    )
}

/// Whether `text` is a time of day in 24 hours, as in `09:05`.
pub open spec fn is_clock(text: Seq<char>) -> bool {
    &&& text.len() == 5
    &&& is_digit(text[0])
    &&& is_digit(text[1])
    &&& text[2] == ':'
    &&& is_digit(text[3])
    &&& is_digit(text[4])
    &&& digit_value(text[0]) * 10 + digit_value(text[1]) < 24
    &&& digit_value(text[3]) * 10 + digit_value(text[4]) < 60
}

/// A number below a hundred is written with exactly two digits, which
/// read back as the number.
pub proof fn lemma_two_digits(n: nat)
    requires
        n < 100,
    ensures
        two_digits(n).len() == 2,
        is_digit(two_digits(n)[0]),
        is_digit(two_digits(n)[1]),
        digit_value(two_digits(n)[0]) * 10 + digit_value(two_digits(n)[1]) == n,
{
    if n >= 10 {
        reveal_with_fuel(decimal, 2);
        assert(decimal(n) =~= seq![digit_char(n / 10), digit_char(n % 10)]);
    }
}

/// The time of day is shown as a time of day, whatever the instant and
/// the offset: an hour below 24 and a minute below 60, of two digits each.
pub proof fn lemma_clock_shape(secs: i64, offset: i32)
    ensures
        0 <= hour_of(secs, offset) < 24,
        0 <= minute_of(secs, offset) < 60,
        is_clock(clock_text(secs, offset)),
{
    lemma_two_digits(hour_of(secs, offset) as nat);
    lemma_two_digits(minute_of(secs, offset) as nat);
}

/// `DateTime::from_timestamp` and `FixedOffset::east_opt` of `chrono`,
/// then `with_timezone` to that offset and `Timelike::hour` and
/// `Timelike::minute` of the result. There is an answer exactly where
/// `chrono` has a date for the instant and takes the offset; it is the
/// hour and the minute of the instant's second moved by the offset.
#[verifier::external_body]
fn hour_and_minute(secs: i64, nanos: u32, offset: i32) -> (time: Option<(u32, u32)>)
    ensures
        time.is_some() == (has_date(secs, nanos) && is_offset(offset)),
        time matches Some((hour, minute)) ==> hour == hour_of(secs, offset) && minute
            == minute_of(secs, offset),
{
    match (chrono::DateTime::from_timestamp(secs, nanos), chrono::FixedOffset::east_opt(offset)) {
        (Some(utc), Some(zone)) => {
            let local = utc.with_timezone(&zone);
            Some((chrono::Timelike::hour(&local), chrono::Timelike::minute(&local)))
        },
        _ => None,
    }
}

fn pad_two(n: u32) -> (text: String)
    ensures
        text@ == two_digits(n as nat),
{
    if n < 10 {
        let mut text = String::new();
        text.push('0');
        text.append(to_decimal(n as u64).as_str());
        assert(text@ =~= two_digits(n as nat));
        text
    } else {
        to_decimal(n as u64)
    }
}

/// The time of day at the instant `nanos` nanoseconds after second `secs`
/// since 1970 (UTC), on a clock `offset` seconds ahead of UTC: `None`
/// where there is no date for the instant or the offset is a day or more,
/// else hours and minutes as in `09:05`.
pub fn clock(secs: i64, nanos: u32, offset: i32) -> (text: Option<String>)
    ensures
        text.is_some() == (has_date(secs, nanos) && is_offset(offset)),
        text matches Some(text) ==> text@ == clock_text(secs, offset),
{
    match hour_and_minute(secs, nanos, offset) {
        None => None,
        Some((hour, minute)) => {
            let mut text = pad_two(hour);
            text.push(':');
            text.append(pad_two(minute).as_str());
            assert(text@ =~= clock_text(secs, offset));
            Some(text)
        },
    }
}

} // verus!
