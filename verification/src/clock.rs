//! The time that a message shows.

use crate::foreign::{time_of_day, utc_time_of_day};
use crate::text::digit;
use vstd::prelude::*;

verus! {

/// A 64-bit number read as a signed one.
pub open spec fn as_signed(n: u64) -> int {
    if n <= i64::MAX {
        n as int
    } else {
        n - 0x1_0000_0000_0000_0000
    }
}

/// A number below 100, with two digits.
pub open spec fn two_digits(n: int) -> Seq<char> {
    seq![digit(n / 10), digit(n % 10)]
}

/// How the time of a message is shown: hour, minute and second in UTC, or question marks for a
/// time that is out of range.
pub open spec fn clock_text(timestamp: u64) -> Seq<char> {
    match time_of_day(as_signed(timestamp)) {
        Some((hour, minute, second)) => two_digits(hour as int) + ":"@ + two_digits(minute as int)
            + ":"@ + two_digits(second as int),
        None => "??:??:??"@,
    }
}

fn two_digit_text(n: u32) -> (r: String)
    requires
        n < 100,
    ensures
        r@ == two_digits(n as int),
{
    let mut text = crate::text::digit_text((n / 10) as u64).to_owned();
    text.append(crate::text::digit_text((n % 10) as u64));
    assert(text@ =~= two_digits(n as int));
    text
}

/// Shows the time of a message.
pub fn show_time(timestamp: u64) -> (r: String)
    ensures
        r@ == clock_text(timestamp),
{
    let seconds: i64 = if timestamp <= i64::MAX as u64 {
        timestamp as i64
    } else {
        -((u64::MAX - timestamp) as i64) - 1
    };
    match utc_time_of_day(seconds) {
        Some((hour, minute, second)) => {
            let mut text = two_digit_text(hour);
            text.append(":");
            text.append(two_digit_text(minute).as_str());
            text.append(":");
            text.append(two_digit_text(second).as_str());
            text
        },
        None => "??:??:??".to_owned(),
    }
}

/// The timestamp of a clock that shows this number of seconds since the beginning of 1970, if it
/// shows any and the date is one that can be represented.
pub fn usable_timestamp(clock: Option<u64>) -> (r: Option<i64>)
    ensures
        match clock {
            Some(seconds) => if time_of_day(seconds as int) is Some {
                r matches Some(timestamp) && timestamp == seconds
            } else {
                r is None
            },
            None => r is None,
        },
{
    match clock {
        Some(seconds) => {
            if seconds > i64::MAX as u64 {
                return None;
            }
            let timestamp: i64 = seconds as i64;
            match utc_time_of_day(timestamp) {
                Some(_) => Some(timestamp),
                None => None,
            }
        },
        None => None,
    }
}

/// The time that a message gets under a timestamp, if there is one.
pub fn time_of_message(timestamp: Option<i64>) -> (r: Option<u64>)
    ensures
        match timestamp {
            Some(seconds) => r == Some(seconds as u64),
            None => r is None,
        },
{
    match timestamp {
        Some(seconds) => Some(seconds as u64),
        None => None,
    }
}

/// The time of a message is shown as two digits each for the hour, the minute and the second that
/// have passed since midnight in UTC, parted by colons. Numbers in the upper half of their range
/// stand for times before 1970.
pub proof fn law_clock_text(timestamp: u64, seconds: int)
    requires
        seconds == (if timestamp < 0x8000_0000_0000_0000 {
            timestamp as int
        } else {
            timestamp - 0x1_0000_0000_0000_0000
        }),
        -8_334_601_228_800 <= seconds <= 8_210_266_876_799,
    ensures
        ({
            let text = clock_text(timestamp);
            let hour = 10 * (text[0] as int - 48) + (text[1] as int - 48);
            let minute = 10 * (text[3] as int - 48) + (text[4] as int - 48);
            let second = 10 * (text[6] as int - 48) + (text[7] as int - 48);
            &&& text.len() == 8
            &&& text[2] == ':' && text[5] == ':'
            &&& 0 <= text[0] as int - 48 <= 2 && 0 <= text[1] as int - 48 <= 9
            &&& 0 <= text[3] as int - 48 <= 5 && 0 <= text[4] as int - 48 <= 9
            &&& 0 <= text[6] as int - 48 <= 5 && 0 <= text[7] as int - 48 <= 9
            &&& 3600 * hour + 60 * minute + second == seconds % 86_400
        }),
{
    reveal_strlit(":");
    let second = seconds % 86_400;
    assert(second / 60 % 60 == (second % 3600) / 60);
    assert(3600 * (second / 3600) + 60 * (second / 60 % 60) + second % 60 == second);
}

/// A time that is out of range is shown as question marks.
pub proof fn law_no_clock_text(timestamp: u64)
    requires
        8_210_266_876_799 < timestamp < 0x1_0000_0000_0000_0000 - 8_334_601_228_800,
    ensures
        clock_text(timestamp) == "??:??:??"@,
{
}

}
