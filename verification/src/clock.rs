//! Reading the local clock, and the shapes of the texts it is written in.
//!
//! The reading itself comes from `chrono::Local::now`; what the library can
//! know of it is the form chrono writes it in, which these spec functions
//! state.

use vstd::prelude::*;

verus! {

/// The local date, as "2024-05-01".
pub const DATE_FORMAT: &'static str = "%Y-%m-%d";

/// The local time on a 24-hour clock, as "14:30".
pub const TIME_FORMAT: &'static str = "%H:%M";

/// The date and time as a sentence for the model, as "Current date and
/// time: Saturday, June 20, 2026, 2:34 PM (UTC+05:30)."
pub const DATETIME_LINE_FORMAT: &'static str =
    "Current date and time: %A, %B %-d, %Y, %-I:%M %p (UTC%:z).";

pub open spec fn is_digit(c: char) -> bool {
    '0' <= c && c <= '9'
}

pub open spec fn all_digits(s: Seq<char>) -> bool {
    forall|i: int| 0 <= i < s.len() ==> is_digit(#[trigger] s[i])
}

pub open spec fn digit_value(c: char) -> int {
    (c as int) - ('0' as int)
}

/// Exactly two digits, zero-padded, whose number lies in `lo..=hi`.
pub open spec fn two_digits_within(s: Seq<char>, lo: int, hi: int) -> bool {
    &&& s.len() == 2
    &&& all_digits(s)
    &&& lo <= 10 * digit_value(s[0]) + digit_value(s[1]) <= hi
}

/// A number in `lo..=hi` (below 100) written without a leading zero.
pub open spec fn unpadded_within(s: Seq<char>, lo: int, hi: int) -> bool {
    &&& all_digits(s)
    &&& {
        ||| s.len() == 1 && lo <= digit_value(s[0]) <= hi
        ||| s.len() == 2 && s[0] != '0' && lo <= 10 * digit_value(s[0]) + digit_value(s[1]) <= hi
    }
}

/// A year as chrono writes it: four digits for the years 0 to 9999, and a
/// sign followed by at least four digits for the others.
pub open spec fn year_text(s: Seq<char>) -> bool {
    ||| s.len() == 4 && all_digits(s)
    ||| s.len() >= 5 && (s[0] == '+' || s[0] == '-') && all_digits(s.skip(1))
}

/// A date written with `DATE_FORMAT`: the year, then "-MM-DD" with the
/// month in 01-12 and the day in 01-31.
pub open spec fn date_text(d: Seq<char>) -> bool {
    let n = d.len();
    &&& n >= 10
    &&& year_text(d.take(n - 6))
    &&& d[n - 6] == '-'
    &&& two_digits_within(d.subrange(n - 5, n - 3), 1, 12)
    &&& d[n - 3] == '-'
    &&& two_digits_within(d.skip(n - 2), 1, 31)
}

/// A time written with `TIME_FORMAT`: "HH:MM", hours 00-23, minutes 00-59.
pub open spec fn time_text(t: Seq<char>) -> bool {
    &&& t.len() == 5
    &&& two_digits_within(t.take(2), 0, 23)
    &&& t[2] == ':'
    &&& two_digits_within(t.skip(3), 0, 59)
}

pub open spec fn is_weekday_name(s: Seq<char>) -> bool {
    ||| s == "Sunday"@
    ||| s == "Monday"@
    ||| s == "Tuesday"@
    ||| s == "Wednesday"@
    ||| s == "Thursday"@
    ||| s == "Friday"@
    ||| s == "Saturday"@
}

pub open spec fn is_month_name(s: Seq<char>) -> bool {
    ||| s == "January"@
    ||| s == "February"@
    ||| s == "March"@
    ||| s == "April"@
    ||| s == "May"@
    ||| s == "June"@
    ||| s == "July"@
    ||| s == "August"@
    ||| s == "September"@
    ||| s == "October"@
    ||| s == "November"@
    ||| s == "December"@
}

/// A zone offset written with `%:z`: a sign, two digits of hours, a colon
/// and two digits of minutes (00-59).
pub open spec fn offset_text(s: Seq<char>) -> bool {
    &&& s.len() == 6
    &&& (s[0] == '+' || s[0] == '-')
    &&& two_digits_within(s.subrange(1, 3), 0, 24)
    &&& s[3] == ':'
    &&& two_digits_within(s.skip(4), 0, 59)
}

/// The parts of a line written with `DATETIME_LINE_FORMAT`, each of its
/// form: weekday and month by their English names, the day (1-31) and the
/// hour of a 12-hour clock (1-12) without leading zero, the year, the
/// minutes (00-59), "AM" or "PM", and the zone offset.
pub open spec fn datetime_line_parts(
    weekday: Seq<char>,
    month: Seq<char>,
    day: Seq<char>,
    year: Seq<char>,
    hour: Seq<char>,
    minute: Seq<char>,
    half: Seq<char>,
    offset: Seq<char>,
) -> bool {
    &&& is_weekday_name(weekday)
    &&& is_month_name(month)
    &&& unpadded_within(day, 1, 31)
    &&& year_text(year)
    &&& unpadded_within(hour, 1, 12)
    &&& two_digits_within(minute, 0, 59)
    &&& (half == "AM"@ || half == "PM"@)
    &&& offset_text(offset)
}

/// The line that `DATETIME_LINE_FORMAT` writes from its parts.
pub open spec fn datetime_line_of(
    weekday: Seq<char>,
    month: Seq<char>,
    day: Seq<char>,
    year: Seq<char>,
    hour: Seq<char>,
    minute: Seq<char>,
    half: Seq<char>,
    offset: Seq<char>,
) -> Seq<char> {
    "Current date and time: "@ + weekday + ", "@ + month + " "@ + day + ", "@ + year + ", "@
        + hour + ":"@ + minute + " "@ + half + " (UTC"@ + offset + ")."@
}

/// A line written with `DATETIME_LINE_FORMAT`.
pub open spec fn datetime_line(l: Seq<char>) -> bool {
    exists|
        weekday: Seq<char>,
        month: Seq<char>,
        day: Seq<char>,
        year: Seq<char>,
        hour: Seq<char>,
        minute: Seq<char>,
        half: Seq<char>,
        offset: Seq<char>,
    |
        #[trigger] datetime_line_parts(weekday, month, day, year, hour, minute, half, offset)
            && l == datetime_line_of(weekday, month, day, year, hour, minute, half, offset)
}

/// Calls `chrono::Local::now` once and writes that reading with the three
/// formats of this module (`DateTime::format`, then `to_string`). The
/// reading is whatever the clock gives; of the texts, chrono's format code
/// shows the form each takes, which the `ensures` states. The formats are
/// the module's own, which chrono accepts, so writing them cannot fail.
#[verifier::external_body]
pub(crate) fn local_now_texts(date_format: &str, time_format: &str, line_format: &str) -> (r: (
    String,
    String,
    String,
))
    requires
        date_format@ == DATE_FORMAT@,
        time_format@ == TIME_FORMAT@,
        line_format@ == DATETIME_LINE_FORMAT@,
    ensures
        date_text(r.0@),
        time_text(r.1@),
        datetime_line(r.2@),
{
    let now = chrono::Local::now();
    (
        now.format(date_format).to_string(),
        now.format(time_format).to_string(),
        now.format(line_format).to_string(),
    )
}

} // verus!
