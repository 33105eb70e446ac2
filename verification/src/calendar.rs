//! Timestamps that come as formatted text: a date, a time of day, and
//! possibly seconds and an offset from UTC.
//!
//! The text is brought to the minute in UTC: the seconds are dropped and the
//! offset is applied, which may move the time into the day before or after.

use crate::decimal::{digit_value, digits_end, is_digit, scan_digits};
use crate::error::{ErrorView, TranslateError};
use crate::fields::outcome;
use crate::text::{digit_char, digit_text};
use vstd::prelude::*;
use vstd::string::{StrSliceExecFns, StringExecFns};

verus! {

/// A minute of a day of the calendar, in years of four digits.
pub struct Moment {
    pub year: int,
    pub month: int,
    pub day: int,
    pub hour: int,
    pub minute: int,
}

/// Whether a year has 366 days.
pub open spec fn is_leap_year(year: int) -> bool {
    year % 4 == 0 && (year % 100 != 0 || year % 400 == 0)
}

/// The number of days of a month.
pub open spec fn days_in_month(year: int, month: int) -> int {
    if month == 2 {
        if is_leap_year(year) {
            29
        } else {
            28
        }
    } else if month == 4 || month == 6 || month == 9 || month == 11 {
        30
    } else {
        31
    }
}

impl Moment {
    /// Whether the moment exists: a year from 0 to 9999, a month of the
    /// year, a day of the month, an hour up to 23 and a minute up to 59.
    pub open spec fn valid(self) -> bool {
        &&& 0 <= self.year <= 9999
        &&& 1 <= self.month <= 12
        &&& 1 <= self.day <= days_in_month(self.year, self.month)
        &&& 0 <= self.hour <= 23
        &&& 0 <= self.minute <= 59
    }

    /// The minute of the day before, at the same time of day; `None`
    /// before the year 0000.
    pub open spec fn day_before(self) -> Option<Moment> {
        if self.day > 1 {
            Some(Moment { day: self.day - 1, ..self })
        } else if self.month > 1 {
            Some(
                Moment {
                    month: self.month - 1,
                    day: days_in_month(self.year, self.month - 1),
                    ..self
                },
            )
        } else if self.year > 0 {
            Some(Moment { year: self.year - 1, month: 12, day: 31, ..self })
        } else {
            None
        }
    }

    /// The minute of the day after, at the same time of day; `None` after
    /// the year 9999.
    pub open spec fn day_after(self) -> Option<Moment> {
        if self.day < days_in_month(self.year, self.month) {
            Some(Moment { day: self.day + 1, ..self })
        } else if self.month < 12 {
            Some(Moment { month: self.month + 1, day: 1, ..self })
        } else if self.year < 9999 {
            Some(Moment { year: self.year + 1, month: 1, day: 1, ..self })
        } else {
            None
        }
    }

    /// The moment in UTC of a moment that is given with an offset from UTC
    /// in minutes: the offset is taken off, into the day before or after
    /// where the time of day leaves the day.
    pub open spec fn in_utc(self, offset: int) -> Option<Moment> {
        let total = self.hour * 60 + self.minute - offset;
        if total < 0 {
            match self.day_before() {
                Some(m) => Some(
                    Moment { hour: (total + 1440) / 60, minute: (total + 1440) % 60, ..m },
                ),
                None => None,
            }
        } else if total >= 1440 {
            match self.day_after() {
                Some(m) => Some(
                    Moment { hour: (total - 1440) / 60, minute: (total - 1440) % 60, ..m },
                ),
                None => None,
            }
        } else {
            Some(Moment { hour: total / 60, minute: total % 60, ..self })
        }
    }

    /// The canonical form of the moment: `YYYY-MM-DD HH:MM`.
    pub open spec fn text(self) -> Seq<char> {
        two_digit_text(self.year / 100) + two_digit_text(self.year % 100) + seq!['-']
            + two_digit_text(self.month) + seq!['-'] + two_digit_text(self.day) + seq![' ']
            + two_digit_text(self.hour) + seq![':'] + two_digit_text(self.minute)
    }
}

/// The two digits of a number below 100.
pub open spec fn two_digit_text(n: int) -> Seq<char> {
    seq![digit_char(n / 10), digit_char(n % 10)]
}

/// The value of the two digits at `at` and `at + 1`.
pub open spec fn two_digits(s: Seq<char>, at: int) -> int {
    digit_value(s[at]) * 10 + digit_value(s[at + 1])
}

/// The date and the time of day that a text begins with.
pub open spec fn local_moment(s: Seq<char>) -> Moment {
    Moment {
        year: two_digits(s, 0) * 100 + two_digits(s, 2),
        month: two_digits(s, 5),
        day: two_digits(s, 8),
        hour: two_digits(s, 11),
        minute: two_digits(s, 14),
    }
}

/// Whether a text begins with a date and a time to the minute:
/// `YYYY-MM-DD`, then `T` or a space, then `HH:MM`, and the date and the
/// time exist.
pub open spec fn has_minute_shape(s: Seq<char>) -> bool {
    &&& s.len() >= 16
    &&& is_digit(s[0]) && is_digit(s[1]) && is_digit(s[2]) && is_digit(s[3])
    &&& s[4] == '-' && is_digit(s[5]) && is_digit(s[6])
    &&& s[7] == '-' && is_digit(s[8]) && is_digit(s[9])
    &&& (s[10] == 'T' || s[10] == ' ')
    &&& is_digit(s[11]) && is_digit(s[12])
    &&& s[13] == ':' && is_digit(s[14]) && is_digit(s[15])
    &&& local_moment(s).valid()
}

/// Where the seconds of a text end, which is where its offset begins: at
/// the minute where the text gives no seconds, else behind `:SS` and a
/// fraction of `.` and digits, if there is one. `None` where what follows
/// the minute with a colon is no such thing.
pub open spec fn seconds_end(s: Seq<char>) -> Option<int> {
    if s.len() > 16 && s[16] == ':' {
        if s.len() >= 19 && is_digit(s[17]) && is_digit(s[18]) && two_digits(s, 17) <= 60 {
            if s.len() > 19 && s[19] == '.' {
                if digits_end(s, 20) > 20 {
                    Some(digits_end(s, 20))
                } else {
                    None
                }
            } else {
                Some(19)
            }
        } else {
            None
        }
    } else {
        Some(16)
    }
}

/// The offset from UTC, in minutes, that stands at `at` and ends the text:
/// none or `Z` for UTC itself, else a sign and `HH:MM` or `HHMM`. `None`
/// for anything else.
pub open spec fn zone_offset(s: Seq<char>, at: int) -> Option<int> {
    if at == s.len() {
        Some(0)
    } else if !(0 <= at < s.len()) {
        None
    } else if s[at] == 'Z' {
        if at + 1 == s.len() {
            Some(0)
        } else {
            None
        }
    } else if s[at] == '+' || s[at] == '-' {
        let with_colon = s.len() == at + 6 && s[at + 3] == ':';
        let minutes_at = if with_colon {
            at + 4
        } else {
            at + 3
        };
        if (with_colon || s.len() == at + 5) && is_digit(s[at + 1]) && is_digit(s[at + 2])
            && is_digit(s[minutes_at]) && is_digit(s[minutes_at + 1]) && two_digits(s, at + 1)
            <= 23 && two_digits(s, minutes_at) <= 59 {
            let minutes = two_digits(s, at + 1) * 60 + two_digits(s, minutes_at);
            Some(
                if s[at] == '-' {
                    -minutes
                } else {
                    minutes
                },
            )
        } else {
            None
        }
    } else {
        None
    }
}

/// The moment in UTC that a formatted text gives; `None` where the text has
/// another form or the moment lies outside the years 0000 to 9999.
pub open spec fn moment_of_text(s: Seq<char>) -> Option<Moment> {
    if !has_minute_shape(s) {
        None
    } else {
        match seconds_end(s) {
            None => None,
            Some(at) => match zone_offset(s, at) {
                None => None,
                Some(offset) => local_moment(s).in_utc(offset),
            },
        }
    }
}

/// The canonical form of a formatted text: its minute in UTC.
pub open spec fn minute_of_text(s: Seq<char>) -> Option<Seq<char>> {
    match moment_of_text(s) {
        Some(m) => Some(m.text()),
        None => None,
    }
}

/// Whether a text has the canonical form: exactly `YYYY-MM-DD HH:MM`, with
/// a space between day and hour, for a date and a time that exist.
pub open spec fn is_canonical(s: Seq<char>) -> bool {
    has_minute_shape(s) && s.len() == 16 && s[10] == ' '
}

/// The character of a digit is a digit and has the value of the digit.
pub proof fn lemma_digit_char_value(d: int)
    requires
        0 <= d <= 9,
    ensures
        is_digit(digit_char(d)),
        digit_value(digit_char(d)) == d,
{
}

/// A digit is the character of its value.
pub proof fn lemma_digit_value_char(c: char)
    requires
        is_digit(c),
    ensures
        digit_char(digit_value(c)) == c,
{
    let code = c as u32;
    assert(code == 48 || code == 49 || code == 50 || code == 51 || code == 52 || code == 53 || code
        == 54 || code == 55 || code == 56 || code == 57);
    assert('0' as u32 == 48 && '1' as u32 == 49 && '2' as u32 == 50 && '3' as u32 == 51);
    assert('4' as u32 == 52 && '5' as u32 == 53 && '6' as u32 == 54 && '7' as u32 == 55);
    assert('8' as u32 == 56 && '9' as u32 == 57);
}

/// The two digits that are written for a number below 100 are digits and
/// have the value of the number.
pub proof fn lemma_two_digits_written(n: int)
    requires
        0 <= n <= 99,
    ensures
        is_digit(two_digit_text(n)[0]),
        is_digit(two_digit_text(n)[1]),
        digit_value(two_digit_text(n)[0]) * 10 + digit_value(two_digit_text(n)[1]) == n,
{
    lemma_digit_char_value(n / 10);
    lemma_digit_char_value(n % 10);
}

/// Two digits of a text are what is written for their value.
pub proof fn lemma_two_digits_read(s: Seq<char>, at: int)
    requires
        0 <= at,
        at + 1 < s.len(),
        is_digit(s[at]),
        is_digit(s[at + 1]),
    ensures
        two_digit_text(two_digits(s, at)) == seq![s[at], s[at + 1]],
{
    lemma_digit_value_char(s[at]);
    lemma_digit_value_char(s[at + 1]);
    let a = digit_value(s[at]);
    let b = digit_value(s[at + 1]);
    assert((a * 10 + b) / 10 == a && (a * 10 + b) % 10 == b);
}

/// The text of a moment that exists is in the canonical form and gives the
/// moment again.
pub proof fn lemma_moment_text_is_canonical(m: Moment)
    requires
        m.valid(),
    ensures
        is_canonical(m.text()),
        local_moment(m.text()) == m,
{
    let s = m.text();
    lemma_two_digits_written(m.year / 100);
    lemma_two_digits_written(m.year % 100);
    lemma_two_digits_written(m.month);
    lemma_two_digits_written(m.day);
    lemma_two_digits_written(m.hour);
    lemma_two_digits_written(m.minute);
    assert(s.len() == 16);
    assert(s[0] == two_digit_text(m.year / 100)[0] && s[1] == two_digit_text(m.year / 100)[1]);
    assert(s[2] == two_digit_text(m.year % 100)[0] && s[3] == two_digit_text(m.year % 100)[1]);
    assert(s[4] == '-' && s[7] == '-' && s[10] == ' ' && s[13] == ':');
    assert(s[5] == two_digit_text(m.month)[0] && s[6] == two_digit_text(m.month)[1]);
    assert(s[8] == two_digit_text(m.day)[0] && s[9] == two_digit_text(m.day)[1]);
    assert(s[11] == two_digit_text(m.hour)[0] && s[12] == two_digit_text(m.hour)[1]);
    assert(s[14] == two_digit_text(m.minute)[0] && s[15] == two_digit_text(m.minute)[1]);
    assert(two_digits(s, 0) == m.year / 100);
    assert(two_digits(s, 2) == m.year % 100);
    assert(two_digits(s, 5) == m.month);
    assert(two_digits(s, 8) == m.day);
    assert(two_digits(s, 11) == m.hour);
    assert(two_digits(s, 14) == m.minute);
}

/// Taking an offset off a moment that exists gives a moment that exists.
pub proof fn lemma_in_utc_is_valid(m: Moment, offset: int)
    requires
        m.valid(),
        -1440 < offset < 1440,
        m.in_utc(offset) is Some,
    ensures
        m.in_utc(offset)->Some_0.valid(),
{
}

/// A text in the canonical form is its own canonical form.
pub proof fn lemma_canonical_text_is_kept(s: Seq<char>)
    requires
        is_canonical(s),
    ensures
        minute_of_text(s) == Some(s),
{
    let m = local_moment(s);
    assert(m.in_utc(0) == Some(m));
    assert(moment_of_text(s) == Some(m));
    lemma_two_digits_read(s, 0);
    lemma_two_digits_read(s, 2);
    lemma_two_digits_read(s, 5);
    lemma_two_digits_read(s, 8);
    lemma_two_digits_read(s, 11);
    lemma_two_digits_read(s, 14);
    let century = two_digits(s, 0);
    let years = two_digits(s, 2);
    assert((century * 100 + years) / 100 == century && (century * 100 + years) % 100 == years);
    assert(m.text() =~= s);
}

/// What a formatted text is brought to is in the canonical form.
pub proof fn lemma_text_becomes_canonical(s: Seq<char>)
    requires
        minute_of_text(s) is Some,
    ensures
        is_canonical(minute_of_text(s)->Some_0),
{
    let at = seconds_end(s)->Some_0;
    let offset = zone_offset(s, at)->Some_0;
    lemma_in_utc_is_valid(local_moment(s), offset);
    lemma_moment_text_is_canonical(moment_of_text(s)->Some_0);
}

/// A moment as the program holds it.
struct Stamp {
    year: u32,
    month: u32,
    day: u32,
    hour: u32,
    minute: u32,
}

/// The moment that a stamp holds.
spec fn moment(st: Stamp) -> Moment {
    Moment {
        year: st.year as int,
        month: st.month as int,
        day: st.day as int,
        hour: st.hour as int,
        minute: st.minute as int,
    }
}

/// The value of the digit at `at`, where there is one.
fn digit_at(text: &str, at: usize) -> (out: Option<u32>)
    requires
        at < text@.len(),
    ensures
        match out {
            Some(d) => is_digit(text@[at as int]) && d == digit_value(text@[at as int]) && d <= 9,
            None => !is_digit(text@[at as int]),
        },
{
    let code = text.get_char(at) as u32;
    if 48 <= code && code <= 57 {
        Some(code - 48)
    } else {
        None
    }
}

/// The value of the two digits at `at`, where both are digits.
fn two_digits_at(text: &str, at: usize) -> (out: Option<u32>)
    requires
        at < usize::MAX,
        at + 1 < text@.len(),
    ensures
        match out {
            Some(v) => is_digit(text@[at as int]) && is_digit(text@[at + 1]) && v == two_digits(
                text@,
                at as int,
            ) && v <= 99,
            None => !is_digit(text@[at as int]) || !is_digit(text@[at + 1]),
        },
{
    match (digit_at(text, at), digit_at(text, at + 1)) {
        (Some(tens), Some(ones)) => Some(tens * 10 + ones),
        _ => None,
    }
}

/// The number of days of a month.
fn days_of_month(year: u32, month: u32) -> (out: u32)
    ensures
        out == days_in_month(year as int, month as int),
{
    if month == 2 {
        if year % 4 == 0 && (year % 100 != 0 || year % 400 == 0) {
            29
        } else {
            28
        }
    } else if month == 4 || month == 6 || month == 9 || month == 11 {
        30
    } else {
        31
    }
}

/// The date and the time of day that a text begins with.
fn read_local(text: &str, len: usize) -> (out: Option<Stamp>)
    requires
        len == text@.len(),
    ensures
        match out {
            Some(st) => has_minute_shape(text@) && moment(st) == local_moment(text@),
            None => !has_minute_shape(text@),
        },
{
    if len < 16 {
        return None;
    }
    let separator = text.get_char(10);
    if text.get_char(4) != '-' || text.get_char(7) != '-' || text.get_char(13) != ':' || (separator
        != 'T' && separator != ' ') {
        return None;
    }
    let century = two_digits_at(text, 0);
    let years = two_digits_at(text, 2);
    let month = two_digits_at(text, 5);
    let day = two_digits_at(text, 8);
    let hour = two_digits_at(text, 11);
    let minute = two_digits_at(text, 14);
    match (century, years, month, day, hour, minute) {
        (Some(c), Some(y), Some(month), Some(day), Some(hour), Some(minute)) => {
            let year = c * 100 + y;
            if 1 <= month && month <= 12 && 1 <= day && day <= days_of_month(year, month) && hour
                <= 23 && minute <= 59 {
                Some(Stamp { year, month, day, hour, minute })
            } else {
                None
            }
        },
        _ => None,
    }
}

/// Where the seconds of a text end.
fn read_seconds_end(text: &str, len: usize) -> (out: Option<usize>)
    requires
        len == text@.len(),
        len >= 16,
    ensures
        match out {
            Some(at) => seconds_end(text@) == Some(at as int) && 16 <= at <= len,
            None => seconds_end(text@) is None,
        },
{
    if len > 16 && text.get_char(16) == ':' {
        if len < 19 {
            return None;
        }
        match two_digits_at(text, 17) {
            Some(seconds) => {
                if seconds > 60 {
                    None
                } else if len > 19 && text.get_char(19) == '.' {
                    let end = scan_digits(text, len, 20);
                    if end > 20 {
                        Some(end)
                    } else {
                        None
                    }
                } else {
                    Some(19)
                }
            },
            None => None,
        }
    } else {
        Some(16)
    }
}

/// The offset from UTC, in minutes, that stands at `at` and ends the text.
fn read_zone(text: &str, len: usize, at: usize) -> (out: Option<i32>)
    requires
        len == text@.len(),
        at <= len,
    ensures
        match out {
            Some(offset) => zone_offset(text@, at as int) == Some(offset as int) && -1440 < offset
                < 1440,
            None => zone_offset(text@, at as int) is None,
        },
{
    if at == len {
        return Some(0);
    }
    let mark = text.get_char(at);
    if mark == 'Z' {
        return if len - at == 1 {
            Some(0)
        } else {
            None
        };
    }
    if mark != '+' && mark != '-' {
        return None;
    }
    let with_colon = len - at == 6 && text.get_char(at + 3) == ':';
    if !with_colon && len - at != 5 {
        return None;
    }
    let minutes_at: usize = if with_colon {
        at + 4
    } else {
        at + 3
    };
    match (two_digits_at(text, at + 1), two_digits_at(text, minutes_at)) {
        (Some(hours), Some(minutes)) => {
            if hours <= 23 && minutes <= 59 {
                let total = (hours * 60 + minutes) as i32;
                if mark == '-' {
                    Some(-total)
                } else {
                    Some(total)
                }
            } else {
                None
            }
        },
        _ => None,
    }
}

/// The moment in UTC of a moment that is given with an offset.
fn to_utc(st: Stamp, offset: i32) -> (out: Option<Stamp>)
    requires
        moment(st).valid(),
        -1440 < offset < 1440,
    ensures
        match out {
            Some(utc) => moment(st).in_utc(offset as int) == Some(moment(utc)),
            None => moment(st).in_utc(offset as int) is None,
        },
{
    let total: i32 = (st.hour * 60 + st.minute) as i32 - offset;
    if total < 0 {
        let time = (total + 1440) as u32;
        let hour = time / 60;
        let minute = time % 60;
        if st.day > 1 {
            Some(Stamp { year: st.year, month: st.month, day: st.day - 1, hour, minute })
        } else if st.month > 1 {
            Some(
                Stamp {
                    year: st.year,
                    month: st.month - 1,
                    day: days_of_month(st.year, st.month - 1),
                    hour,
                    minute,
                },
            )
        } else if st.year > 0 {
            Some(Stamp { year: st.year - 1, month: 12, day: 31, hour, minute })
        } else {
            None
        }
    } else if total >= 1440 {
        let time = (total - 1440) as u32;
        let hour = time / 60;
        let minute = time % 60;
        if st.day < days_of_month(st.year, st.month) {
            Some(Stamp { year: st.year, month: st.month, day: st.day + 1, hour, minute })
        } else if st.month < 12 {
            Some(Stamp { year: st.year, month: st.month + 1, day: 1, hour, minute })
        } else if st.year < 9999 {
            Some(Stamp { year: st.year + 1, month: 1, day: 1, hour, minute })
        } else {
            None
        }
    } else {
        let time = total as u32;
        Some(
            Stamp {
                year: st.year,
                month: st.month,
                day: st.day,
                hour: time / 60,
                minute: time % 60,
            },
        )
    }
}

/// Adds the two digits of a number below 100 to a text.
fn push_two_digits(out: &mut String, n: u32)
    requires
        n <= 99,
    ensures
        final(out)@ == old(out)@ + two_digit_text(n as int),
{
    let ghost before = out@;
    out.append(digit_text((n / 10) as u64));
    out.append(digit_text((n % 10) as u64));
    assert(out@ =~= before + two_digit_text(n as int));
}

/// The canonical form of a moment.
fn write_stamp(st: &Stamp) -> (out: String)
    requires
        moment(*st).valid(),
    ensures
        out@ == moment(*st).text(),
{
    proof {
        reveal_strlit("-");
        reveal_strlit(" ");
        reveal_strlit(":");
    }
    let mut out = String::new();
    assert(out@ + two_digit_text(st.year as int / 100) =~= two_digit_text(st.year as int / 100));
    push_two_digits(&mut out, st.year / 100);
    push_two_digits(&mut out, st.year % 100);
    out.append("-");
    push_two_digits(&mut out, st.month);
    out.append("-");
    push_two_digits(&mut out, st.day);
    out.append(" ");
    push_two_digits(&mut out, st.hour);
    out.append(":");
    push_two_digits(&mut out, st.minute);
    out
}

/// The canonical form of a timestamp that is already formatted: its minute
/// in UTC. A text of another form, and one whose minute in UTC lies outside
/// the years 0000 to 9999, is a format error.
pub fn normalize_text(text: &str) -> (out: Result<String, TranslateError>)
    ensures
        outcome(out, |s: String| s@) == (match minute_of_text(text@) {
            Some(canonical) => Ok::<Seq<char>, ErrorView>(canonical),
            None => Err::<Seq<char>, ErrorView>(ErrorView::FormatError),
        }),
        out is Ok ==> is_canonical(out->Ok_0@),
{
    let len = text.unicode_len();
    let local = match read_local(text, len) {
        Some(local) => local,
        None => {
            return Err(TranslateError::FormatError);
        },
    };
    let at = match read_seconds_end(text, len) {
        Some(at) => at,
        None => {
            return Err(TranslateError::FormatError);
        },
    };
    let offset = match read_zone(text, len, at) {
        Some(offset) => offset,
        None => {
            return Err(TranslateError::FormatError);
        },
    };
    match to_utc(local, offset) {
        Some(utc) => {
            proof {
                lemma_text_becomes_canonical(text@);
            }
            Ok(write_stamp(&utc))
        },
        None => Err(TranslateError::FormatError),
    }
}

} // verus!
