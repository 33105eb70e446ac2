//! The canonical form of a timestamp: `YYYY-MM-DD HH:MM`, UTC, to the
//! minute.
//!
//! A timestamp comes as a number of seconds since the Unix epoch or as a
//! text that is already formatted. Everything below the minute is cut off.

use crate::calendar::{is_canonical, lemma_canonical_text_is_kept, minute_of_text, normalize_text};
use crate::decimal::{decimal_whole, whole_of_decimal};
use crate::error::{ErrorView, TranslateError};
use crate::fields::{outcome, schema_error, text_view};
use crate::json::{Json, JsonNumber, JsonView, NumberView};
use vstd::prelude::*;

verus! {

/// The first second that has a canonical form: the first of the year
/// -262143.
pub const MIN_SECONDS: i64 = -8_334_601_228_800;

/// The last second that has a canonical form: the last of the year 262142.
pub const MAX_SECONDS: i64 = 8_210_266_876_799;

/// The first second of the year 0000.
pub const YEAR_0000_START: i64 = -62_167_219_200;

/// The last second of the year 9999.
pub const YEAR_9999_END: i64 = 253_402_300_799;

/// Whether a number of seconds since the Unix epoch has a canonical form.
pub open spec fn in_range(secs: int) -> bool {
    MIN_SECONDS <= secs <= MAX_SECONDS
}

/// Whether a second lies in a year that is written with four digits, from
/// 0000 to 9999.
pub open spec fn has_four_digit_year(secs: int) -> bool {
    YEAR_0000_START <= secs <= YEAR_9999_END
}

/// The first second of the minute that a second lies in: what is below the
/// minute is cut off, not rounded.
pub open spec fn minute_start(secs: int) -> int {
    secs - secs % 60
}

/// What `chrono` writes for the instant `secs` seconds after the Unix
/// epoch, in UTC, with the format `%Y-%m-%d %H:%M`; `None` where `chrono`
/// has no such instant.
pub uninterp spec fn utc_minute(secs: i64) -> Option<Seq<char>>;

/// Calls `chrono::DateTime::from_timestamp` with no nanoseconds and, where
/// it gives an instant, formats that with `%Y-%m-%d %H:%M`. The result is
/// named by `utc_minute`. An instant is given exactly for the seconds from
/// `DateTime::<Utc>::MIN_UTC` to `DateTime::<Utc>::MAX_UTC`. A year from
/// 0000 to 9999 is written with four digits, month, day, hour and minute
/// with two each, so that the text is then in the canonical form; other
/// years are written with a sign and more digits.
#[verifier::external_body]
fn format_utc_minute(secs: i64) -> (out: Option<String>)
    ensures
        match out {
            Some(text) => utc_minute(secs) == Some(text@),
            None => utc_minute(secs) is None,
        },
        out is Some <==> in_range(secs as int),
        out is Some && has_four_digit_year(secs as int) ==> is_canonical(out->Some_0@),
{
    match chrono::DateTime::from_timestamp(secs, 0) {
        Some(at) => Some(at.format("%Y-%m-%d %H:%M").to_string()),
        None => None,
    }
}

/// The whole seconds of a number: the number itself where it is whole, else
/// what stands before its decimal point.
pub open spec fn whole_seconds(n: NumberView) -> Option<int> {
    match n {
        NumberView::Unsigned(u) => Some(u as int),
        NumberView::Negative(i) => Some(i as int),
        NumberView::Real(text) => decimal_whole(text),
    }
}

/// A text in the canonical form, read as a timestamp, is returned as it
/// is.
pub proof fn lemma_canonical_timestamp_is_kept(s: Seq<char>)
    requires
        is_canonical(s),
    ensures
        canonical_of(JsonView::Text(s)) == Ok::<Seq<char>, ErrorView>(s),
{
    lemma_canonical_text_is_kept(s);
}

/// The canonical form of the instant that lies a number of seconds after
/// the Unix epoch: what is written for the first second of its minute. A
/// number out of range is a format error.
pub open spec fn canonical_of_seconds(secs: int) -> Result<Seq<char>, ErrorView> {
    if in_range(secs) {
        match utc_minute(minute_start(secs) as i64) {
            Some(text) => Ok(text),
            None => Err(ErrorView::FormatError),
        }
    } else {
        Err(ErrorView::FormatError)
    }
}

/// The canonical form of a timestamp that stands in a document as a number
/// or as a text. Anything else, a number without whole seconds in range and
/// a text of another shape are format errors.
pub open spec fn canonical_of(j: JsonView) -> Result<Seq<char>, ErrorView> {
    match j {
        JsonView::Number(n) => match whole_seconds(n) {
            Some(w) => canonical_of_seconds(w),
            None => Err(ErrorView::FormatError),
        },
        JsonView::Text(s) => match minute_of_text(s) {
            Some(text) => Ok(text),
            None => Err(ErrorView::FormatError),
        },
        _ => Err(ErrorView::FormatError),
    }
}

/// The whole seconds of a number, where they are in range.
pub fn seconds_of(n: &JsonNumber) -> (out: Option<i64>)
    ensures
        out == (match whole_seconds(n@) {
            Some(w) => if in_range(w) {
                Some(w as i64)
            } else {
                None
            },
            None => None,
        }),
{
    match n {
        JsonNumber::Unsigned(u) => {
            if *u <= MAX_SECONDS as u64 {
                Some(*u as i64)
            } else {
                None
            }
        },
        JsonNumber::Negative(i) => {
            if MIN_SECONDS <= *i && *i <= MAX_SECONDS {
                Some(*i)
            } else {
                None
            }
        },
        JsonNumber::Real(text) => {
            match whole_of_decimal(text.as_str()) {
                Some(w) => {
                    if MIN_SECONDS <= w && w <= MAX_SECONDS {
                        Some(w)
                    } else {
                        None
                    }
                },
                None => None,
            }
        },
    }
}

/// What is returned for a formatted instant: the text, or a format error
/// where there is none.
pub fn formatted_or_error(formatted: Option<String>) -> (out: Result<String, TranslateError>)
    ensures
        match formatted {
            Some(text) => out == Ok::<String, TranslateError>(text),
            None => out == Err::<String, TranslateError>(TranslateError::FormatError),
        },
{
    match formatted {
        Some(text) => Ok(text),
        None => Err(TranslateError::FormatError),
    }
}

/// The canonical form of the instant `secs` seconds after the Unix epoch:
/// what is written for the first second of its minute. It exists exactly
/// for the seconds from `MIN_SECONDS` to `MAX_SECONDS`.
pub fn normalize_seconds(secs: i64) -> (out: Result<String, TranslateError>)
    ensures
        outcome(out, |s: String| s@) == canonical_of_seconds(secs as int),
        out is Ok <==> in_range(secs as int),
        has_four_digit_year(secs as int) ==> out is Ok && is_canonical(out->Ok_0@),
{
    if secs < MIN_SECONDS || secs > MAX_SECONDS {
        return Err(TranslateError::FormatError);
    }
    let within = secs % 60;
    let start = if within < 0 {
        secs - (within + 60)
    } else {
        secs - within
    };
    assert(start == minute_start(secs as int));
    formatted_or_error(format_utc_minute(start))
}

/// Two seconds of one minute have one canonical form: what is below the
/// minute does not count.
pub proof fn lemma_seconds_of_one_minute_agree(a: int, b: int)
    requires
        a / 60 == b / 60,
    ensures
        canonical_of_seconds(a) == canonical_of_seconds(b),
{
}

/// The canonical form of a timestamp that stands in a document as a number
/// or as a text. A number whose whole seconds are in range is never
/// refused. Where the result is in the canonical form, which it is for
/// every text and for every number of a year from 0000 to 9999, the result
/// read as a text gives itself again: a number and the text that is written
/// for its instant have one canonical form.
pub fn float_to_date_string(value: &Json) -> (out: Result<String, TranslateError>)
    ensures
        outcome(out, |s: String| s@) == canonical_of(value@),
        value@ matches JsonView::Number(n) ==> (out is Ok <==> whole_seconds(n) is Some && in_range(
            whole_seconds(n)->Some_0,
        )),
        out is Ok && (value@ matches JsonView::Number(n) ==> has_four_digit_year(
            whole_seconds(n)->Some_0,
        )) ==> is_canonical(out->Ok_0@) && canonical_of(JsonView::Text(out->Ok_0@)) == Ok::<
            Seq<char>,
            ErrorView,
        >(out->Ok_0@),
{
    proof {
        assert forall|s: Seq<char>| is_canonical(s) implies #[trigger] canonical_of(
            JsonView::Text(s),
        ) == Ok::<Seq<char>, ErrorView>(s) by {
            lemma_canonical_timestamp_is_kept(s);
        }
    }
    match value {
        Json::Number(n) => {
            match seconds_of(n) {
                Some(secs) => normalize_seconds(secs),
                None => Err(TranslateError::FormatError),
            }
        },
        Json::Text(s) => normalize_text(s.as_str()),
        _ => Err(TranslateError::FormatError),
    }
}

/// A required timestamp member, in the canonical form. A missing member is
/// a schema error; one that cannot be brought into the form is a format
/// error.
pub open spec fn date_member(j: JsonView, object: Seq<char>, key: Seq<char>) -> Result<
    Seq<char>,
    ErrorView,
> {
    match j.get(key) {
        Some(value) => canonical_of(value),
        None => Err(schema_error(object, key)),
    }
}

/// An optional timestamp member, in the canonical form.
pub open spec fn optional_date_member(j: JsonView, key: Seq<char>) -> Result<
    Option<Seq<char>>,
    ErrorView,
> {
    match j.optional_member(key) {
        Some(value) => match canonical_of(value) {
            Ok(text) => Ok(Some(text)),
            Err(e) => Err(e),
        },
        None => Ok(None),
    }
}

/// Reads a required timestamp member.
pub fn read_date_member(j: &Json, object: &str, key: &str) -> (out: Result<
    String,
    TranslateError,
>)
    ensures
        outcome(out, |s: String| s@) == date_member(j@, object@, key@),
{
    match j.get(key) {
        Some(value) => float_to_date_string(value),
        None => Err(TranslateError::schema(object, key)),
    }
}

/// Reads an optional timestamp member.
pub fn read_optional_date_member(j: &Json, key: &str) -> (out: Result<
    Option<String>,
    TranslateError,
>)
    ensures
        outcome(out, |o: Option<String>| text_view(o)) == optional_date_member(j@, key@),
{
    match j.optional_member(key) {
        Some(value) => Ok(Some(float_to_date_string(value)?)),
        None => Ok(None),
    }
}

} // verus!
