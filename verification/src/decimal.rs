//! The whole part of a number that is given as decimal text.
//!
//! The text has the form of a JSON number: an optional `-`, digits, an
//! optional fraction (`.` and digits) and an optional exponent (`e` or `E`,
//! an optional sign, one to three digits). Its whole part is the number
//! with everything after the decimal point cut off: truncation, not rounding.

use vstd::prelude::*;
use vstd::string::StrSliceExecFns;

verus! {

/// Whether the character is a decimal digit.
pub open spec fn is_digit(c: char) -> bool {
    48 <= c as u32 <= 57
}

/// The value of a decimal digit.
pub open spec fn digit_value(c: char) -> int {
    c as u32 - 48
}

/// The value of a string of decimal digits.
pub open spec fn digits_value(s: Seq<char>) -> nat
    decreases s.len(),
{
    if s.len() == 0 {
        0
    } else {
        (digits_value(s.drop_last()) * 10 + digit_value(s.last())) as nat
    }
}

/// The place of the first character at or after `from` that is no digit;
/// the length of the text where only digits follow.
pub open spec fn digits_end(s: Seq<char>, from: int) -> int
    decreases s.len() - from,
{
    if 0 <= from < s.len() && is_digit(s[from]) {
        digits_end(s, from + 1)
    } else {
        from
    }
}

/// The parts of a decimal text: the places of its digits, and its exponent.
pub struct DecimalParts {
    /// Whether the text begins with `-`.
    pub negative: bool,
    /// Where the digits before the decimal point begin and end.
    pub int_start: int,
    pub int_end: int,
    /// Where the digits after the decimal point begin and end.
    pub frac_start: int,
    pub frac_end: int,
    /// The power of ten by which the digits are to be multiplied.
    pub exponent: int,
}

/// The exponent that stands at `from`, which is where the digits of the
/// number end: zero where the text ends there; `None` where what follows is
/// no exponent of one to three digits that ends the text.
pub open spec fn exponent_at(s: Seq<char>, from: int) -> Option<int> {
    if from == s.len() {
        Some(0)
    } else if 0 <= from < s.len() && (s[from] == 'e' || s[from] == 'E') {
        let sign_at = from + 1;
        let negative = sign_at < s.len() && s[sign_at] == '-';
        let signed = sign_at < s.len() && (s[sign_at] == '-' || s[sign_at] == '+');
        let start = if signed {
            sign_at + 1
        } else {
            sign_at
        };
        let end = digits_end(s, start);
        if end == start || end - start > 3 || end != s.len() {
            None
        } else if negative {
            Some(-(digits_value(s.subrange(start, end)) as int))
        } else {
            Some(digits_value(s.subrange(start, end)) as int)
        }
    } else {
        None
    }
}

/// The parts of a decimal text; `None` where the text has not the form of a
/// number.
pub open spec fn decimal_parts(s: Seq<char>) -> Option<DecimalParts> {
    let negative = s.len() > 0 && s[0] == '-';
    let int_start: int = if negative {
        1
    } else {
        0
    };
    let int_end = digits_end(s, int_start);
    let has_frac = int_end < s.len() && s[int_end] == '.';
    let frac_start = if has_frac {
        int_end + 1
    } else {
        int_end
    };
    let frac_end = if has_frac {
        digits_end(s, frac_start)
    } else {
        int_end
    };
    let exponent = exponent_at(s, frac_end);
    if int_end == int_start || (has_frac && frac_end == frac_start) || exponent is None {
        None
    } else {
        Some(
            DecimalParts {
                negative,
                int_start,
                int_end,
                frac_start,
                frac_end,
                exponent: exponent->Some_0,
            },
        )
    }
}

/// The digit at place `k` of the digits of the number, counted from the
/// first digit before the decimal point; zero behind the last digit.
pub open spec fn nth_digit(s: Seq<char>, parts: DecimalParts, k: int) -> int {
    let int_len = parts.int_end - parts.int_start;
    let frac_len = parts.frac_end - parts.frac_start;
    if 0 <= k < int_len {
        digit_value(s[parts.int_start + k])
    } else if int_len <= k < int_len + frac_len {
        digit_value(s[parts.frac_start + (k - int_len)])
    } else {
        0
    }
}

/// The value of the first `count` digits of the number.
pub open spec fn leading_value(s: Seq<char>, parts: DecimalParts, count: int) -> nat
    decreases count,
{
    if count <= 0 {
        0
    } else {
        (leading_value(s, parts, count - 1) * 10 + nth_digit(s, parts, count - 1)) as nat
    }
}

/// The whole part of the number that a decimal text gives: as many leading
/// digits as stand before the decimal point once the exponent has moved it,
/// with the sign of the text.
pub open spec fn decimal_whole(s: Seq<char>) -> Option<int> {
    match decimal_parts(s) {
        None => None,
        Some(parts) => {
            let magnitude = leading_value(
                s,
                parts,
                parts.int_end - parts.int_start + parts.exponent,
            );
            Some(
                if parts.negative {
                    -magnitude
                } else {
                    magnitude as int
                },
            )
        },
    }
}

/// The bound below which `whole_of_decimal` gives the whole part: ten to
/// the fifteenth.
pub const WHOLE_LIMIT: u64 = 1_000_000_000_000_000;

/// The place of the first character at or after `from` that is no digit.
pub(crate) fn scan_digits(text: &str, len: usize, from: usize) -> (end: usize)
    requires
        len == text@.len(),
        from <= len,
    ensures
        end == digits_end(text@, from as int),
        from <= end <= len,
        forall|k: int| from <= k < end ==> is_digit(#[trigger] text@[k]),
{
    let mut i: usize = from;
    while i < len && is_digit_char(text.get_char(i))
        invariant
            from <= i <= len,
            len == text@.len(),
            digits_end(text@, from as int) == digits_end(text@, i as int),
            forall|k: int| from <= k < i ==> is_digit(#[trigger] text@[k]),
        decreases len - i,
    {
        i += 1;
    }
    i
}

/// Whether the character is a decimal digit.
fn is_digit_char(c: char) -> (out: bool)
    ensures
        out == is_digit(c),
{
    let code = c as u32;
    48 <= code && code <= 57
}

/// The value of a decimal digit.
fn digit_of(c: char) -> (out: u64)
    requires
        is_digit(c),
    ensures
        out == digit_value(c),
        out <= 9,
{
    (c as u32 - 48) as u64
}

/// The value of at most three digits of the text.
fn short_value(text: &str, from: usize, to: usize) -> (out: i64)
    requires
        from <= to <= text@.len(),
        to - from <= 3,
        forall|k: int| from <= k < to ==> is_digit(#[trigger] text@[k]),
    ensures
        out == digits_value(text@.subrange(from as int, to as int)),
        0 <= out <= 999,
{
    let mut value: i64 = 0;
    let mut i: usize = from;
    assert(text@.subrange(from as int, from as int).len() == 0);
    while i < to
        invariant
            from <= i <= to <= text@.len(),
            to - from <= 3,
            forall|k: int| from <= k < to ==> is_digit(#[trigger] text@[k]),
            value == digits_value(text@.subrange(from as int, i as int)),
            i - from == 0 ==> value == 0,
            i - from == 1 ==> value <= 9,
            i - from == 2 ==> value <= 99,
            0 <= value <= 999,
        decreases to - i,
    {
        let d = digit_of(text.get_char(i));
        proof {
            let longer = text@.subrange(from as int, i + 1);
            assert(longer.drop_last() =~= text@.subrange(from as int, i as int));
            assert(longer.last() == text@[i as int]);
        }
        value = value * 10 + d as i64;
        i += 1;
    }
    value
}

/// The value of the first `count` digits of the number, or `WHOLE_LIMIT`
/// where the value is that or more.
fn capped_leading(
    text: &str,
    int_start: usize,
    int_end: usize,
    frac_start: usize,
    frac_end: usize,
    count: u128,
    Ghost(parts): Ghost<DecimalParts>,
) -> (out: u64)
    requires
        int_start <= int_end <= frac_start <= frac_end <= text@.len(),
        parts.int_start == int_start,
        parts.int_end == int_end,
        parts.frac_start == frac_start,
        parts.frac_end == frac_end,
        forall|k: int| int_start <= k < int_end ==> is_digit(#[trigger] text@[k]),
        forall|k: int| frac_start <= k < frac_end ==> is_digit(#[trigger] text@[k]),
    ensures
        out == if leading_value(text@, parts, count as int) < WHOLE_LIMIT {
            leading_value(text@, parts, count as int)
        } else {
            WHOLE_LIMIT as nat
        },
{
    let int_len: usize = int_end - int_start;
    let frac_len: usize = frac_end - frac_start;
    let mut value: u64 = 0;
    let mut k: u128 = 0;
    while k < count
        invariant
            k <= count,
            int_start <= int_end <= frac_start <= frac_end <= text@.len(),
            int_len == int_end - int_start,
            frac_len == frac_end - frac_start,
            parts.int_start == int_start,
            parts.int_end == int_end,
            parts.frac_start == frac_start,
            parts.frac_end == frac_end,
            forall|i: int| int_start <= i < int_end ==> is_digit(#[trigger] text@[i]),
            forall|i: int| frac_start <= i < frac_end ==> is_digit(#[trigger] text@[i]),
            value <= WHOLE_LIMIT,
            value == if leading_value(text@, parts, k as int) < WHOLE_LIMIT {
                leading_value(text@, parts, k as int)
            } else {
                WHOLE_LIMIT as nat
            },
        decreases count - k,
    {
        let d: u64 = if k < int_len as u128 {
            digit_of(text.get_char(int_start + k as usize))
        } else if k - (int_len as u128) < frac_len as u128 {
            digit_of(text.get_char(frac_start + (k - int_len as u128) as usize))
        } else {
            0
        };
        assert(d == nth_digit(text@, parts, k as int));
        if value < WHOLE_LIMIT {
            let next = value * 10 + d;
            value = if next < WHOLE_LIMIT {
                next
            } else {
                WHOLE_LIMIT
            };
        }
        k += 1;
    }
    value
}

/// The exponent that stands at `from`.
fn read_exponent(text: &str, len: usize, from: usize) -> (out: Option<i64>)
    requires
        len == text@.len(),
        from <= len,
    ensures
        match out {
            Some(e) => exponent_at(text@, from as int) == Some(e as int) && -999 <= e <= 999,
            None => exponent_at(text@, from as int) is None,
        },
{
    if from == len {
        return Some(0);
    }
    let mark = text.get_char(from);
    if mark != 'e' && mark != 'E' {
        return None;
    }
    let sign_at: usize = from + 1;
    let negative = sign_at < len && text.get_char(sign_at) == '-';
    let signed = sign_at < len && (text.get_char(sign_at) == '-' || text.get_char(sign_at) == '+');
    let start: usize = if signed {
        sign_at + 1
    } else {
        sign_at
    };
    let end = scan_digits(text, len, start);
    if end == start || end - start > 3 || end != len {
        return None;
    }
    let magnitude = short_value(text, start, end);
    if negative {
        Some(-magnitude)
    } else {
        Some(magnitude)
    }
}

/// The places of the parts of a decimal text.
struct Places {
    negative: bool,
    int_start: usize,
    int_end: usize,
    frac_start: usize,
    frac_end: usize,
    exponent: i64,
}

/// Finds the parts of a decimal text.
fn read_parts(text: &str) -> (out: Option<Places>)
    ensures
        match out {
            Some(places) => decimal_parts(text@) == Some(
                DecimalParts {
                    negative: places.negative,
                    int_start: places.int_start as int,
                    int_end: places.int_end as int,
                    frac_start: places.frac_start as int,
                    frac_end: places.frac_end as int,
                    exponent: places.exponent as int,
                },
            ) && places.int_start < places.int_end <= places.frac_start <= places.frac_end
                <= text@.len() && -999 <= places.exponent <= 999 && (forall|k: int|
                places.int_start <= k < places.int_end ==> is_digit(#[trigger] text@[k]))
                && (forall|k: int|
                places.frac_start <= k < places.frac_end ==> is_digit(#[trigger] text@[k])),
            None => decimal_parts(text@) is None,
        },
{
    let len = text.unicode_len();
    let negative = len > 0 && text.get_char(0) == '-';
    let int_start: usize = if negative {
        1
    } else {
        0
    };
    let int_end = scan_digits(text, len, int_start);
    let has_frac = int_end < len && text.get_char(int_end) == '.';
    let frac_start: usize = if has_frac {
        int_end + 1
    } else {
        int_end
    };
    let frac_end: usize = if has_frac {
        scan_digits(text, len, frac_start)
    } else {
        int_end
    };
    if int_end == int_start || (has_frac && frac_end == frac_start) {
        return None;
    }
    match read_exponent(text, len, frac_end) {
        Some(exponent) => Some(
            Places { negative, int_start, int_end, frac_start, frac_end, exponent },
        ),
        None => None,
    }
}

/// The whole part of the number that a decimal text gives, where the text
/// is a number and the whole part lies between minus and plus `WHOLE_LIMIT`,
/// both excluded.
pub fn whole_of_decimal(text: &str) -> (out: Option<i64>)
    ensures
        out == (match decimal_whole(text@) {
            Some(w) => if -(WHOLE_LIMIT as int) < w < WHOLE_LIMIT as int {
                Some(w as i64)
            } else {
                None
            },
            None => None,
        }),
{
    let places = match read_parts(text) {
        Some(places) => places,
        None => {
            return None;
        },
    };
    let ghost parts = decimal_parts(text@)->Some_0;
    let int_len: usize = places.int_end - places.int_start;
    let count: u128 = if places.exponent < 0 && (-places.exponent) as u128 > int_len as u128 {
        0
    } else if places.exponent < 0 {
        int_len as u128 - (-places.exponent) as u128
    } else {
        int_len as u128 + places.exponent as u128
    };
    proof {
        if int_len + places.exponent <= 0 {
            assert(leading_value(text@, parts, int_len + places.exponent) == 0);
            assert(leading_value(text@, parts, 0) == 0);
        }
    }
    let magnitude = capped_leading(
        text,
        places.int_start,
        places.int_end,
        places.frac_start,
        places.frac_end,
        count,
        Ghost(parts),
    );
    if magnitude >= WHOLE_LIMIT {
        None
    } else if places.negative {
        Some(-(magnitude as i64))
    } else {
        Some(magnitude as i64)
    }
}

} // verus!
