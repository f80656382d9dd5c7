//! Naive calendar date-times, with the two fixed textual forms the library
//! reads and writes.
//!
//! A [`DateTime`] carries no timezone. The capture-time tag stores one as
//! `"YYYY:MM:DD HH:MM:SS"`; the JSON sidecar stores one as
//! `"YYYY-MM-DDTHH:MM:SS"`, and a UTC file timestamp as the same text
//! followed by `'Z'`. Both forms share one fixed 19-character layout that
//! differs only in the two separator characters, so rendering and parsing
//! are written once over those separators.

use vstd::prelude::*;

use crate::text::{
    digit_char, digit_val, spec_digit_char, spec_digit_val, spec_is_digit,
};

verus! {

/// A naive date-time: a calendar date and a time of day, without timezone.
#[derive(Debug, Clone, Copy, PartialEq, Eq, Structural, Hash)]
pub struct DateTime {
    pub year: u16,
    pub month: u8,
    pub day: u8,
    pub hour: u8,
    pub minute: u8,
    pub second: u8,
}

/// True for years with a 29th of February.
pub open spec fn spec_is_leap_year(year: u16) -> bool {
    (year % 4 == 0 && year % 100 != 0) || year % 400 == 0
}

/// The number of days of a month, honouring leap years.
pub open spec fn spec_days_in_month(year: u16, month: u8) -> u8
    recommends
        1 <= month <= 12,
{
    if month == 2 {
        if spec_is_leap_year(year) {
            29
        } else {
            28
        }
    } else if month == 4 || month == 6 || month == 9 || month == 11 {
        30
    } else {
        31
    }
}

/// The number of days of a month, honouring leap years.
pub fn days_in_month(year: u16, month: u8) -> (d: u8)
    requires
        1 <= month <= 12,
    ensures
        d == spec_days_in_month(year, month),
{
    if month == 2 {
        if (year % 4 == 0 && year % 100 != 0) || year % 400 == 0 {
            29
        } else {
            28
        }
    } else if month == 4 || month == 6 || month == 9 || month == 11 {
        30
    } else {
        31
    }
}

impl DateTime {
    /// A well-formed date-time: a four-digit year, a real calendar date,
    /// and a time of day with seconds below sixty.
    pub open spec fn wf(self) -> bool {
        &&& self.year <= 9999
        &&& 1 <= self.month <= 12
        &&& 1 <= self.day <= spec_days_in_month(self.year, self.month)
        &&& self.hour <= 23
        &&& self.minute <= 59
        &&& self.second <= 59
    }

    /// Builds a date-time from its six fields, exactly when they form a
    /// well-formed value.
    pub fn new(year: u16, month: u8, day: u8, hour: u8, minute: u8, second: u8) -> (r: Option<
        DateTime,
    >)
        ensures
            ({
                let dt = DateTime { year, month, day, hour, minute, second };
                if dt.wf() {
                    r == Some(dt)
                } else {
                    r is None
                }
            }),
    {
        if year <= 9999 && 1 <= month && month <= 12 && 1 <= day && hour <= 23 && minute <= 59
            && second <= 59 && day <= days_in_month(year, month) {
            Some(DateTime { year, month, day, hour, minute, second })
        } else {
            None
        }
    }
}

/// The two-character zero-padded rendering of a value below one hundred.
pub open spec fn spec_two_digits(v: u8) -> Seq<char>
    recommends
        v < 100,
{
    seq![spec_digit_char(v / 10), spec_digit_char(v % 10)]
}

/// The four-character zero-padded rendering of a value below ten thousand.
pub open spec fn spec_four_digits(v: u16) -> Seq<char>
    recommends
        v < 10000,
{
    seq![
        spec_digit_char((v / 1000) as u8),
        spec_digit_char(((v / 100) % 10) as u8),
        spec_digit_char(((v / 10) % 10) as u8),
        spec_digit_char((v % 10) as u8),
    ]
}

/// The fixed 19-character layout shared by the capture-time tag text and
/// the JSON date-time text: date and time fields in order, separated by
/// `date_sep` within the date and `mid_sep` between date and time.
pub open spec fn spec_format_date_time(dt: DateTime, date_sep: char, mid_sep: char) -> Seq<char> {
    spec_four_digits(dt.year) + seq![date_sep] + spec_two_digits(dt.month) + seq![date_sep]
        + spec_two_digits(dt.day) + seq![mid_sep] + spec_two_digits(dt.hour) + seq![':']
        + spec_two_digits(dt.minute) + seq![':'] + spec_two_digits(dt.second)
}

/// Appends the two-digit zero-padded rendering of `v` to `out`.
pub fn push_two_digits(v: u8, out: &mut Vec<char>)
    requires
        v < 100,
    ensures
        final(out)@ == old(out)@ + spec_two_digits(v),
{
    out.push(digit_char(v / 10));
    out.push(digit_char(v % 10));
    proof {
        assert(final(out)@ =~= old(out)@ + spec_two_digits(v));
    }
}

/// Appends the four-digit zero-padded rendering of `v` to `out`.
pub fn push_four_digits(v: u16, out: &mut Vec<char>)
    requires
        v < 10000,
    ensures
        final(out)@ == old(out)@ + spec_four_digits(v),
{
    out.push(digit_char((v / 1000) as u8));
    out.push(digit_char(((v / 100) % 10) as u8));
    out.push(digit_char(((v / 10) % 10) as u8));
    out.push(digit_char((v % 10) as u8));
    proof {
        assert(final(out)@ =~= old(out)@ + spec_four_digits(v));
    }
}

/// Appends the fixed-layout rendering of `dt` to `out`.
pub fn push_date_time(dt: &DateTime, date_sep: char, mid_sep: char, out: &mut Vec<char>)
    requires
        dt.wf(),
    ensures
        final(out)@ == old(out)@ + spec_format_date_time(*dt, date_sep, mid_sep),
{
    push_four_digits(dt.year, out);
    out.push(date_sep);
    push_two_digits(dt.month, out);
    out.push(date_sep);
    push_two_digits(dt.day, out);
    out.push(mid_sep);
    push_two_digits(dt.hour, out);
    out.push(':');
    push_two_digits(dt.minute, out);
    out.push(':');
    push_two_digits(dt.second, out);
    proof {
        assert(final(out)@ =~= old(out)@ + spec_format_date_time(*dt, date_sep, mid_sep));
    }
}

/// The value of the two digit characters at `i` and `i + 1`, or `None`
/// when either is not a digit.
pub open spec fn spec_two_digit_val(s: Seq<char>, i: int) -> Option<u8>
    recommends
        0 <= i && i + 2 <= s.len(),
{
    match (spec_digit_val(s[i]), spec_digit_val(s[i + 1])) {
        (Some(a), Some(b)) => Some((a * 10 + b) as u8),
        _ => None,
    }
}

/// The value of the four digit characters starting at `i`, or `None`
/// when any of them is not a digit.
pub open spec fn spec_four_digit_val(s: Seq<char>, i: int) -> Option<u16>
    recommends
        0 <= i && i + 4 <= s.len(),
{
    match (spec_two_digit_val(s, i), spec_two_digit_val(s, i + 2)) {
        (Some(a), Some(b)) => Some((a as u16 * 100 + b as u16) as u16),
        _ => None,
    }
}

/// The date-time denoted by a whole 19-character text in the fixed layout,
/// or `None` when the text has another length, a wrong character in any
/// position, or fields that do not form a well-formed date-time.
pub open spec fn spec_parse_date_time(s: Seq<char>, date_sep: char, mid_sep: char) -> Option<
    DateTime,
> {
    if s.len() != 19 {
        None
    } else if !(s[4] == date_sep && s[7] == date_sep && s[10] == mid_sep && s[13] == ':' && s[16]
        == ':') {
        None
    } else {
        match (
            spec_four_digit_val(s, 0),
            spec_two_digit_val(s, 5),
            spec_two_digit_val(s, 8),
            spec_two_digit_val(s, 11),
            spec_two_digit_val(s, 14),
            spec_two_digit_val(s, 17),
        ) {
            (Some(year), Some(month), Some(day), Some(hour), Some(minute), Some(second)) => {
                let dt = DateTime { year, month, day, hour, minute, second };
                if dt.wf() {
                    Some(dt)
                } else {
                    None
                }
            },
            _ => None,
        }
    }
}

/// Reads the two digit characters at `i` and `i + 1`.
fn two_digit_val(s: &Vec<char>, i: usize) -> (r: Option<u8>)
    requires
        i + 2 <= s@.len(),
    ensures
        r == spec_two_digit_val(s@, i as int),
{
    let n = s.len();
    let a = digit_val(s[i]);
    let b = digit_val(s[i + 1]);
    match (a, b) {
        (Some(a), Some(b)) => Some(a * 10 + b),
        _ => None,
    }
}

/// Parses a whole text in the fixed 19-character layout into a date-time;
/// returns exactly what the layout denotes, `None` on any deviation.
pub fn parse_date_time(s: &Vec<char>, date_sep: char, mid_sep: char) -> (r: Option<DateTime>)
    ensures
        r == spec_parse_date_time(s@, date_sep, mid_sep),
        r matches Some(dt) ==> dt.wf(),
{
    if s.len() != 19 {
        return None;
    }
    if !(s[4] == date_sep && s[7] == date_sep && s[10] == mid_sep && s[13] == ':' && s[16] == ':') {
        return None;
    }
    let hi = two_digit_val(s, 0);
    let lo = two_digit_val(s, 2);
    let year: u16 = match (hi, lo) {
        (Some(a), Some(b)) => (a as u16) * 100 + (b as u16),
        _ => {
            return None;
        },
    };
    let month: u8 = match two_digit_val(s, 5) {
        Some(v) => v,
        None => {
            return None;
        },
    };
    let day: u8 = match two_digit_val(s, 8) {
        Some(v) => v,
        None => {
            return None;
        },
    };
    let hour: u8 = match two_digit_val(s, 11) {
        Some(v) => v,
        None => {
            return None;
        },
    };
    let minute: u8 = match two_digit_val(s, 14) {
        Some(v) => v,
        None => {
            return None;
        },
    };
    let second: u8 = match two_digit_val(s, 17) {
        Some(v) => v,
        None => {
            return None;
        },
    };
    DateTime::new(year, month, day, hour, minute, second)
}

/// Rendering a well-formed date-time in the fixed layout and parsing the
/// text back gives the same date-time, for any pair of separators.
pub proof fn lemma_date_time_round_trip(dt: DateTime, date_sep: char, mid_sep: char)
    requires
        dt.wf(),
    ensures
        spec_parse_date_time(spec_format_date_time(dt, date_sep, mid_sep), date_sep, mid_sep)
            == Some(dt),
{
    let s = spec_format_date_time(dt, date_sep, mid_sep);
    assert(s.len() == 19);
    assert(s[0] == spec_digit_char((dt.year / 1000) as u8));
    assert(s[1] == spec_digit_char(((dt.year / 100) % 10) as u8));
    assert(s[2] == spec_digit_char(((dt.year / 10) % 10) as u8));
    assert(s[3] == spec_digit_char((dt.year % 10) as u8));
    assert(s[4] == date_sep);
    assert(s[5] == spec_digit_char(dt.month / 10));
    assert(s[6] == spec_digit_char(dt.month % 10));
    assert(s[7] == date_sep);
    assert(s[8] == spec_digit_char(dt.day / 10));
    assert(s[9] == spec_digit_char(dt.day % 10));
    assert(s[10] == mid_sep);
    assert(s[11] == spec_digit_char(dt.hour / 10));
    assert(s[12] == spec_digit_char(dt.hour % 10));
    assert(s[13] == ':');
    assert(s[14] == spec_digit_char(dt.minute / 10));
    assert(s[15] == spec_digit_char(dt.minute % 10));
    assert(s[16] == ':');
    assert(s[17] == spec_digit_char(dt.second / 10));
    assert(s[18] == spec_digit_char(dt.second % 10));
    assert(spec_four_digit_val(s, 0) == Some(dt.year)) by {
        let a = (dt.year / 1000) as u8;
        let b = ((dt.year / 100) % 10) as u8;
        let c = ((dt.year / 10) % 10) as u8;
        let d = (dt.year % 10) as u8;
        crate::text::lemma_digit_char_val(a);
        crate::text::lemma_digit_char_val(b);
        crate::text::lemma_digit_char_val(c);
        crate::text::lemma_digit_char_val(d);
        assert((a * 10 + b) as u16 * 100 + (c * 10 + d) as u16 == dt.year) by (nonlinear_arith)
            requires
                a == dt.year / 1000,
                b == (dt.year / 100) % 10,
                c == (dt.year / 10) % 10,
                d == dt.year % 10,
                dt.year <= 9999,
        ;
    }
    assert(spec_two_digit_val(s, 5) == Some(dt.month)) by {
        lemma_two_digit_round(dt.month);
    }
    assert(spec_two_digit_val(s, 8) == Some(dt.day)) by {
        lemma_two_digit_round(dt.day);
    }
    assert(spec_two_digit_val(s, 11) == Some(dt.hour)) by {
        lemma_two_digit_round(dt.hour);
    }
    assert(spec_two_digit_val(s, 14) == Some(dt.minute)) by {
        lemma_two_digit_round(dt.minute);
    }
    assert(spec_two_digit_val(s, 17) == Some(dt.second)) by {
        lemma_two_digit_round(dt.second);
    }
}

/// Reading back the two-digit rendering of a value below one hundred gives
/// the value again.
proof fn lemma_two_digit_round(v: u8)
    requires
        v < 100,
    ensures
        spec_digit_val(spec_digit_char(v / 10)) == Some((v / 10) as u8),
        spec_digit_val(spec_digit_char(v % 10)) == Some((v % 10) as u8),
        (v / 10) * 10 + (v % 10) == v,
{
    crate::text::lemma_digit_char_val(v / 10);
    crate::text::lemma_digit_char_val(v % 10);
}

} // verus!
