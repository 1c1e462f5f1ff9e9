//! Calendar dates and the `~YYYYMMDD` suffix codec.
//!
//! A [`Date`] holds a year, month and day that form a real calendar date
//! (proleptic Gregorian, years `-9999` to `9999`). The module also defines
//! the fixed nine-character date suffix format — a tilde followed by a
//! zero-padded four-digit year, two-digit month and two-digit day — with
//! a verified parser and formatter and a proof that they invert each
//! other.

use vstd::prelude::*;
use vstd::string::*;
use vstd::arithmetic::div_mod::lemma_mod_multiples_vanish;
use vstd::arithmetic::div_mod::lemma_fundamental_div_mod;
use crate::chars::{spec_is_ascii_digit, spec_digit_value, is_ascii_digit_char, digit_value};

verus! {

/// True for leap years: divisible by four, except centuries that are not
/// divisible by four hundred.
pub open spec fn spec_is_leap_year(year: int) -> bool {
    year % 4 == 0 && (year % 100 != 0 || year % 400 == 0)
}

/// Number of days in the given month of the given year.
pub open spec fn spec_days_in_month(year: int, month: int) -> int
    recommends
        1 <= month <= 12,
{
    if month == 2 {
        if spec_is_leap_year(year) {
            29
        } else {
            28
        }
    } else if month == 4 || month == 6 || month == 9 || month == 11 {
        30
    } else {
        31
    }
}

/// True when year, month and day form a real calendar date that a
/// [`Date`] can hold.
pub open spec fn spec_valid_date(year: int, month: int, day: int) -> bool {
    &&& -9999 <= year <= 9999
    &&& 1 <= month <= 12
    &&& 1 <= day <= spec_days_in_month(year, month)
}

/// A calendar date. Values are valid by construction: use
/// [`Date::from_calendar_date`].
#[derive(Clone, Copy, Debug, PartialEq, Eq, Structural)]
pub struct Date {
    /// The year, between `-9999` and `9999`.
    pub year: i32,
    /// The month, between `1` and `12`.
    pub month: u8,
    /// The day of the month.
    pub day: u8,
}

/// The error returned when a date cannot be written in the fixed suffix
/// format, i.e. when its year has no four-digit representation.
#[derive(Clone, Copy, Debug, PartialEq, Eq, Structural)]
pub struct FormatError;

impl Date {
    /// The year component.
    pub open spec fn spec_year(self) -> int {
        self.year as int
    }

    /// The month component.
    pub open spec fn spec_month(self) -> int {
        self.month as int
    }

    /// The day component.
    pub open spec fn spec_day(self) -> int {
        self.day as int
    }

    /// Well-formedness: the components form a real calendar date.
    /// Every value built by [`Date::from_calendar_date`] satisfies it.
    pub open spec fn wf(self) -> bool {
        spec_valid_date(self.spec_year(), self.spec_month(), self.spec_day())
    }

    /// Build a date from its components, or `None` if they do not form
    /// a real calendar date.
    pub fn from_calendar_date(year: i32, month: u8, day: u8) -> (r: Option<Date>)
        ensures
            r is Some <==> spec_valid_date(year as int, month as int, day as int),
            (r matches Some(d) ==> d.spec_year() == year && d.spec_month() == month
                && d.spec_day() == day && d.wf()),
    {
        if year < -9999 || year > 9999 {
            return None;
        }
        if month < 1 || month > 12 {
            return None;
        }
        if day < 1 || day > days_in_month(year, month) {
            return None;
        }
        Some(Date { year, month, day })
    }

    /// The year component.
    pub fn year(&self) -> (r: i32)
        ensures
            r == self.spec_year(),
    {
        self.year
    }

    /// The month component.
    pub fn month(&self) -> (r: u8)
        ensures
            r == self.spec_month(),
    {
        self.month
    }

    /// The day component.
    pub fn day(&self) -> (r: u8)
        ensures
            r == self.spec_day(),
    {
        self.day
    }
}

/// Decide whether `year` is a leap year.
pub fn is_leap_year(year: i32) -> (r: bool)
    requires
        -9999 <= year <= 9999,
    ensures
        r == spec_is_leap_year(year as int),
{
    // Shift by 10000 (a multiple of 400) so that the remainders are
    // taken of a nonnegative number; this leaves leapness unchanged.
    let y: u32 = (year + 10000) as u32;
    proof {
        lemma_mod_multiples_vanish(2500, year as int, 4);
        lemma_mod_multiples_vanish(100, year as int, 100);
        lemma_mod_multiples_vanish(25, year as int, 400);
    }
    y % 4 == 0 && (y % 100 != 0 || y % 400 == 0)
}

/// Number of days in the given month of the given year.
pub fn days_in_month(year: i32, month: u8) -> (r: u8)
    requires
        -9999 <= year <= 9999,
        1 <= month <= 12,
    ensures
        r as int == spec_days_in_month(year as int, month as int),
{
    if month == 2 {
        if is_leap_year(year) {
            29
        } else {
            28
        }
    } else if month == 4 || month == 6 || month == 9 || month == 11 {
        30
    } else {
        31
    }
}

/// True when `s` has the shape of a date-like suffix: a tilde followed
/// by exactly eight ASCII decimal digits.
pub open spec fn spec_suffix_shape(s: Seq<char>) -> bool {
    &&& s.len() == 9
    &&& s[0] == '~'
    &&& forall|i: int| 1 <= i < 9 ==> spec_is_ascii_digit(#[trigger] s[i])
}

/// The year encoded by the first four digits of a date-like suffix.
pub open spec fn spec_suffix_year(s: Seq<char>) -> int
    recommends
        spec_suffix_shape(s),
{
    spec_digit_value(s[1]) * 1000 + spec_digit_value(s[2]) * 100 + spec_digit_value(s[3]) * 10
        + spec_digit_value(s[4])
}

/// The month encoded by the fifth and sixth digits of a date-like suffix.
pub open spec fn spec_suffix_month(s: Seq<char>) -> int
    recommends
        spec_suffix_shape(s),
{
    spec_digit_value(s[5]) * 10 + spec_digit_value(s[6])
}

/// The day encoded by the last two digits of a date-like suffix.
pub open spec fn spec_suffix_day(s: Seq<char>) -> int
    recommends
        spec_suffix_shape(s),
{
    spec_digit_value(s[7]) * 10 + spec_digit_value(s[8])
}

/// The date that a nine-character suffix encodes: `Some` exactly when
/// the suffix has the `~YYYYMMDD` shape and its digits form a real
/// calendar date.
pub open spec fn spec_parse_date_suffix(s: Seq<char>) -> Option<Date> {
    if spec_suffix_shape(s) && spec_valid_date(
        spec_suffix_year(s),
        spec_suffix_month(s),
        spec_suffix_day(s),
    ) {
        Some(
            Date {
                year: spec_suffix_year(s) as i32,
                month: spec_suffix_month(s) as u8,
                day: spec_suffix_day(s) as u8,
            },
        )
    } else {
        None
    }
}

/// Parse a nine-character `~YYYYMMDD` suffix into a date.
///
/// Returns `None` when `s` does not have the suffix shape, and also
/// when it does but the digits do not form a real calendar date
/// (month zero, day ninety-nine, February the thirtieth, ...).
pub fn parse_date_suffix(s: &str) -> (r: Option<Date>)
    ensures
        r == spec_parse_date_suffix(s@),
{
    let n = s.unicode_len();
    if n != 9 {
        return None;
    }
    if s.get_char(0) != '~' {
        return None;
    }
    let mut i: usize = 1;
    while i < 9
        invariant
            1 <= i <= 9,
            s@.len() == 9,
            forall|j: int| 1 <= j < i ==> spec_is_ascii_digit(#[trigger] s@[j]),
        decreases 9 - i,
    {
        if !is_ascii_digit_char(s.get_char(i)) {
            return None;
        }
        i += 1;
    }
    let year: u32 = digit_value(s.get_char(1)) * 1000 + digit_value(s.get_char(2)) * 100
        + digit_value(s.get_char(3)) * 10 + digit_value(s.get_char(4));
    let month: u32 = digit_value(s.get_char(5)) * 10 + digit_value(s.get_char(6));
    let day: u32 = digit_value(s.get_char(7)) * 10 + digit_value(s.get_char(8));
    if month < 1 || month > 12 {
        return None;
    }
    if day < 1 || day > days_in_month(year as i32, month as u8) as u32 {
        return None;
    }
    Some(Date { year: year as i32, month: month as u8, day: day as u8 })
}

/// The digit character for a value between zero and nine.
pub open spec fn spec_digit_char(v: int) -> char
    recommends
        0 <= v <= 9,
{
    if v == 0 {
        '0'
    } else if v == 1 {
        '1'
    } else if v == 2 {
        '2'
    } else if v == 3 {
        '3'
    } else if v == 4 {
        '4'
    } else if v == 5 {
        '5'
    } else if v == 6 {
        '6'
    } else if v == 7 {
        '7'
    } else if v == 8 {
        '8'
    } else {
        '9'
    }
}

/// The nine characters of the `~YYYYMMDD` suffix that encodes `d`:
/// tilde, zero-padded four-digit year, two-digit month, two-digit day.
pub open spec fn spec_date_suffix(d: Date) -> Seq<char>
    recommends
        d.wf(),
        0 <= d.spec_year(),
{
    seq![
        '~',
        spec_digit_char(d.spec_year() / 1000),
        spec_digit_char((d.spec_year() / 100) % 10),
        spec_digit_char((d.spec_year() / 10) % 10),
        spec_digit_char(d.spec_year() % 10),
        spec_digit_char(d.spec_month() / 10),
        spec_digit_char(d.spec_month() % 10),
        spec_digit_char(d.spec_day() / 10),
        spec_digit_char(d.spec_day() % 10),
    ]
}

/// A one-character string slice holding the digit character for `v`.
fn digit_str(v: u32) -> (r: &'static str)
    requires
        v <= 9,
    ensures
        r@ =~= seq![spec_digit_char(v as int)],
{
    let digits = "0123456789";
    proof {
        reveal_strlit("0123456789");
    }
    let r = digits.substring_ascii(v as usize, (v + 1) as usize);
    proof {
        assert(r@ =~= seq![spec_digit_char(v as int)]);
    }
    r
}

/// Write `date` in the fixed `~YYYYMMDD` suffix format.
///
/// Fails exactly when the year is negative and so has no zero-padded
/// four-digit representation.
pub fn format_date_suffix(date: &Date) -> (r: Result<String, FormatError>)
    requires
        date.wf(),
    ensures
        r is Ok <==> 0 <= date.spec_year(),
        (r matches Ok(s) ==> s@ == spec_date_suffix(*date)),
{
    if date.year() < 0 {
        return Err(FormatError);
    }
    let y: u32 = date.year() as u32;
    let m: u32 = date.month() as u32;
    let d: u32 = date.day() as u32;
    let mut s = String::new();
    s.append("~");
    s.append(digit_str(y / 1000));
    s.append(digit_str((y / 100) % 10));
    s.append(digit_str((y / 10) % 10));
    s.append(digit_str(y % 10));
    s.append(digit_str(m / 10));
    s.append(digit_str(m % 10));
    s.append(digit_str(d / 10));
    s.append(digit_str(d % 10));
    proof {
        reveal_strlit("~");
        assert(s@ =~= spec_date_suffix(*date));
    }
    Ok(s)
}

/// The digit character of a value between zero and nine is an ASCII
/// digit, and its numeric value is that value again.
proof fn lemma_digit_char_value(v: int)
    requires
        0 <= v <= 9,
    ensures
        spec_is_ascii_digit(spec_digit_char(v)),
        spec_digit_value(spec_digit_char(v)) == v,
{
}

/// The four trailing decimal digits of `y` put `y` back together.
proof fn lemma_four_digits(y: int)
    requires
        0 <= y <= 9999,
    ensures
        (y / 1000) * 1000 + ((y / 100) % 10) * 100 + ((y / 10) % 10) * 10 + y % 10 == y,
        0 <= y / 1000 <= 9,
        0 <= (y / 100) % 10 <= 9,
        0 <= (y / 10) % 10 <= 9,
        0 <= y % 10 <= 9,
{
    lemma_fundamental_div_mod(y, 10);
    lemma_fundamental_div_mod(y / 10, 10);
    lemma_fundamental_div_mod(y / 100, 10);
    vstd::arithmetic::div_mod::lemma_div_denominator(y, 10, 10);
    vstd::arithmetic::div_mod::lemma_div_denominator(y, 100, 10);
}

/// The two trailing decimal digits of `m` put `m` back together.
proof fn lemma_two_digits(m: int)
    requires
        0 <= m <= 99,
    ensures
        (m / 10) * 10 + m % 10 == m,
        0 <= m / 10 <= 9,
        0 <= m % 10 <= 9,
{
    lemma_fundamental_div_mod(m, 10);
}

/// Law: formatting a representable date and parsing the result gives
/// the same date back.
pub proof fn lemma_format_parse_round_trip(date: Date)
    requires
        date.wf(),
        0 <= date.spec_year(),
    ensures
        spec_parse_date_suffix(spec_date_suffix(date)) == Some(date),
{
    let s = spec_date_suffix(date);
    let y = date.spec_year();
    let m = date.spec_month();
    let d = date.spec_day();
    lemma_four_digits(y);
    lemma_two_digits(m);
    lemma_two_digits(d);
    lemma_digit_char_value(y / 1000);
    lemma_digit_char_value((y / 100) % 10);
    lemma_digit_char_value((y / 10) % 10);
    lemma_digit_char_value(y % 10);
    lemma_digit_char_value(m / 10);
    lemma_digit_char_value(m % 10);
    lemma_digit_char_value(d / 10);
    lemma_digit_char_value(d % 10);
    assert forall|i: int| 1 <= i < 9 implies spec_is_ascii_digit(#[trigger] s[i]) by {
        assert(spec_is_ascii_digit(spec_digit_char(y / 1000)));
    }
    assert(spec_suffix_shape(s));
    assert(spec_suffix_year(s) == y);
    assert(spec_suffix_month(s) == m);
    assert(spec_suffix_day(s) == d);
}

} // verus!
