//! Birth dates: calendar days of the proleptic Gregorian calendar, years 0 to
//! 9999, written as `YYYY-MM-DD`.
//!
//! The text form is strict: exactly ten characters, ASCII digits and two
//! hyphens, no sign and no padding other than leading zeros.

use crate::validation::ValidationError;
use vstd::prelude::*;
use vstd::string::StringExecFns;

verus! {

/// A date as three numbers. This is the mathematical view of a `BirthDate`.
pub struct CalendarDate {
    pub year: int,
    pub month: int,
    pub day: int,
}

/// The Gregorian leap-year rule.
pub open spec fn is_leap_year(year: int) -> bool {
    year % 4 == 0 && (year % 100 != 0 || year % 400 == 0)
}

/// Number of days of `month` (1 to 12) in `year`.
pub open spec fn days_in_month(year: int, month: int) -> int {
    if month == 2 {
        if is_leap_year(year) {
            29
        } else {
            28
        }
    } else if month == 4 || month == 6 || month == 9 || month == 11 {
        30
    } else {
        31
    }
}

/// Whether the three numbers name a day that exists.
pub open spec fn is_calendar_date(year: int, month: int, day: int) -> bool {
    &&& 0 <= year <= 9999
    &&& 1 <= month <= 12
    &&& 1 <= day <= days_in_month(year, month)
}

/// Whether `c` is one of the ten ASCII digits.
pub open spec fn is_digit(c: char) -> bool {
    '0' <= c <= '9'
}

/// The number that a digit stands for.
pub open spec fn digit_value(c: char) -> int {
    c as int - '0' as int
}

/// The digit that stands for `d`, for `0 <= d <= 9`.
pub open spec fn digit_char(d: int) -> char {
    if d == 0 {
        '0'
    } else if d == 1 {
        '1'
    } else if d == 2 {
        '2'
    } else if d == 3 {
        '3'
    } else if d == 4 {
        '4'
    } else if d == 5 {
        '5'
    } else if d == 6 {
        '6'
    } else if d == 7 {
        '7'
    } else if d == 8 {
        '8'
    } else {
        '9'
    }
}

/// `text` is `DDDD-DD-DD`, each `D` a digit.
pub open spec fn has_date_shape(text: Seq<char>) -> bool {
    &&& text.len() == 10
    &&& is_digit(text[0])
    &&& is_digit(text[1])
    &&& is_digit(text[2])
    &&& is_digit(text[3])
    &&& text[4] == '-'
    &&& is_digit(text[5])
    &&& is_digit(text[6])
    &&& text[7] == '-'
    &&& is_digit(text[8])
    &&& is_digit(text[9])
}

/// The numbers written in a text of date shape.
pub open spec fn written_date(text: Seq<char>) -> CalendarDate {
    CalendarDate {
        year: 1000 * digit_value(text[0]) + 100 * digit_value(text[1]) + 10 * digit_value(text[2])
            + digit_value(text[3]),
        month: 10 * digit_value(text[5]) + digit_value(text[6]),
        day: 10 * digit_value(text[8]) + digit_value(text[9]),
    }
}

/// The date that `text` denotes, if it denotes one.
pub open spec fn parsed_date(text: Seq<char>) -> Option<CalendarDate> {
    let date = written_date(text);
    if has_date_shape(text) && is_calendar_date(date.year, date.month, date.day) {
        Some(date)
    } else {
        None
    }
}

/// The text form of a date: four digits of year, two of month, two of day.
pub open spec fn date_text(date: CalendarDate) -> Seq<char> {
    seq![
        digit_char(date.year / 1000),
        digit_char(date.year / 100 % 10),
        digit_char(date.year / 10 % 10),
        digit_char(date.year % 10),
        '-',
        digit_char(date.month / 10),
        digit_char(date.month % 10),
        '-',
        digit_char(date.day / 10),
        digit_char(date.day % 10),
    ]
}

proof fn lemma_digit_char_value(d: int)
    requires
        0 <= d <= 9,
    ensures
        is_digit(digit_char(d)),
        digit_value(digit_char(d)) == d,
{
}

proof fn lemma_digit_value_char(c: char)
    requires
        is_digit(c),
    ensures
        0 <= digit_value(c) <= 9,
        digit_char(digit_value(c)) == c,
{
}

proof fn lemma_tens(q: int, r: int)
    requires
        0 <= r < 10,
    ensures
        (10 * q + r) / 10 == q,
        (10 * q + r) % 10 == r,
{
}

proof fn lemma_hundreds(q: int, r: int)
    requires
        0 <= r < 100,
    ensures
        (100 * q + r) / 100 == q,
{
}

proof fn lemma_thousands(q: int, r: int)
    requires
        0 <= r < 1000,
    ensures
        (1000 * q + r) / 1000 == q,
{
}

proof fn lemma_split_four(n: int)
    requires
        0 <= n <= 9999,
    ensures
        0 <= n / 1000 <= 9,
        0 <= n / 100 % 10 <= 9,
        0 <= n / 10 % 10 <= 9,
        0 <= n % 10 <= 9,
        1000 * (n / 1000) + 100 * (n / 100 % 10) + 10 * (n / 10 % 10) + n % 10 == n,
{
    let tens = n / 10;
    let hundreds = tens / 10;
    let thousands = hundreds / 10;
    assert(n == 10 * tens + n % 10 && 0 <= n % 10 <= 9);
    assert(tens == 10 * hundreds + tens % 10 && 0 <= tens % 10 <= 9);
    assert(hundreds == 10 * thousands + hundreds % 10 && 0 <= hundreds % 10 <= 9);
    assert(n / 100 == hundreds) by {
        lemma_hundreds(hundreds, 10 * (tens % 10) + n % 10);
    }
    assert(n / 1000 == thousands) by {
        lemma_thousands(thousands, 100 * (hundreds % 10) + 10 * (tens % 10) + n % 10);
    }
}

proof fn lemma_join_four(a: int, b: int, c: int, d: int)
    requires
        0 <= a <= 9,
        0 <= b <= 9,
        0 <= c <= 9,
        0 <= d <= 9,
    ensures
        ({
            let n = 1000 * a + 100 * b + 10 * c + d;
            &&& 0 <= n <= 9999
            &&& n / 1000 == a
            &&& n / 100 % 10 == b
            &&& n / 10 % 10 == c
            &&& n % 10 == d
        }),
{
    let n = 1000 * a + 100 * b + 10 * c + d;
    assert(n / 1000 == a) by {
        lemma_thousands(a, 100 * b + 10 * c + d);
    }
    assert(n / 100 % 10 == b) by {
        lemma_hundreds(10 * a + b, 10 * c + d);
        lemma_tens(a, b);
    }
    assert(n / 10 % 10 == c) by {
        lemma_tens(100 * a + 10 * b + c, d);
        lemma_tens(10 * a + b, c);
    }
    assert(n % 10 == d) by {
        lemma_tens(100 * a + 10 * b + c, d);
    }
}

proof fn lemma_split_two(n: int)
    requires
        0 <= n <= 99,
    ensures
        0 <= n / 10 <= 9,
        0 <= n % 10 <= 9,
        10 * (n / 10) + n % 10 == n,
{
}

proof fn lemma_join_two(a: int, b: int)
    requires
        0 <= a <= 9,
        0 <= b <= 9,
    ensures
        0 <= 10 * a + b <= 99,
        (10 * a + b) / 10 == a,
        (10 * a + b) % 10 == b,
{
}

/// Writing a date and reading the text back gives the same date.
pub proof fn lemma_text_then_parse(date: CalendarDate)
    requires
        is_calendar_date(date.year, date.month, date.day),
    ensures
        parsed_date(date_text(date)) == Some(date),
{
    let text = date_text(date);
    lemma_split_four(date.year);
    lemma_split_two(date.month);
    lemma_split_two(date.day);
    lemma_digit_char_value(date.year / 1000);
    lemma_digit_char_value(date.year / 100 % 10);
    lemma_digit_char_value(date.year / 10 % 10);
    lemma_digit_char_value(date.year % 10);
    lemma_digit_char_value(date.month / 10);
    lemma_digit_char_value(date.month % 10);
    lemma_digit_char_value(date.day / 10);
    lemma_digit_char_value(date.day % 10);
    assert(has_date_shape(text));
    assert(written_date(text) == date);
}

/// Reading a text and writing the date back gives the same text: no two texts
/// denote one date.
pub proof fn lemma_parse_then_text(text: Seq<char>)
    requires
        parsed_date(text) is Some,
    ensures
        date_text(parsed_date(text)->Some_0) == text,
{
    let date = written_date(text);
    lemma_digit_value_char(text[0]);
    lemma_digit_value_char(text[1]);
    lemma_digit_value_char(text[2]);
    lemma_digit_value_char(text[3]);
    lemma_digit_value_char(text[5]);
    lemma_digit_value_char(text[6]);
    lemma_digit_value_char(text[8]);
    lemma_digit_value_char(text[9]);
    lemma_join_four(
        digit_value(text[0]),
        digit_value(text[1]),
        digit_value(text[2]),
        digit_value(text[3]),
    );
    lemma_join_two(digit_value(text[5]), digit_value(text[6]));
    lemma_join_two(digit_value(text[8]), digit_value(text[9]));
    assert(date_text(date) =~= text);
}

/// Asks the `time` crate whether a day exists: `time::Month::try_from` turns
/// the month's number into a `Month` and refuses numbers outside 1 to 12, then
/// `time::Date::from_calendar_date` accepts the year, month and day exactly
/// when the day is at least 1 and at most the length of that month in that
/// year of the proleptic Gregorian calendar. Years up to 9999 are within the
/// range that `time` supports in every configuration.
#[verifier::external_body]
fn calendar_accepts(year: u16, month: u8, day: u8) -> (accepted: bool)
    requires
        year <= 9999,
    ensures
        accepted == is_calendar_date(year as int, month as int, day as int),
{
    match time::Month::try_from(month) {
        Ok(month) => time::Date::from_calendar_date(i32::from(year), month, day).is_ok(),
        Err(_) => false,
    }
}

/// A day of the calendar. Every value is a day that exists.
#[derive(Clone, Copy, Debug, PartialEq, Eq, Structural)]
pub struct BirthDate {
    year: u16,
    month: u8,
    day: u8,
}

impl View for BirthDate {
    type V = CalendarDate;

    closed spec fn view(&self) -> CalendarDate {
        CalendarDate { year: self.year as int, month: self.month as int, day: self.day as int }
    }
}

fn is_digit_byte(byte: u8) -> (digit: bool)
    ensures
        digit == (48 <= byte <= 57),
{
    48 <= byte && byte <= 57
}

fn two_digits(tens: u8, units: u8) -> (number: u8)
    requires
        48 <= tens <= 57,
        48 <= units <= 57,
    ensures
        number == 10 * (tens - 48) + (units - 48),
{
    10 * (tens - 48) + (units - 48)
}

fn digit_text(digit: u16) -> (text: &'static str)
    requires
        digit <= 9,
    ensures
        text@ == seq![digit_char(digit as int)],
{
    let text = if digit == 0 {
        "0"
    } else if digit == 1 {
        "1"
    } else if digit == 2 {
        "2"
    } else if digit == 3 {
        "3"
    } else if digit == 4 {
        "4"
    } else if digit == 5 {
        "5"
    } else if digit == 6 {
        "6"
    } else if digit == 7 {
        "7"
    } else if digit == 8 {
        "8"
    } else {
        "9"
    };
    proof {
        reveal_strlit("0");
        reveal_strlit("1");
        reveal_strlit("2");
        reveal_strlit("3");
        reveal_strlit("4");
        reveal_strlit("5");
        reveal_strlit("6");
        reveal_strlit("7");
        reveal_strlit("8");
        reveal_strlit("9");
        assert(text@ =~= seq![digit_char(digit as int)]);
    }
    text
}

impl BirthDate {
    #[verifier::type_invariant]
    pub(crate) open spec fn exists_in_calendar(self) -> bool {
        is_calendar_date(self@.year, self@.month, self@.day)
    }

    /// The day with the given numbers, if there is one.
    pub fn from_calendar_date(year: u16, month: u8, day: u8) -> (date: Option<BirthDate>)
        ensures
            date is Some <==> is_calendar_date(year as int, month as int, day as int),
            date matches Some(d) ==> d@ == (CalendarDate {
                year: year as int,
                month: month as int,
                day: day as int,
            }),
    {
        if year <= 9999 && calendar_accepts(year, month, day) {
            Some(BirthDate { year, month, day })
        } else {
            None
        }
    }

    /// Reads a date written as `YYYY-MM-DD`; anything else is `InvalidDate`.
    pub fn parse(text: &str) -> (outcome: Result<BirthDate, ValidationError>)
        ensures
            match parsed_date(text@) {
                Some(date) => outcome is Ok && outcome->Ok_0@ == date,
                None => outcome == Err::<BirthDate, ValidationError>(ValidationError::InvalidDate),
            },
    {
        if !text.is_ascii() {
            return Err(ValidationError::InvalidDate);
        }
        let bytes = text.as_bytes();
        proof {
            vstd::string::is_ascii_spec_bytes(text);
            vstd::utf8::is_ascii_chars_nat_bound(text@);
        }
        if bytes.len() != 10 {
            return Err(ValidationError::InvalidDate);
        }
        assert(forall|i: int| 0 <= i < 10 ==> bytes@[i] == text@[i] as u8);
        if !(is_digit_byte(bytes[0]) && is_digit_byte(bytes[1]) && is_digit_byte(bytes[2])
            && is_digit_byte(bytes[3]) && bytes[4] == 45 && is_digit_byte(bytes[5])
            && is_digit_byte(bytes[6]) && bytes[7] == 45 && is_digit_byte(bytes[8])
            && is_digit_byte(bytes[9])) {
            return Err(ValidationError::InvalidDate);
        }
        assert(has_date_shape(text@));
        let high: u16 = two_digits(bytes[0], bytes[1]).into();
        let low: u16 = two_digits(bytes[2], bytes[3]).into();
        let year: u16 = 100 * high + low;
        let month: u8 = two_digits(bytes[5], bytes[6]);
        let day: u8 = two_digits(bytes[8], bytes[9]);
        assert(written_date(text@) == (CalendarDate {
            year: year as int,
            month: month as int,
            day: day as int,
        }));
        match BirthDate::from_calendar_date(year, month, day) {
            Some(date) => Ok(date),
            None => Err(ValidationError::InvalidDate),
        }
    }

    pub fn year(&self) -> (year: u16)
        ensures
            year == self@.year,
    {
        self.year
    }

    pub fn month(&self) -> (month: u8)
        ensures
            month == self@.month,
    {
        self.month
    }

    pub fn day(&self) -> (day: u8)
        ensures
            day == self@.day,
    {
        self.day
    }

    /// Writes the date as `YYYY-MM-DD`.
    pub fn to_text(&self) -> (text: String)
        ensures
            text@ == date_text(self@),
    {
        proof {
            use_type_invariant(self);
        }
        let mut text = String::new();
        text.append(digit_text(self.year / 1000));
        text.append(digit_text(self.year / 100 % 10));
        text.append(digit_text(self.year / 10 % 10));
        text.append(digit_text(self.year % 10));
        text.append("-");
        text.append(digit_text((self.month / 10) as u16));
        text.append(digit_text((self.month % 10) as u16));
        text.append("-");
        text.append(digit_text((self.day / 10) as u16));
        text.append(digit_text((self.day % 10) as u16));
        proof {
            reveal_strlit("-");
            assert(text@ =~= date_text(self@));
        }
        text
    }
}

} // verus!
