//! Calendar dates of the proleptic Gregorian calendar and their ISO 8601 text.

use vstd::prelude::*;

verus! {

/// The earliest year that a [`CalendarDate`] can hold.
pub const MIN_YEAR: i32 = -262143;

/// The latest year that a [`CalendarDate`] can hold.
pub const MAX_YEAR: i32 = 262142;

/// Whether `year` has a 29th of February. Year 0 is 1 BCE, and negative years
/// follow the same rule as positive ones.
pub open spec fn is_leap_year(year: int) -> bool {
    year % 4 == 0 && (year % 100 != 0 || year % 400 == 0)
}

/// The number of days of `month` (1 to 12) in `year`.
pub open spec fn days_in_month(year: int, month: int) -> int {
    if month == 2 {
        if is_leap_year(year) {
            29
        } else {
            28
        }
    } else if month == 4 || month == 6 || month == 9 || month == 11 {
        30
    } else {
        31
    }
}

/// Whether year, month and day name a day that exists and that a
/// [`CalendarDate`] can hold.
pub open spec fn is_calendar_date(year: int, month: int, day: int) -> bool {
    &&& MIN_YEAR <= year <= MAX_YEAR
    &&& 1 <= month <= 12
    &&& 1 <= day <= days_in_month(year, month)
}

/// The character of one decimal digit.
pub open spec fn digit_char(digit: int) -> char
    recommends
        0 <= digit <= 9,
{
    ((48 + digit) as u8) as char
}

/// The decimal digits of `n`, most significant first, without leading zeros.
pub open spec fn decimal_text(n: nat) -> Seq<char>
    decreases n,
{
    if n < 10 {
        seq![digit_char(n as int)]
    } else {
        decimal_text(n / 10).push(digit_char((n % 10) as int))
    }
}

/// The decimal digits of `n`, with zeros in front until there are `width` of
/// them. A number with more digits than `width` keeps them all.
pub open spec fn zero_padded_text(n: nat, width: nat) -> Seq<char> {
    let digits = decimal_text(n);
    if digits.len() >= width {
        digits
    } else {
        Seq::new((width - digits.len()) as nat, |i: int| '0') + digits
    }
}

/// The year as ISO 8601 writes it: four digits from 0 to 9999; outside that
/// range a sign, `-` or `+`, and at least four digits.
pub open spec fn year_text(year: int) -> Seq<char> {
    if year < 0 {
        seq!['-'] + zero_padded_text((-year) as nat, 4)
    } else if year > 9999 {
        seq!['+'] + zero_padded_text(year as nat, 4)
    } else {
        zero_padded_text(year as nat, 4)
    }
}

/// The date as year, month and day with hyphens between them, month and day
/// in two digits each.
pub open spec fn iso_date_text(year: int, month: int, day: int) -> Seq<char> {
    year_text(year) + seq!['-'] + zero_padded_text(month as nat, 2) + seq!['-']
        + zero_padded_text(day as nat, 2)
}

/// A day of the calendar: year, month and day, with no time of day and no
/// time zone. Every value names a day that exists.
#[derive(Clone, Copy, Debug, PartialEq, Eq, Structural)]
pub struct CalendarDate {
    year: i32,
    month: u32,
    day: u32,
}

impl CalendarDate {
    /// The year of the date.
    pub closed spec fn spec_year(self) -> int {
        self.year as int
    }

    /// The month of the date, from 1.
    pub closed spec fn spec_month(self) -> int {
        self.month as int
    }

    /// The day of the month, from 1.
    pub closed spec fn spec_day(self) -> int {
        self.day as int
    }

    /// Whether the three fields name a day that exists. It holds of every
    /// date that executable code can reach.
    #[verifier::type_invariant]
    pub closed spec fn is_valid(self) -> bool {
        is_calendar_date(self.spec_year(), self.spec_month(), self.spec_day())
    }

    /// The date as text, in the form `YYYY-MM-DD`.
    pub open spec fn iso_text(self) -> Seq<char> {
        iso_date_text(self.spec_year(), self.spec_month(), self.spec_day())
    }

    /// Makes the date of the given year, month and day, or `None` where no
    /// such day exists or the year is out of range.
    pub fn from_ymd_opt(year: i32, month: u32, day: u32) -> (made: Option<CalendarDate>)
        ensures
            made.is_some() <==> is_calendar_date(year as int, month as int, day as int),
            made matches Some(date) ==> {
                &&& date.is_valid()
                &&& date.spec_year() == year
                &&& date.spec_month() == month
                &&& date.spec_day() == day
            },
    {
        if year < MIN_YEAR || year > MAX_YEAR || month < 1 || month > 12 || day < 1 {
            return None;
        }
        if day > month_length(year, month) {
            return None;
        }
        Some(CalendarDate { year, month, day })
    }

    /// The year of the date.
    pub fn year(&self) -> (year: i32)
        ensures
            year == self.spec_year(),
    {
        self.year
    }

    /// The month of the date, from 1.
    pub fn month(&self) -> (month: u32)
        ensures
            month == self.spec_month(),
    {
        self.month
    }

    /// The day of the month, from 1.
    pub fn day(&self) -> (day: u32)
        ensures
            day == self.spec_day(),
    {
        self.day
    }

    /// The date as text, in the form `YYYY-MM-DD`.
    pub fn to_iso_string(&self) -> (text: String)
        ensures
            text@ == self.iso_text(),
    {
        proof {
            use_type_invariant(self);
        }
        format_iso(self.year, self.month, self.day)
    }
}

/// The number of days of `month` in `year`.
fn month_length(year: i32, month: u32) -> (days: u32)
    requires
        MIN_YEAR <= year <= MAX_YEAR,
        1 <= month <= 12,
    ensures
        days == days_in_month(year as int, month as int),
{
    if month == 2 {
        // 262400 is a multiple of 400 that lifts every year above zero.
        let lifted: i32 = year + 262400;
        if lifted % 4 == 0 && (lifted % 100 != 0 || lifted % 400 == 0) {
            29
        } else {
            28
        }
    } else if month == 4 || month == 6 || month == 9 || month == 11 {
        30
    } else {
        31
    }
}

/// Renders a date through chrono: `NaiveDate::from_ymd_opt` makes the date and
/// `NaiveDate::format` writes it with the pattern `%Y-%m-%d`. Not proved here,
/// but taken from chrono: a date that `is_calendar_date` admits is one that
/// chrono makes, and the pattern writes the year in four digits from 0 to
/// 9999, with a sign and at least four digits outside that range, then a
/// hyphen, the month in two digits, a hyphen and the day in two digits.
#[verifier::external_body]
fn format_iso(year: i32, month: u32, day: u32) -> (text: String)
    requires
        is_calendar_date(year as int, month as int, day as int),
    ensures
        text@ == iso_date_text(year as int, month as int, day as int),
{
    chrono::NaiveDate::from_ymd_opt(year, month, day).unwrap().format("%Y-%m-%d").to_string()
}

/// A number under 100, padded to two digits, is its tens digit and its ones
/// digit.
pub proof fn lemma_two_digits(n: nat)
    requires
        n < 100,
    ensures
        zero_padded_text(n, 2) == seq![digit_char(n as int / 10), digit_char(n as int % 10)],
{
    reveal_with_fuel(decimal_text, 2);
    let shown = seq![digit_char(n as int / 10), digit_char(n as int % 10)];
    assert(zero_padded_text(n, 2) =~= shown);
}

/// A number under 10000, padded to four digits, is its four digits from the
/// thousands down.
pub proof fn lemma_four_digits(n: nat)
    requires
        n < 10000,
    ensures
        zero_padded_text(n, 4) == seq![
            digit_char(n as int / 1000),
            digit_char(n as int / 100 % 10),
            digit_char(n as int / 10 % 10),
            digit_char(n as int % 10),
        ],
{
    reveal_with_fuel(decimal_text, 4);
    let shown = seq![
        digit_char(n as int / 1000),
        digit_char(n as int / 100 % 10),
        digit_char(n as int / 10 % 10),
        digit_char(n as int % 10),
    ];
    assert(zero_padded_text(n, 4) =~= shown);
}

/// From year 0 to year 9999 the text of a date has ten characters: the four
/// digits of the year, a hyphen, the two digits of the month, a hyphen and
/// the two digits of the day, each number with zeros in front where it is
/// short.
pub proof fn lemma_iso_date_text_four_digit_year(year: int, month: int, day: int)
    requires
        0 <= year <= 9999,
        1 <= month <= 12,
        1 <= day <= 31,
    ensures
        iso_date_text(year, month, day) == seq![
            digit_char(year / 1000),
            digit_char(year / 100 % 10),
            digit_char(year / 10 % 10),
            digit_char(year % 10),
            '-',
            digit_char(month / 10),
            digit_char(month % 10),
            '-',
            digit_char(day / 10),
            digit_char(day % 10),
        ],
{
    lemma_four_digits(year as nat);
    lemma_two_digits(month as nat);
    lemma_two_digits(day as nat);
    let shown = seq![
        digit_char(year / 1000),
        digit_char(year / 100 % 10),
        digit_char(year / 10 % 10),
        digit_char(year % 10),
        '-',
        digit_char(month / 10),
        digit_char(month % 10),
        '-',
        digit_char(day / 10),
        digit_char(day % 10),
    ];
    assert(iso_date_text(year, month, day) =~= shown);
}

} // verus!
