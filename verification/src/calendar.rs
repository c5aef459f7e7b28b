//! Dates of the proleptic Gregorian calendar, their day of the week and
//! their `YYYY-MM-DD` text.

use vstd::prelude::*;
use vstd::string::*;

verus! {

/// Whether `year` has a 29th of February.
pub open spec fn leap_year(year: int) -> bool {
    year % 4 == 0 && (year % 100 != 0 || year % 400 == 0)
}

/// The number of days of `month` (1 to 12) in `year`.
pub open spec fn month_length(year: int, month: int) -> int {
    if month == 2 {
        if leap_year(year) {
            29
        } else {
            28
        }
    } else if month == 4 || month == 6 || month == 9 || month == 11 {
        30
    } else {
        31
    }
}

/// Whether `year`, `month`, `day` name a day that exists.
pub open spec fn is_calendar_date(year: int, month: int, day: int) -> bool {
    1 <= month <= 12 && 1 <= day <= month_length(year, month)
}

/// The days of `year` that lie before the first of `month`.
pub open spec fn days_before_month(year: int, month: int) -> int
    decreases month,
{
    if month <= 1 {
        0
    } else {
        days_before_month(year, month - 1) + month_length(year, month - 1)
    }
}

/// The days from 0001-01-01 up to, and without, the first of January of `year`
/// (negative for the years before).
pub open spec fn days_before_year(year: int) -> int {
    let y = year - 1;
    365 * y + y / 4 - y / 100 + y / 400
}

/// The number of a day when 0001-01-01, a Monday, is day 1.
pub open spec fn day_number(year: int, month: int, day: int) -> int {
    days_before_year(year) + days_before_month(year, month) + day
}

/// A day of the week.
#[derive(Clone, Copy, PartialEq, Eq, Debug, Structural)]
pub enum Weekday {
    Monday,
    Tuesday,
    Wednesday,
    Thursday,
    Friday,
    Saturday,
    Sunday,
}

/// The day of the week on which a date falls.
pub open spec fn weekday_of(year: int, month: int, day: int) -> Weekday {
    let since_monday = (day_number(year, month, day) - 1) % 7;
    if since_monday == 0 {
        Weekday::Monday
    } else if since_monday == 1 {
        Weekday::Tuesday
    } else if since_monday == 2 {
        Weekday::Wednesday
    } else if since_monday == 3 {
        Weekday::Thursday
    } else if since_monday == 4 {
        Weekday::Friday
    } else if since_monday == 5 {
        Weekday::Saturday
    } else {
        Weekday::Sunday
    }
}

/// Whether a date falls on a Saturday or a Sunday.
pub open spec fn is_weekend(year: int, month: int, day: int) -> bool {
    weekday_of(year, month, day) == Weekday::Saturday || weekday_of(year, month, day)
        == Weekday::Sunday
}

/// The two decimal digits of `n`, for `n` from 0 to 99.
pub open spec fn two_digits(n: int) -> Seq<char> {
    seq!["0123456789"@[n / 10], "0123456789"@[n % 10]]
}

/// The four decimal digits of `n`, for `n` from 0 to 9999.
pub open spec fn four_digits(n: int) -> Seq<char> {
    two_digits(n / 100) + two_digits(n % 100)
}

/// Whether the year can be written with four digits, and a minus sign before
/// them if it is negative.
pub open spec fn has_iso_text(year: int) -> bool {
    -9999 <= year <= 9999
}

/// A date written as `YYYY-MM-DD`, each part filled up with zeros; a negative
/// year has a minus sign before its four digits. Meant for years that
/// `has_iso_text` admits.
pub open spec fn iso_text(year: int, month: int, day: int) -> Seq<char> {
    let sign = if year < 0 {
        seq!['-']
    } else {
        Seq::<char>::empty()
    };
    let year_digits = four_digits(if year < 0 {
        -year
    } else {
        year
    });
    sign + year_digits + seq!['-'] + two_digits(month) + seq!['-'] + two_digits(day)
}

/// Appends the two decimal digits of `n` to `text`.
fn push_two_digits(text: &mut String, n: u16)
    requires
        n < 100,
    ensures
        final(text)@ == old(text)@ + two_digits(n as int),
{
    let digits = "0123456789";
    proof {
        reveal_strlit("0123456789");
    }
    let tens: usize = (n / 10) as usize;
    let ones: usize = (n % 10) as usize;
    text.append(digits.substring_ascii(tens, tens + 1));
    text.append(digits.substring_ascii(ones, ones + 1));
    assert(text@ =~= old(text)@ + two_digits(n as int));
}

/// Whether `year` has a 29th of February.
pub fn is_leap_year(year: i32) -> (r: bool)
    ensures
        r == leap_year(year as int),
{
    year % 4 == 0 && (year % 100 != 0 || year % 400 == 0)
}

/// The number of days of `month` in `year`; 0 where `month` is not 1 to 12.
pub fn days_in_month(year: i32, month: u8) -> (r: u8)
    ensures
        1 <= month <= 12 ==> r == month_length(year as int, month as int),
        !(1 <= month <= 12) ==> r == 0,
{
    if month == 0 || month > 12 {
        0
    } else if month == 2 {
        if is_leap_year(year) {
            29
        } else {
            28
        }
    } else if month == 4 || month == 6 || month == 9 || month == 11 {
        30
    } else {
        31
    }
}

/// 400 Gregorian years are 146097 days, which is 20871 weeks.
proof fn lemma_days_before_year_shifted(year: int)
    ensures
        days_before_year(year + 2_147_484_000) == days_before_year(year) + 7 * 112_050_346_410,
{
    let y: int = year - 1;
    assert((y + 2_147_484_000) / 4 == y / 4 + 536_871_000);
    assert((y + 2_147_484_000) / 100 == y / 100 + 21_474_840);
    assert((y + 2_147_484_000) / 400 == y / 400 + 5_368_710);
}

/// The days of `year` that lie before the first of `month`.
fn days_until_month(year: i32, month: u8) -> (r: u16)
    requires
        1 <= month <= 12,
    ensures
        r == days_before_month(year as int, month as int),
        r <= 335,
{
    reveal_with_fuel(days_before_month, 13);
    let in_common_year: u16 = match month {
        1 => 0,
        2 => 31,
        3 => 59,
        4 => 90,
        5 => 120,
        6 => 151,
        7 => 181,
        8 => 212,
        9 => 243,
        10 => 273,
        11 => 304,
        _ => 334,
    };
    if month > 2 && is_leap_year(year) {
        in_common_year + 1
    } else {
        in_common_year
    }
}

/// A day of the proleptic Gregorian calendar. Every value is a day that
/// exists: the month is 1 to 12 and the day is one of that month.
#[derive(Clone, Copy, Debug)]
pub struct CivilDate {
    year: i32,
    month: u8,
    day: u8,
}

impl CivilDate {
    #[verifier::type_invariant]
    spec fn well_formed(self) -> bool {
        is_calendar_date(self.year as int, self.month as int, self.day as int)
    }

    /// The year of the date.
    pub closed spec fn spec_year(self) -> i32 {
        self.year
    }

    /// The month of the date, 1 to 12.
    pub closed spec fn spec_month(self) -> u8 {
        self.month
    }

    /// The day of the month, from 1.
    pub closed spec fn spec_day(self) -> u8 {
        self.day
    }

    /// What every date handed out by this library satisfies: it is a day
    /// that exists.
    pub open spec fn is_valid(self) -> bool {
        is_calendar_date(self.year() as int, self.month() as int, self.day() as int)
    }

    /// The date with these parts, if there is such a day.
    pub fn new(year: i32, month: u8, day: u8) -> (r: Option<CivilDate>)
        ensures
            r is Some <==> is_calendar_date(year as int, month as int, day as int),
            r matches Some(date) ==> date.year() == year && date.month() == month && date.day()
                == day,
    {
        if 1 <= day && day <= days_in_month(year, month) {
            Some(CivilDate { year, month, day })
        } else {
            None
        }
    }

    /// The date with these parts, which are known to name a day that exists.
    pub(crate) fn of_existing_day(year: i32, month: u8, day: u8) -> (r: CivilDate)
        requires
            is_calendar_date(year as int, month as int, day as int),
        ensures
            r.year() == year,
            r.month() == month,
            r.day() == day,
    {
        CivilDate { year, month, day }
    }

    /// The day of the week on which the date falls.
    pub fn weekday(self) -> (r: Weekday)
        ensures
            r == weekday_of(self.year() as int, self.month() as int, self.day() as int),
    {
        proof {
            use_type_invariant(&self);
        }
        // Moving the year by a multiple of 400 keeps the day of the week, and
        // makes every year of the type positive.
        let y: u64 = (self.year as i64 - 1 + 2_147_484_000) as u64;
        let before_year: u64 = 365 * y + y / 4 - y / 100 + y / 400;
        let before_month: u64 = days_until_month(self.year, self.month) as u64;
        let since_monday: u64 = (before_year + before_month + self.day as u64 - 1) % 7;
        proof {
            lemma_days_before_year_shifted(self.year as int);
            assert(before_year == days_before_year(self.year as int + 2_147_484_000));
            let number: int = day_number(self.year as int, self.month as int, self.day as int);
            assert(before_year + before_month + self.day - 1 == (number - 1) + 7 * 112_050_346_410);
            assert(since_monday == (number - 1) % 7);
        }
        if since_monday == 0 {
            Weekday::Monday
        } else if since_monday == 1 {
            Weekday::Tuesday
        } else if since_monday == 2 {
            Weekday::Wednesday
        } else if since_monday == 3 {
            Weekday::Thursday
        } else if since_monday == 4 {
            Weekday::Friday
        } else if since_monday == 5 {
            Weekday::Saturday
        } else {
            Weekday::Sunday
        }
    }

    /// Whether the date falls on a Saturday or a Sunday.
    pub fn is_weekend(self) -> (r: bool)
        ensures
            r == is_weekend(self.year() as int, self.month() as int, self.day() as int),
    {
        match self.weekday() {
            Weekday::Saturday | Weekday::Sunday => true,
            _ => false,
        }
    }

    /// The date as `YYYY-MM-DD`, where its year can be written so.
    pub fn to_iso_text(self) -> (r: Option<String>)
        ensures
            r is Some <==> has_iso_text(self.year() as int),
            r matches Some(text) ==> text@ == iso_text(
                self.year() as int,
                self.month() as int,
                self.day() as int,
            ),
    {
        proof {
            use_type_invariant(&self);
        }
        if self.year < -9999 || self.year > 9999 {
            return None;
        }
        let mut text = String::new();
        let magnitude: u16 = if self.year < 0 {
            text.append("-");
            (-self.year) as u16
        } else {
            self.year as u16
        };
        proof {
            reveal_strlit("-");
            assert("-"@ =~= seq!['-']);
        }
        push_two_digits(&mut text, magnitude / 100);
        push_two_digits(&mut text, magnitude % 100);
        text.append("-");
        push_two_digits(&mut text, self.month as u16);
        text.append("-");
        push_two_digits(&mut text, self.day as u16);
        assert(text@ =~= iso_text(self.year as int, self.month as int, self.day as int));
        Some(text)
    }

    /// The year of the date.
    #[verifier::when_used_as_spec(spec_year)]
    pub fn year(self) -> (r: i32)
        ensures
            r == self.spec_year(),
    {
        self.year
    }

    /// The month of the date, 1 to 12.
    #[verifier::when_used_as_spec(spec_month)]
    pub fn month(self) -> (r: u8)
        ensures
            r == self.spec_month(),
            1 <= r <= 12,
    {
        proof {
            use_type_invariant(&self);
        }
        self.month
    }

    /// The day of the month, from 1.
    #[verifier::when_used_as_spec(spec_day)]
    pub fn day(self) -> (r: u8)
        ensures
            r == self.spec_day(),
            1 <= r <= month_length(self.year() as int, self.month() as int),
    {
        proof {
            use_type_invariant(&self);
        }
        self.day
    }
}

} // verus!
