//! Calendar days, as `chrono::NaiveDate` counts them: a day's number in the proleptic Gregorian
//! calendar, 1 January of year 1 being day 1. Arithmetic on days is arithmetic on those numbers;
//! what only the calendar knows (a year-month-day, the written form) `chrono` says.

use vstd::prelude::*;

verus! {

/// The number of `chrono::NaiveDate::MIN` (1 January, year -262143).
pub open spec fn first_day() -> int {
    -95746129
}

/// The number of `chrono::NaiveDate::MAX` (31 December, year 262142).
pub open spec fn last_day() -> int {
    95745399
}

pub open spec fn in_calendar(n: int) -> bool {
    first_day() <= n <= last_day()
}

/// Whether a year of the proleptic Gregorian calendar is a leap year (year 0 is 1 BCE).
pub open spec fn is_leap(year: int) -> bool {
    year % 4 == 0 && (year % 100 != 0 || year % 400 == 0)
}

/// How many days a month has in a year.
pub open spec fn month_length(year: int, month: int) -> int {
    if month == 2 {
        if is_leap(year) { 29 } else { 28 }
    } else if month == 4 || month == 6 || month == 9 || month == 11 {
        30
    } else {
        31
    }
}

/// How many days of a year lie before the first of a month.
pub open spec fn days_before_month(year: int, month: int) -> int {
    let common: int = if month <= 1 { 0 }
        else if month == 2 { 31 }
        else if month == 3 { 59 }
        else if month == 4 { 90 }
        else if month == 5 { 120 }
        else if month == 6 { 151 }
        else if month == 7 { 181 }
        else if month == 8 { 212 }
        else if month == 9 { 243 }
        else if month == 10 { 273 }
        else if month == 11 { 304 }
        else { 334 };
    if month > 2 && is_leap(year) { common + 1 } else { common }
}

/// The day `chrono` gives for a year, month and day of month: one when the year lies within
/// `chrono`'s range (`MIN_YEAR` to `MAX_YEAR`), the month is one of twelve and the day one of
/// the month's, numbered from 1 January of year 1.
pub open spec fn calendar_day(year: int, month: int, day: int) -> Option<int> {
    if -262143 <= year <= 262142 && 1 <= month <= 12 && 1 <= day <= month_length(year, month) {
        let z = year - 1;
        Some(365 * z + z / 4 - z / 100 + z / 400 + days_before_month(year, month) + day)
    } else {
        None
    }
}

/// The weekday of a day, Monday being 0: day 1, 1 January of year 1, was a Monday, and the
/// proleptic Gregorian calendar repeats its weekdays every seven days without exception.
pub open spec fn weekday_of(n: int) -> int {
    (n - 1) % 7
}

/// How `chrono` writes a day (`YYYY-MM-DD`).
pub uninterp spec fn day_text(n: int) -> Seq<char>;

/// `NaiveDate::from_ymd_opt(..).map(|d| d.num_days_from_ce())`. Every date `chrono` makes lies
/// within its range.
#[verifier::external_body]
fn ymd_to_number(year: i32, month: u32, day: u32) -> (r: Option<i32>)
    ensures
        match r {
            Some(n) => calendar_day(year as int, month as int, day as int) == Some(n as int)
                && in_calendar(n as int),
            None => calendar_day(year as int, month as int, day as int) is None,
        },
{
    chrono::NaiveDate::from_ymd_opt(year, month, day).map(|d| chrono::Datelike::num_days_from_ce(&d))
}

/// `chrono`'s weekday of the day with this number, counted from Monday.
#[verifier::external_body]
fn number_weekday(n: i32) -> (w: u32)
    requires
        in_calendar(n as int),
    ensures
        w as int == weekday_of(n as int),
        w < 7,
{
    let date = chrono::NaiveDate::from_num_days_from_ce_opt(n).expect("a day inside chrono's range");
    chrono::Datelike::weekday(&date).num_days_from_monday()
}

/// `chrono`'s written form of the day with this number.
#[verifier::external_body]
fn number_text(n: i32) -> (s: String)
    requires
        in_calendar(n as int),
    ensures
        s@ == day_text(n as int),
{
    chrono::NaiveDate::from_num_days_from_ce_opt(n).expect("a day inside chrono's range").to_string()
}

/// `chrono::Utc::now().to_rfc3339()`: the current time as RFC 3339 text. What it reads depends
/// on the clock, so nothing is stated of it.
#[verifier::external_body]
pub(crate) fn now_rfc3339() -> String {
    chrono::Utc::now().to_rfc3339()
}

/// The day `chrono` reads out of a `YYYY-MM-DD` text, or the sentence its error displays.
pub uninterp spec fn calendar_text_day(text: Seq<char>) -> Result<int, Seq<char>>;

/// `NaiveDate::parse_from_str(text, "%Y-%m-%d")`, as the day's number, or the error's text.
/// Every date `chrono` makes lies inside its calendar.
#[verifier::external_body]
fn parse_ymd(text: &str) -> (r: Result<i32, String>)
    ensures
        match r {
            Ok(n) => calendar_text_day(text@) == Ok::<int, Seq<char>>(n as int) && in_calendar(n as int),
            Err(e) => calendar_text_day(text@) == Err::<int, Seq<char>>(e@),
        },
{
    chrono::NaiveDate::parse_from_str(text, "%Y-%m-%d")
        .map(|d| chrono::Datelike::num_days_from_ce(&d))
        .map_err(|e| e.to_string())
}

/// One calendar day.
#[derive(Debug, Clone, Copy, PartialEq, Eq, Structural)]
pub struct Date {
    number: i32,
}

impl Date {
    #[verifier::type_invariant]
    pub(crate) closed spec fn within_calendar(self) -> bool {
        in_calendar(self.number as int)
    }

    /// The day's number.
    pub closed spec fn view(self) -> int {
        self.number as int
    }

    /// The day with this year, month and day of month, when the calendar has one.
    pub fn from_ymd(year: i32, month: u32, day: u32) -> (r: Option<Date>)
        ensures
            match r {
                Some(d) => calendar_day(year as int, month as int, day as int) == Some(d@),
                None => calendar_day(year as int, month as int, day as int) is None,
            },
    {
        match ymd_to_number(year, month, day) {
            Some(n) => Some(Date { number: n }),
            None => None,
        }
    }

    /// The day a `YYYY-MM-DD` text names, or why it names none.
    pub fn parse(text: &str) -> (r: Result<Date, String>)
        ensures
            match r {
                Ok(d) => calendar_text_day(text@) == Ok::<int, Seq<char>>(d@),
                Err(e) => calendar_text_day(text@) == Err::<int, Seq<char>>(e@),
            },
    {
        match parse_ymd(text) {
            Ok(n) => Ok(Date { number: n }),
            Err(e) => Err(e),
        }
    }

    /// The day with this number, when it is inside the calendar.
    pub fn from_number(n: i32) -> (r: Option<Date>)
        ensures
            r is Some <==> in_calendar(n as int),
            r matches Some(d) ==> d@ == n,
    {
        if -95746129 <= n && n <= 95745399 {
            Some(Date { number: n })
        } else {
            None
        }
    }

    pub fn number(&self) -> (n: i32)
        ensures
            n == self@,
            in_calendar(n as int),
    {
        proof {
            use_type_invariant(self);
        }
        self.number
    }

    /// `n` days earlier. Moving out of the calendar is where `chrono` panics, so it is excluded.
    pub fn minus_days(&self, n: i32) -> (d: Date)
        requires
            in_calendar(self@ - n),
        ensures
            d@ == self@ - n,
    {
        Date { number: self.number - n }
    }

    /// `n` days later. Moving out of the calendar is where `chrono` panics, so it is excluded.
    pub fn plus_days(&self, n: i32) -> (d: Date)
        requires
            in_calendar(self@ + n),
        ensures
            d@ == self@ + n,
    {
        Date { number: self.number + n }
    }

    /// How many days lie from `earlier` to this day (negative when it is later).
    pub fn days_since(&self, earlier: &Date) -> (d: i64)
        ensures
            d == self@ - earlier@,
            in_calendar(self@),
            in_calendar(earlier@),
    {
        proof {
            use_type_invariant(self);
            use_type_invariant(earlier);
        }
        self.number as i64 - earlier.number as i64
    }

    pub fn is_before(&self, other: &Date) -> (r: bool)
        ensures
            r == (self@ < other@),
    {
        self.number < other.number
    }

    /// The weekday, Monday being 0 and Sunday 6.
    pub fn weekday(&self) -> (w: u32)
        ensures
            w == weekday_of(self@),
            w < 7,
    {
        proof {
            use_type_invariant(self);
        }
        number_weekday(self.number)
    }

    /// `YYYY-MM-DD`, as `chrono` writes it.
    pub fn to_text(&self) -> (s: String)
        ensures
            s@ == day_text(self@),
    {
        proof {
            use_type_invariant(self);
        }
        number_text(self.number)
    }
}

/// A closed range of days.
#[derive(Debug, Clone, Copy, PartialEq, Eq, Structural)]
pub struct DateRange {
    pub from: Date,
    pub to: Date,
}

} // verus!
