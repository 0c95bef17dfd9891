use vstd::prelude::*;

use chrono::Datelike;

use crate::error::PortfolioError;

verus! {

/// A calendar date without a time component.
#[derive(Debug, Clone, Copy, PartialEq, Eq, Structural)]
pub struct Date {
    pub year: i32,
    pub month: u32,
    pub day: u32,
}

/// Whether `year` is a leap year of the proleptic Gregorian calendar.
pub open spec fn is_leap(year: int) -> bool {
    let y = if year < 0 { -year } else { year };
    y % 4 == 0 && (y % 100 != 0 || y % 400 == 0)
}

/// The number of days of `month` (1-based) in `year`.
pub open spec fn days_in_month(year: int, month: int) -> int {
    if month == 2 {
        if is_leap(year) { 29 } else { 28 }
    } else if month == 4 || month == 6 || month == 9 || month == 11 {
        30
    } else {
        31
    }
}

/// Whether `d` names a day of the calendar.
pub open spec fn valid_date(d: Date) -> bool {
    &&& 1 <= d.month <= 12
    &&& 1 <= d.day <= days_in_month(d.year as int, d.month as int)
}

/// The year, month and day that `dd/mm/yy` text denotes, or `None` where the
/// text is no such date.
pub uninterp spec fn parsed_dmy(s: Seq<char>) -> Option<(i32, u32, u32)>;

/// What a parse result gives: the date, or `BadDateFormat`.
pub open spec fn date_of(p: Option<(i32, u32, u32)>) -> Result<Date, PortfolioError> {
    match p {
        Some((y, m, d)) => if valid_date(Date { year: y, month: m, day: d }) {
            Ok(Date { year: y, month: m, day: d })
        } else {
            Err(PortfolioError::BadDateFormat)
        },
        None => Err(PortfolioError::BadDateFormat),
    }
}

/// Relies on chrono's `NaiveDate::parse_from_str` with the format
/// `%d/%m/%y`: the result depends on the text alone, and a parsed date, a
/// `NaiveDate`, is a day of the proleptic Gregorian calendar.
#[verifier::external_body]
fn parse_dmy(s: &str) -> (r: Option<(i32, u32, u32)>)
    ensures
        r == parsed_dmy(s@),
        r matches Some((y, m, d)) ==> valid_date(Date { year: y, month: m, day: d }),
{
    chrono::NaiveDate::parse_from_str(s, "%d/%m/%y").ok().map(|d| (d.year(), d.month(), d.day()))
}

impl Date {
    /// Whether this names a day of the calendar.
    pub fn is_valid(&self) -> (r: bool)
        ensures
            r == valid_date(*self),
    {
        if self.month < 1 || self.month > 12 || self.day < 1 {
            return false;
        }
        let y: u64 = if self.year < 0 { (0 - (self.year as i64)) as u64 } else { self.year as u64 };
        let leap = y % 4 == 0 && (y % 100 != 0 || y % 400 == 0);
        let days: u32 = if self.month == 2 {
            if leap { 29 } else { 28 }
        } else if self.month == 4 || self.month == 6 || self.month == 9 || self.month == 11 {
            30
        } else {
            31
        };
        self.day <= days
    }

    /// The date of a parse result, or `BadDateFormat` where there is none or
    /// it names no day of the calendar.
    pub fn from_parsed(p: Option<(i32, u32, u32)>) -> (r: Result<Date, PortfolioError>)
        ensures
            r == date_of(p),
            r matches Ok(d) ==> valid_date(d),
    {
        match p {
            Some((year, month, day)) => {
                let d = Date { year, month, day };
                if d.is_valid() {
                    Ok(d)
                } else {
                    Err(PortfolioError::BadDateFormat)
                }
            },
            None => Err(PortfolioError::BadDateFormat),
        }
    }

    /// Reads a date written `dd/mm/yy`.
    pub fn parse(s: &str) -> (r: Result<Date, PortfolioError>)
        ensures
            r == date_of(parsed_dmy(s@)),
            r matches Ok(d) ==> valid_date(d),
    {
        Date::from_parsed(parse_dmy(s))
    }
}

} // verus!
