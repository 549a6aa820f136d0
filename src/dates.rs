//! Calendar dates as day numbers, and the evaluation's date window.
use vstd::prelude::*;

verus! {

/// The day number (days from the start of the common era, 1 January of
/// year 1 being day 1) of the calendar date that `s` spells as
/// `YYYY-MM-DD`, or `None` when `s` spells no valid date.
pub uninterp spec fn calendar_day_of(s: Seq<char>) -> Option<int>;

/// Relies on chrono's `NaiveDate::parse_from_str(s, "%Y-%m-%d")`, whose result
/// depends on `s` alone, and on `Datelike::num_days_from_ce` to read the
/// parsed date as a day number.
#[verifier::external_body]
fn parse_calendar_day(s: &str) -> (r: Option<i32>)
    ensures
        r matches Some(d) ==> calendar_day_of(s@) == Some(d as int),
        r is None ==> calendar_day_of(s@) is None,
{
    match chrono::NaiveDate::parse_from_str(s, "%Y-%m-%d") {
        Ok(d) => Some(chrono::Datelike::num_days_from_ce(&d)),
        Err(_) => None,
    }
}

/// A calendar date, as its day number.
#[derive(Clone, Copy, PartialEq, Eq, Debug, Structural)]
pub struct Date {
    pub day: i32,
}

/// Reads a `YYYY-MM-DD` date.
pub fn parse_date(s: &str) -> (r: Option<Date>)
    ensures
        r matches Some(d) ==> calendar_day_of(s@) == Some(d.day as int),
        r is None ==> calendar_day_of(s@) is None,
{
    match parse_calendar_day(s) {
        Some(day) => Some(Date { day }),
        None => None,
    }
}

#[derive(Clone, Copy, PartialEq, Eq, Debug, Structural)]
pub enum DateRangeError {
    /// The window's start lies after its end.
    Reversed,
    /// A bound is not a valid `YYYY-MM-DD` date.
    Invalid,
}

/// The evaluation's date window, `from` to `to` inclusive.
#[derive(Clone, Copy, PartialEq, Eq, Debug, Structural)]
pub struct DateRange {
    pub from: Date,
    pub to: Date,
}

impl DateRange {
    pub open spec fn wf(&self) -> bool {
        self.from.day <= self.to.day
    }

    /// A window; a start after the end is rejected.
    pub fn new(from: Date, to: Date) -> (r: Result<DateRange, DateRangeError>)
        ensures
            from.day <= to.day ==> r == Ok::<DateRange, DateRangeError>(DateRange { from, to }),
            from.day > to.day ==> r is Err && r->Err_0 is Reversed,
    {
        if from.day <= to.day {
            Ok(DateRange { from, to })
        } else {
            Err(DateRangeError::Reversed)
        }
    }

    /// The number of days from the start to the end.
    pub fn date_range_len(&self) -> (n: u32)
        requires
            self.wf(),
        ensures
            n == self.to.day - self.from.day,
    {
        (self.to.day as i64 - self.from.day as i64) as u32
    }

    /// Every day of the window, in order.
    pub fn days(&self) -> (r: Vec<Date>)
        requires
            self.wf(),
        ensures
            r@.len() == self.to.day - self.from.day + 1,
            forall|k: int| 0 <= k < r@.len() ==> #[trigger] r@[k].day == self.from.day + k,
    {
        let mut r: Vec<Date> = Vec::new();
        let mut d = self.from.day;
        loop
            invariant
                self.from.day <= d <= self.to.day,
                r@.len() == d - self.from.day,
                forall|k: int| 0 <= k < r@.len() ==> #[trigger] r@[k].day == self.from.day + k,
            decreases self.to.day - d,
        {
            r.push(Date { day: d });
            if d == self.to.day {
                return r;
            }
            d += 1;
        }
    }
}

/// The number of days between two `YYYY-MM-DD` dates: an error when either
/// is not a valid date or the first lies after the second.
pub fn date_range_len_of(from: &str, to: &str) -> (r: Result<u32, DateRangeError>)
    ensures
        match (calendar_day_of(from@), calendar_day_of(to@)) {
            (Some(a), Some(b)) => if a <= b {
                r == Ok::<u32, DateRangeError>((b - a) as u32)
            } else {
                r is Err && r->Err_0 is Reversed
            },
            _ => r is Err && r->Err_0 is Invalid,
        },
{
    let a = match parse_date(from) {
        Some(a) => a,
        None => return Err(DateRangeError::Invalid),
    };
    let b = match parse_date(to) {
        Some(b) => b,
        None => return Err(DateRangeError::Invalid),
    };
    match DateRange::new(a, b) {
        Ok(range) => Ok(range.date_range_len()),
        Err(e) => Err(e),
    }
}

} // verus!
