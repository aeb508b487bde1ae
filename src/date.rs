use chrono::Datelike;
use vstd::prelude::*;

verus! {

/// A day of the proleptic Gregorian calendar.
#[derive(Clone, Copy, Debug, PartialEq, Eq, Structural, Hash)]
pub struct CalendarDate {
    pub year: i32,
    pub month: u32,
    pub day: u32,
}

pub open spec fn is_leap_year(y: int) -> bool {
    (y % 4 == 0 && y % 100 != 0) || y % 400 == 0
}

pub open spec fn days_in_month(y: int, m: int) -> int {
    if m == 2 {
        if is_leap_year(y) { 29 } else { 28 }
    } else if m == 4 || m == 6 || m == 9 || m == 11 {
        30
    } else {
        31
    }
}

impl CalendarDate {
    /// The date names a real day.
    pub open spec fn wf(self) -> bool {
        1 <= self.month <= 12 && 1 <= self.day <= days_in_month(self.year as int, self.month as int)
    }

    /// A number that orders well-formed dates as the calendar does.
    pub open spec fn key(self) -> int {
        self.year * 416 + self.month * 32 + self.day
    }

    pub fn sort_key(&self) -> (k: i64)
        requires
            self.wf(),
        ensures
            k == self.key(),
    {
        (self.year as i64) * 416 + (self.month as i64) * 32 + (self.day as i64)
    }
}

/// Two well-formed dates have the same key exactly when they are the same date.
pub proof fn lemma_key_injective(a: CalendarDate, b: CalendarDate)
    requires
        a.wf(),
        b.wf(),
    ensures
        (a.key() == b.key()) == (a == b),
{
    if a.key() == b.key() {
        assert(a.year == b.year) by (nonlinear_arith)
            requires
                a.year * 416 + a.month * 32 + a.day == b.year * 416 + b.month * 32 + b.day,
                1 <= a.month <= 12,
                1 <= b.month <= 12,
                1 <= a.day <= 31,
                1 <= b.day <= 31,
        ;
        assert(a.month == b.month) by (nonlinear_arith)
            requires
                a.month * 32 + a.day == b.month * 32 + b.day,
                1 <= a.day <= 31,
                1 <= b.day <= 31,
        ;
    }
}

/// The date that a text denotes under a chrono format pattern, if any.
pub uninterp spec fn parsed_date_of(text: Seq<char>, pattern: Seq<char>) -> Option<CalendarDate>;

#[verifier::external_type_specification]
#[verifier::external_body]
pub struct ExParseError(chrono::ParseError);

/// Relies on chrono's `NaiveDate::parse_from_str`: a date that parses is a
/// real day (`NaiveDate` holds no other value), and the outcome depends on
/// the text and the pattern alone.
#[verifier::external_body]
fn parse_with_pattern(text: &str, pattern: &str) -> (r: Result<CalendarDate, chrono::ParseError>)
    ensures
        match r {
            Ok(d) => parsed_date_of(text@, pattern@) == Some(d) && d.wf(),
            Err(_) => parsed_date_of(text@, pattern@) is None,
        },
{
    chrono::NaiveDate::parse_from_str(text, pattern).map(
        |d| CalendarDate { year: d.year(), month: d.month(), day: d.day() },
    )
}

/// The pattern of a record's date: `YYYY.MM.DD`.
pub open spec fn date_pattern() -> Seq<char> {
    "%Y.%m.%d"@
}

/// Parses a date written `YYYY.MM.DD`.
pub fn parse_date(text: &str) -> (r: Result<CalendarDate, chrono::ParseError>)
    ensures
        match r {
            Ok(d) => parsed_date_of(text@, date_pattern()) == Some(d) && d.wf(),
            Err(_) => parsed_date_of(text@, date_pattern()) is None,
        },
{
    parse_with_pattern(text, "%Y.%m.%d")
}

} // verus!
