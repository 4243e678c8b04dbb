//! Calendar dates of the proleptic Gregorian calendar.
use vstd::prelude::*;

verus! {

/// Smallest year a `Date` can hold.
pub const MIN_YEAR: i32 = -262144;

/// Largest year a `Date` can hold.
pub const MAX_YEAR: i32 = 262143;

/// The mathematical content of a date.
pub struct DateView {
    pub year: int,
    pub month: int,
    pub day: int,
}

pub open spec fn is_leap_year(year: int) -> bool {
    year % 4 == 0 && (year % 100 != 0 || year % 400 == 0)
}

pub open spec fn days_in_month(year: int, month: int) -> int {
    if month == 2 {
        if is_leap_year(year) { 29 } else { 28 }
    } else if month == 4 || month == 6 || month == 9 || month == 11 {
        30
    } else {
        31
    }
}

pub open spec fn valid_ymd(year: int, month: int, day: int) -> bool {
    &&& MIN_YEAR <= year <= MAX_YEAR
    &&& 1 <= month <= 12
    &&& 1 <= day <= days_in_month(year, month)
}

impl DateView {
    pub open spec fn is_valid(self) -> bool {
        valid_ymd(self.year, self.month, self.day)
    }

    /// A number that orders valid dates chronologically.
    pub open spec fn ordinal(self) -> int {
        self.year * 512 + self.month * 32 + self.day
    }

    /// The last day that a `Date` can hold.
    pub open spec fn is_last(self) -> bool {
        self.year == MAX_YEAR && self.month == 12 && self.day == 31
    }

    /// The calendar day that follows this one.
    pub open spec fn next_day(self) -> DateView {
        if self.day < days_in_month(self.year, self.month) {
            DateView { year: self.year, month: self.month, day: self.day + 1 }
        } else if self.month < 12 {
            DateView { year: self.year, month: self.month + 1, day: 1 }
        } else {
            DateView { year: self.year + 1, month: 1, day: 1 }
        }
    }
}

/// A valid calendar date.
#[derive(Clone, Copy, Debug, PartialEq, Eq, Structural, Hash)]
pub struct Date {
    year: i32,
    month: u32,
    day: u32,
}

impl View for Date {
    type V = DateView;

    /// The date's fields; a date always has valid ones (see the type
    /// invariant), so the first day of year 1 is never seen.
    closed spec fn view(&self) -> DateView {
        if valid_ymd(self.year as int, self.month as int, self.day as int) {
            DateView { year: self.year as int, month: self.month as int, day: self.day as int }
        } else {
            DateView { year: 1, month: 1, day: 1 }
        }
    }
}

/// Every date is a valid calendar date.
pub broadcast proof fn lemma_date_is_valid(d: Date)
    ensures
        (#[trigger] d@).is_valid(),
{
}

/// The Gregorian calendar: April, June, September and November have 30
/// days; February has 29 in a year divisible by 4 but not by 100, or by
/// 400, and 28 otherwise; the other months have 31.
pub proof fn lemma_gregorian_month_lengths(y: int)
    ensures
        days_in_month(y, 1) == 31,
        days_in_month(y, 2) == if (y % 4 == 0 && y % 100 != 0) || y % 400 == 0 {
            29int
        } else {
            28int
        },
        days_in_month(y, 3) == 31,
        days_in_month(y, 4) == 30,
        days_in_month(y, 5) == 31,
        days_in_month(y, 6) == 30,
        days_in_month(y, 7) == 31,
        days_in_month(y, 8) == 31,
        days_in_month(y, 9) == 30,
        days_in_month(y, 10) == 31,
        days_in_month(y, 11) == 30,
        days_in_month(y, 12) == 31,
{
}

/// Whether `year` is a leap year; `year` is shifted by a multiple of 400 so
/// that the remainders are taken of a non-negative number.
fn leap_year(year: i32) -> (r: bool)
    requires
        MIN_YEAR <= year <= MAX_YEAR,
    ensures
        r == is_leap_year(year as int),
{
    let shifted: u32 = (year + 400000) as u32;
    shifted % 4 == 0 && (shifted % 100 != 0 || shifted % 400 == 0)
}

/// The number of days in `month` of `year`.
pub fn month_length(year: i32, month: u32) -> (r: u32)
    requires
        MIN_YEAR <= year <= MAX_YEAR,
    ensures
        r == days_in_month(year as int, month as int),
{
    if month == 2 {
        if leap_year(year) { 29 } else { 28 }
    } else if month == 4 || month == 6 || month == 9 || month == 11 {
        30
    } else {
        31
    }
}

impl Date {
    #[verifier::type_invariant]
    spec fn well_formed(self) -> bool {
        valid_ymd(self.year as int, self.month as int, self.day as int)
    }

    /// The date with the given year, month and day, where it exists.
    pub fn from_ymd_opt(year: i32, month: u32, day: u32) -> (r: Option<Date>)
        ensures
            r is Some <==> valid_ymd(year as int, month as int, day as int),
            r matches Some(d) ==> d@ == (DateView {
                year: year as int,
                month: month as int,
                day: day as int,
            }),
    {
        if year < MIN_YEAR || year > MAX_YEAR || month < 1 || month > 12 || day < 1 {
            return None;
        }
        if day > month_length(year, month) {
            return None;
        }
        Some(Date { year, month, day })
    }

    pub fn year(&self) -> (r: i32)
        ensures
            r == self@.year,
    {
        proof {
            use_type_invariant(self);
        }
        self.year
    }

    pub fn month(&self) -> (r: u32)
        ensures
            r == self@.month,
    {
        proof {
            use_type_invariant(self);
        }
        self.month
    }

    pub fn day(&self) -> (r: u32)
        ensures
            r == self@.day,
    {
        proof {
            use_type_invariant(self);
        }
        self.day
    }

    /// Whether this date comes strictly before `other`.
    pub fn is_before(&self, other: &Date) -> (r: bool)
        ensures
            r == (self@.ordinal() < other@.ordinal()),
    {
        proof {
            use_type_invariant(self);
            use_type_invariant(other);
        }
        if self.year != other.year {
            self.year < other.year
        } else if self.month != other.month {
            self.month < other.month
        } else {
            self.day < other.day
        }
    }

    /// The next calendar day. The last representable day has none.
    pub fn succ(&self) -> (r: Date)
        requires
            !self@.is_last(),
        ensures
            r@ == self@.next_day(),
    {
        proof {
            use_type_invariant(self);
        }
        if self.day < month_length(self.year, self.month) {
            Date { year: self.year, month: self.month, day: self.day + 1 }
        } else if self.month < 12 {
            Date { year: self.year, month: self.month + 1, day: 1 }
        } else {
            Date { year: self.year + 1, month: 1, day: 1 }
        }
    }
}

/// The ordinal orders valid dates as their (year, month, day) triples are
/// ordered lexicographically.
pub proof fn lemma_ordinal_is_lexicographic(a: DateView, b: DateView)
    requires
        a.is_valid(),
        b.is_valid(),
    ensures
        (a.ordinal() < b.ordinal()) <==> (a.year < b.year || (a.year == b.year && (a.month
            < b.month || (a.month == b.month && a.day < b.day)))),
        (a.ordinal() == b.ordinal()) <==> (a == b),
{
}

/// The day after a valid date is a valid date, comes after it, and no valid
/// date lies strictly between the two.
pub proof fn lemma_next_day_is_successor(a: DateView, b: DateView)
    requires
        a.is_valid(),
        b.is_valid(),
        !a.is_last(),
    ensures
        a.next_day().is_valid(),
        a.ordinal() < a.next_day().ordinal(),
        !(a.ordinal() < b.ordinal() && b.ordinal() < a.next_day().ordinal()),
{
}

} // verus!
