//! Calendar dates (proleptic Gregorian), as `chrono::NaiveDate` holds them.

use vstd::prelude::*;

use crate::dec::{digits, pad_zeros};
use crate::text::string_from_chars;

verus! {

/// Smallest year a date may carry (`chrono`'s `NaiveDate` range).
pub open spec fn min_year() -> int {
    -262143
}

/// Largest year a date may carry (`chrono`'s `NaiveDate` range).
pub open spec fn max_year() -> int {
    262142
}

pub open spec fn is_leap_year(y: int) -> bool {
    y % 4 == 0 && (y % 100 != 0 || y % 400 == 0)
}

pub open spec fn days_in_month(y: int, m: int) -> int {
    if m == 2 {
        if is_leap_year(y) { 29 } else { 28 }
    } else if m == 4 || m == 6 || m == 9 || m == 11 {
        30
    } else {
        31
    }
}

/// Days in the months of year `y` that come before month `m`.
pub open spec fn days_before_month(y: int, m: int) -> int {
    let base: int = if m <= 1 { 0 }
        else if m == 2 { 31 }
        else if m == 3 { 59 }
        else if m == 4 { 90 }
        else if m == 5 { 120 }
        else if m == 6 { 151 }
        else if m == 7 { 181 }
        else if m == 8 { 212 }
        else if m == 9 { 243 }
        else if m == 10 { 273 }
        else if m == 11 { 304 }
        else { 334 };
    if m > 2 && is_leap_year(y) { base + 1 } else { base }
}

/// Days from 1 January of year 0 to 1 January of year `y` (negative before year 0).
pub open spec fn days_before_year(y: int) -> int {
    365 * y + (y + 3) / 4 - (y + 99) / 100 + (y + 399) / 400
}

/// The plain content of a date.
pub struct DateView {
    pub year: int,
    pub month: int,
    pub day: int,
}

impl DateView {
    pub open spec fn valid(self) -> bool {
        &&& min_year() <= self.year <= max_year()
        &&& 1 <= self.month <= 12
        &&& 1 <= self.day <= days_in_month(self.year, self.month)
    }

    /// Consecutive days get consecutive numbers; 1 January of year 0 is day 0.
    pub open spec fn day_number(self) -> int {
        days_before_year(self.year) + days_before_month(self.year, self.month) + self.day - 1
    }

    /// Chronological order, which for valid dates is the order of `(year, month, day)`.
    pub open spec fn before(self, other: DateView) -> bool {
        ||| self.year < other.year
        ||| (self.year == other.year && self.month < other.month)
        ||| (self.year == other.year && self.month == other.month && self.day < other.day)
    }
}

/// A valid calendar date.
#[derive(Debug, PartialEq, Eq)]
pub struct Date {
    year: i32,
    month: u32,
    day: u32,
}

impl View for Date {
    type V = DateView;

    closed spec fn view(&self) -> DateView {
        DateView { year: self.year as int, month: self.month as int, day: self.day as int }
    }
}

impl Clone for Date {
    fn clone(&self) -> (r: Date)
        ensures
            r@ == self@,
    {
        proof {
            use_type_invariant(self);
        }
        Date { year: self.year, month: self.month, day: self.day }
    }
}

impl Copy for Date {
}

fn is_leap_exec(y: i32) -> (r: bool)
    ensures
        r == is_leap_year(y as int),
{
    y % 4 == 0 && (y % 100 != 0 || y % 400 == 0)
}

fn days_in_month_exec(y: i32, m: u32) -> (r: u32)
    requires
        1 <= m <= 12,
    ensures
        r as int == days_in_month(y as int, m as int),
{
    if m == 2 {
        if is_leap_exec(y) { 29 } else { 28 }
    } else if m == 4 || m == 6 || m == 9 || m == 11 {
        30
    } else {
        31
    }
}

impl Date {
    #[verifier::type_invariant]
    closed spec fn inv(self) -> bool {
        self@.valid()
    }

    /// The date `year-month-day`, or `None` when there is no such day (`NaiveDate::from_ymd_opt`).
    pub fn from_ymd_opt(year: i32, month: u32, day: u32) -> (r: Option<Date>)
        ensures
            r is Some <==> (DateView { year: year as int, month: month as int, day: day as int }).valid(),
            r matches Some(d) ==> d@ == (DateView { year: year as int, month: month as int, day: day as int }),
    {
        if year < -262143 || year > 262142 || month < 1 || month > 12 || day < 1 {
            return None;
        }
        if day > days_in_month_exec(year, month) {
            return None;
        }
        Some(Date { year, month, day })
    }

    pub fn year(&self) -> (r: i32)
        ensures
            r as int == self@.year,
    {
        self.year
    }

    pub fn month(&self) -> (r: u32)
        ensures
            r as int == self@.month,
    {
        self.month
    }

    pub fn day(&self) -> (r: u32)
        ensures
            r as int == self@.day,
    {
        self.day
    }

    /// Every date is valid.
    pub fn check_valid(&self)
        ensures
            self@.valid(),
    {
        proof {
            use_type_invariant(self);
        }
    }

    /// The day number (see [`DateView::day_number`]).
    pub fn day_number(&self) -> (r: i64)
        ensures
            r as int == self@.day_number(),
    {
        proof {
            use_type_invariant(self);
        }
        let y = self.year as i64;
        let m = self.month;
        let base: i64 = if m <= 1 { 0 }
            else if m == 2 { 31 }
            else if m == 3 { 59 }
            else if m == 4 { 90 }
            else if m == 5 { 120 }
            else if m == 6 { 151 }
            else if m == 7 { 181 }
            else if m == 8 { 212 }
            else if m == 9 { 243 }
            else if m == 10 { 273 }
            else if m == 11 { 304 }
            else { 334 };
        let before_month: i64 = if m > 2 && is_leap_exec(self.year) { base + 1 } else { base };
        // Shifted by 1000 cycles of 400 years so that every division is of a positive number.
        let ys = y + 400000;
        let before_year: i64 = 365 * ys + (ys + 3) / 4 - (ys + 99) / 100 + (ys + 399) / 400 - 146097000;
        proof {
            let yi = y as int;
            assert((yi + 400000 + 3) / 4 == (yi + 3) / 4 + 100000);
            assert((yi + 400000 + 99) / 100 == (yi + 99) / 100 + 4000);
            assert((yi + 400000 + 399) / 400 == (yi + 399) / 400 + 1000);
        }
        before_year + before_month + self.day as i64 - 1
    }

    /// Whole days from `self` to `other` (negative when `other` is earlier), as
    /// `(other - self).num_days()` computes it.
    pub fn days_until(&self, other: &Date) -> (r: i64)
        ensures
            r as int == other@.day_number() - self@.day_number(),
    {
        proof {
            use_type_invariant(self);
            use_type_invariant(other);
        }
        other.day_number() - self.day_number()
    }

    /// `self` is strictly earlier than `other`.
    pub fn before(&self, other: &Date) -> (r: bool)
        ensures
            r == self@.before(other@),
    {
        self.year < other.year || (self.year == other.year && self.month < other.month)
            || (self.year == other.year && self.month == other.month && self.day < other.day)
    }
}

/// How `NaiveDate` displays a date: `YYYY-MM-DD`, the year as four digits, or with an
/// explicit sign and at least four digits outside `0..=9999`.
pub open spec fn date_text(v: DateView) -> Seq<char> {
    let abs_year = if v.year < 0 { -v.year } else { v.year };
    let year_digits = pad_zeros(digits(abs_year as nat), 4);
    let year_text = if 0 <= v.year <= 9999 {
        year_digits
    } else if v.year < 0 {
        seq!['-'] + year_digits
    } else {
        seq!['+'] + year_digits
    };
    year_text + seq!['-'] + pad_zeros(digits(v.month as nat), 2) + seq!['-'] + pad_zeros(digits(v.day as nat), 2)
}

/// Writes a date through `NaiveDate`'s `Display`. Every valid date is one `NaiveDate`
/// can hold, so the conversion never fails.
#[verifier::external_body]
fn naive_date_text(d: &Date) -> (s: String)
    ensures
        s@ == date_text(d@),
{
    match chrono::NaiveDate::from_ymd_opt(d.year, d.month, d.day) {
        Some(n) => n.to_string(),
        None => String::new(),
    }
}

impl Date {
    /// The date as `NaiveDate`'s `Display` writes it.
    pub fn to_string(&self) -> (s: String)
        ensures
            s@ == date_text(self@),
    {
        naive_date_text(self)
    }
}

/// What `NaiveDate::parse_from_str(text, layout)` returns, as a date (`None` for an error).
pub uninterp spec fn naive_date_parse_from_str(text: Seq<char>, layout: Seq<char>) -> Option<DateView>;

/// The view of an optional date.
pub open spec fn opt_date_view(d: Option<Date>) -> Option<DateView> {
    match d {
        Some(x) => Some(x@),
        None => None,
    }
}

/// Parses `text` against a `strftime` layout with `NaiveDate::parse_from_str`.
#[verifier::external_body]
pub(crate) fn parse_from_str(text: &str, layout: &str) -> (r: Option<Date>)
    ensures
        opt_date_view(r) == naive_date_parse_from_str(text@, layout@),
{
    match chrono::NaiveDate::parse_from_str(text, layout) {
        Ok(d) => Some(Date { year: chrono::Datelike::year(&d), month: chrono::Datelike::month(&d), day: chrono::Datelike::day(&d) }),
        Err(_) => None,
    }
}

} // verus!
