//! Plain-value calendar dates (proleptic Gregorian, years 1 through 9999),
//! with day stepping, month paging, day numbering and text rendering.

use vstd::prelude::*;
use vstd::string::*;

use crate::strnum::{pad2_string, pad4_string, spec_pad2, spec_pad4};

verus! {

/// A calendar date as plain year, month and day fields.
#[derive(Clone, Copy, Debug, PartialEq, Eq, Structural)]
pub struct Date {
    pub year: u32,
    pub month: u32,
    pub day: u32,
}

/// True for leap years of the Gregorian calendar.
pub open spec fn spec_is_leap_year(y: u32) -> bool {
    (y % 4 == 0 && y % 100 != 0) || y % 400 == 0
}

/// Number of days in the given month.
pub open spec fn spec_days_in_month(y: u32, m: u32) -> u32 {
    if m == 2 {
        if spec_is_leap_year(y) {
            29
        } else {
            28
        }
    } else if m == 4 || m == 6 || m == 9 || m == 11 {
        30
    } else {
        31
    }
}

pub fn is_leap_year(y: u32) -> (r: bool)
    ensures
        r == spec_is_leap_year(y),
{
    (y % 4 == 0 && y % 100 != 0) || y % 400 == 0
}

pub fn days_in_month(y: u32, m: u32) -> (r: u32)
    ensures
        r == spec_days_in_month(y, m),
        28 <= r <= 31,
{
    if m == 2 {
        if is_leap_year(y) {
            29
        } else {
            28
        }
    } else if m == 4 || m == 6 || m == 9 || m == 11 {
        30
    } else {
        31
    }
}

/// Strict lexicographic order on (year, month, day).
pub open spec fn spec_date_lt(a: Date, b: Date) -> bool {
    a.year < b.year || (a.year == b.year && (a.month < b.month || (a.month == b.month && a.day
        < b.day)))
}

/// The day after `d`, staying put at the last representable day.
pub open spec fn spec_succ_day(d: Date) -> Date {
    if d.day < spec_days_in_month(d.year, d.month) {
        Date { year: d.year, month: d.month, day: (d.day + 1) as u32 }
    } else if d.month < 12 {
        Date { year: d.year, month: (d.month + 1) as u32, day: 1 }
    } else if d.year < 9999 {
        Date { year: (d.year + 1) as u32, month: 1, day: 1 }
    } else {
        d
    }
}

/// The day before `d`, staying put at the first representable day.
pub open spec fn spec_pred_day(d: Date) -> Date {
    if d.day > 1 {
        Date { year: d.year, month: d.month, day: (d.day - 1) as u32 }
    } else if d.month > 1 {
        Date {
            year: d.year,
            month: (d.month - 1) as u32,
            day: spec_days_in_month(d.year, (d.month - 1) as u32),
        }
    } else if d.year > 1 {
        Date { year: (d.year - 1) as u32, month: 12, day: 31 }
    } else {
        d
    }
}

/// Same month one step later, clamping the day to the target month's length;
/// stays put at the last representable month.
pub open spec fn spec_month_forward(d: Date) -> Date {
    if d.month < 12 {
        let m2 = (d.month + 1) as u32;
        let dim = spec_days_in_month(d.year, m2);
        Date { year: d.year, month: m2, day: if d.day <= dim { d.day } else { dim } }
    } else if d.year < 9999 {
        Date { year: (d.year + 1) as u32, month: 1, day: d.day }
    } else {
        d
    }
}

/// Same month one step earlier, clamping the day to the target month's
/// length; stays put at the first representable month.
pub open spec fn spec_month_backward(d: Date) -> Date {
    if d.month > 1 {
        let m2 = (d.month - 1) as u32;
        let dim = spec_days_in_month(d.year, m2);
        Date { year: d.year, month: m2, day: if d.day <= dim { d.day } else { dim } }
    } else if d.year > 1 {
        Date { year: (d.year - 1) as u32, month: 12, day: d.day }
    } else {
        d
    }
}

/// Days in all years before year `y`.
pub open spec fn spec_days_before_year(y: u32) -> int {
    365 * (y - 1) + (y - 1) / 4 - (y - 1) / 100 + (y - 1) / 400
}

/// Days in all months of year `y` before month `m`.
pub open spec fn spec_days_before_month(y: u32, m: u32) -> int
    decreases m,
{
    if m <= 1 {
        0
    } else {
        spec_days_before_month(y, (m - 1) as u32) + spec_days_in_month(y, (m - 1) as u32)
    }
}

/// Zero-based ordinal of `d` counted from the first representable day.
pub open spec fn spec_day_number(d: Date) -> int {
    spec_days_before_year(d.year) + spec_days_before_month(d.year, d.month) + d.day - 1
}

/// "YYYY-MM-DD".
pub open spec fn spec_iso_date(d: Date) -> Seq<char> {
    spec_pad4(d.year as nat) + seq!['-'] + spec_pad2(d.month as nat) + seq!['-'] + spec_pad2(
        d.day as nat,
    )
}

/// The lower-case three-letter abbreviation of month `m`.
pub open spec fn spec_month_lower(m: u32) -> Seq<char> {
    if m == 1 {
        "jan"@
    } else if m == 2 {
        "feb"@
    } else if m == 3 {
        "mar"@
    } else if m == 4 {
        "apr"@
    } else if m == 5 {
        "may"@
    } else if m == 6 {
        "jun"@
    } else if m == 7 {
        "jul"@
    } else if m == 8 {
        "aug"@
    } else if m == 9 {
        "sep"@
    } else if m == 10 {
        "oct"@
    } else if m == 11 {
        "nov"@
    } else {
        "dec"@
    }
}

/// The title-case three-letter abbreviation of month `m`.
pub open spec fn spec_month_title(m: u32) -> Seq<char> {
    if m == 1 {
        "Jan"@
    } else if m == 2 {
        "Feb"@
    } else if m == 3 {
        "Mar"@
    } else if m == 4 {
        "Apr"@
    } else if m == 5 {
        "May"@
    } else if m == 6 {
        "Jun"@
    } else if m == 7 {
        "Jul"@
    } else if m == 8 {
        "Aug"@
    } else if m == 9 {
        "Sep"@
    } else if m == 10 {
        "Oct"@
    } else if m == 11 {
        "Nov"@
    } else {
        "Dec"@
    }
}

impl Date {
    /// True when the fields name a real calendar day.
    pub open spec fn spec_valid(self) -> bool {
        1 <= self.year <= 9999 && 1 <= self.month <= 12 && 1 <= self.day
            <= spec_days_in_month(self.year, self.month)
    }

    pub fn valid(self) -> (r: bool)
        ensures
            r == self.spec_valid(),
    {
        1 <= self.year && self.year <= 9999 && 1 <= self.month && self.month <= 12 && 1
            <= self.day && self.day <= days_in_month(self.year, self.month)
    }

    pub fn lt(self, other: Date) -> (r: bool)
        ensures
            r == spec_date_lt(self, other),
    {
        self.year < other.year || (self.year == other.year && (self.month < other.month || (
        self.month == other.month && self.day < other.day)))
    }

    pub fn succ_day(self) -> (r: Date)
        requires
            self.spec_valid(),
        ensures
            r == spec_succ_day(self),
            r.spec_valid(),
    {
        if self.day < days_in_month(self.year, self.month) {
            Date { year: self.year, month: self.month, day: self.day + 1 }
        } else if self.month < 12 {
            Date { year: self.year, month: self.month + 1, day: 1 }
        } else if self.year < 9999 {
            Date { year: self.year + 1, month: 1, day: 1 }
        } else {
            self
        }
    }

    pub fn pred_day(self) -> (r: Date)
        requires
            self.spec_valid(),
        ensures
            r == spec_pred_day(self),
            r.spec_valid(),
    {
        if self.day > 1 {
            Date { year: self.year, month: self.month, day: self.day - 1 }
        } else if self.month > 1 {
            Date { year: self.year, month: self.month - 1, day: days_in_month(
                self.year,
                self.month - 1,
            ) }
        } else if self.year > 1 {
            Date { year: self.year - 1, month: 12, day: 31 }
        } else {
            self
        }
    }

    pub fn month_forward(self) -> (r: Date)
        requires
            self.spec_valid(),
        ensures
            r == spec_month_forward(self),
            r.spec_valid(),
    {
        if self.month < 12 {
            let m2 = self.month + 1;
            let dim = days_in_month(self.year, m2);
            Date { year: self.year, month: m2, day: if self.day <= dim {
                self.day
            } else {
                dim
            } }
        } else if self.year < 9999 {
            Date { year: self.year + 1, month: 1, day: self.day }
        } else {
            self
        }
    }

    pub fn month_backward(self) -> (r: Date)
        requires
            self.spec_valid(),
        ensures
            r == spec_month_backward(self),
            r.spec_valid(),
    {
        if self.month > 1 {
            let m2 = self.month - 1;
            let dim = days_in_month(self.year, m2);
            Date { year: self.year, month: m2, day: if self.day <= dim {
                self.day
            } else {
                dim
            } }
        } else if self.year > 1 {
            Date { year: self.year - 1, month: 12, day: self.day }
        } else {
            self
        }
    }

    /// Zero-based ordinal of this date from the first representable day;
    /// small enough for exact signed differences.
    pub fn day_number(self) -> (r: u32)
        requires
            self.spec_valid(),
        ensures
            r == spec_day_number(self),
            r < 4000000,
    {
        let y = self.year;
        let before_year: u32 = 365 * (y - 1) + (y - 1) / 4 - (y - 1) / 100 + (y - 1) / 400;
        let mut before_month: u32 = 0;
        let mut mm: u32 = 1;
        while mm < self.month
            invariant
                1 <= mm <= self.month,
                self.month <= 12,
                before_month == spec_days_before_month(y, mm),
                before_month <= 31 * (mm - 1),
            decreases self.month - mm,
        {
            before_month = before_month + days_in_month(y, mm);
            mm = mm + 1;
        }
        before_year + before_month + self.day - 1
    }

    /// Renders this date as "YYYY-MM-DD".
    pub fn iso_string(self) -> (r: String)
        requires
            self.spec_valid(),
        ensures
            r@ == spec_iso_date(self),
    {
        proof {
            reveal_strlit("-");
        }
        let mut s = pad4_string(self.year);
        s.append("-");
        s.append(pad2_string(self.month).as_str());
        s.append("-");
        s.append(pad2_string(self.day).as_str());
        assert(s@ =~= spec_iso_date(self));
        s
    }
}

/// The lower-case three-letter abbreviation of month `m`.
pub fn month_lower(m: u32) -> (r: String)
    requires
        1 <= m <= 12,
    ensures
        r@ == spec_month_lower(m),
{
    if m == 1 {
        "jan".to_owned()
    } else if m == 2 {
        "feb".to_owned()
    } else if m == 3 {
        "mar".to_owned()
    } else if m == 4 {
        "apr".to_owned()
    } else if m == 5 {
        "may".to_owned()
    } else if m == 6 {
        "jun".to_owned()
    } else if m == 7 {
        "jul".to_owned()
    } else if m == 8 {
        "aug".to_owned()
    } else if m == 9 {
        "sep".to_owned()
    } else if m == 10 {
        "oct".to_owned()
    } else if m == 11 {
        "nov".to_owned()
    } else {
        "dec".to_owned()
    }
}

/// The title-case three-letter abbreviation of month `m`.
pub fn month_title(m: u32) -> (r: String)
    requires
        1 <= m <= 12,
    ensures
        r@ == spec_month_title(m),
{
    if m == 1 {
        "Jan".to_owned()
    } else if m == 2 {
        "Feb".to_owned()
    } else if m == 3 {
        "Mar".to_owned()
    } else if m == 4 {
        "Apr".to_owned()
    } else if m == 5 {
        "May".to_owned()
    } else if m == 6 {
        "Jun".to_owned()
    } else if m == 7 {
        "Jul".to_owned()
    } else if m == 8 {
        "Aug".to_owned()
    } else if m == 9 {
        "Sep".to_owned()
    } else if m == 10 {
        "Oct".to_owned()
    } else if m == 11 {
        "Nov".to_owned()
    } else {
        "Dec".to_owned()
    }
}

} // verus!
