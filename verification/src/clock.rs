//! The one place the library asks the machine for the current day.

use chrono::Datelike;
use vstd::prelude::*;

use crate::date::Date;

verus! {

/// Relies on chrono: `Local::now().date_naive()` is the local calendar day,
/// and `Datelike::month` / `Datelike::day` always report a month in 1..=12
/// and a day in 1..=31. The year is cast to `u32` unchecked; `today` below
/// re-validates the whole triple.
#[verifier::external_body]
fn today_ymd() -> (r: (u32, u32, u32))
    ensures
        1 <= r.1 <= 12,
        1 <= r.2 <= 31,
{
    let d = chrono::Local::now().date_naive();
    (d.year() as u32, d.month(), d.day())
}

/// The current local calendar day. Whatever the clock reports, the result is
/// a valid date: a reading outside the supported range falls back to the
/// first day of 2000.
pub fn today() -> (r: Date)
    ensures
        r.spec_valid(),
{
    let (y, m, d) = today_ymd();
    let c = Date { year: y, month: m, day: d };
    if c.valid() {
        c
    } else {
        Date { year: 2000, month: 1, day: 1 }
    }
}

} // verus!
